//! Fixed-width volume identifiers of FAT, exFAT and NTFS filesystems, with
//! their hexadecimal text forms.

pub mod endian;
pub mod hex;
pub mod id32;
pub mod id64;
pub mod order;
pub mod scan;
pub mod text;
