//! Byte sequences read as unsigned integers, least or most significant byte
//! first.

use vstd::prelude::*;

verus! {

/// The number whose little-endian representation is `bytes`.
pub open spec fn le_value(bytes: Seq<u8>) -> nat
    decreases bytes.len(),
{
    if bytes.len() == 0 {
        0
    } else {
        bytes[0] as nat + 256 * le_value(bytes.drop_first())
    }
}

/// The little-endian representation of `value` in `width` bytes; what does
/// not fit is cut off.
pub open spec fn le_bytes(value: nat, width: nat) -> Seq<u8>
    decreases width,
{
    if width == 0 {
        Seq::empty()
    } else {
        seq![(value % 256) as u8] + le_bytes(value / 256, (width - 1) as nat)
    }
}

/// The number whose big-endian representation is `bytes`.
pub open spec fn be_value(bytes: Seq<u8>) -> nat {
    le_value(bytes.reverse())
}

/// The big-endian representation of `value` in `width` bytes.
pub open spec fn be_bytes(value: nat, width: nat) -> Seq<u8> {
    le_bytes(value, width).reverse()
}

/// 256 to the power `width`: one more than the largest number that `width`
/// bytes hold.
pub open spec fn limit(width: nat) -> nat
    decreases width,
{
    if width == 0 {
        1
    } else {
        256 * limit((width - 1) as nat)
    }
}

/// A representation has as many bytes as were asked for.
pub proof fn lemma_le_bytes_len(value: nat, width: nat)
    ensures
        le_bytes(value, width).len() == width,
    decreases width,
{
    if width > 0 {
        lemma_le_bytes_len(value / 256, (width - 1) as nat);
    }
}

/// Reading a representation gives the number back, as far as it fitted.
pub proof fn lemma_le_value_of_bytes(value: nat, width: nat)
    ensures
        le_value(le_bytes(value, width)) == value % limit(width),
    decreases width,
{
    if width == 0 {
    } else {
        let rest = le_bytes(value / 256, (width - 1) as nat);
        let all = le_bytes(value, width);
        lemma_le_value_of_bytes(value / 256, (width - 1) as nat);
        assert(all.drop_first() =~= rest);
        assert(all[0] == (value % 256) as u8);
        let m = limit((width - 1) as nat);
        lemma_limit_positive((width - 1) as nat);
        lemma_split_modulus(value, m);
    }
}

/// The limit is never zero.
pub proof fn lemma_limit_positive(width: nat)
    ensures
        limit(width) > 0,
    decreases width,
{
    if width > 0 {
        lemma_limit_positive((width - 1) as nat);
    }
}

/// A number below `256 * m` is its lowest byte plus 256 times the rest.
proof fn lemma_split_modulus(value: nat, m: nat)
    requires
        m > 0,
    ensures
        value % (256 * m) == value % 256 + 256 * ((value / 256) % m),
{
    let q = value / 256;
    let r = value % 256;
    assert(value == 256 * q + r) by (nonlinear_arith)
        requires
            q == value / 256,
            r == value % 256,
    ;
    let qq = q / m;
    let qr = q % m;
    assert(q == m * qq + qr) by (nonlinear_arith)
        requires
            m > 0,
            qq == q / m,
            qr == q % m,
    ;
    assert(0 <= qr < m) by (nonlinear_arith)
        requires
            m > 0,
            qr == q % m,
    ;
    let low = r + 256 * qr;
    assert(0 <= low < 256 * m);
    assert(value == (256 * m) * qq + low) by (nonlinear_arith)
        requires
            value == 256 * q + r,
            q == m * qq + qr,
            low == r + 256 * qr,
    ;
    vstd::arithmetic::div_mod::lemma_fundamental_div_mod_converse(
        value as int,
        (256 * m) as int,
        qq as int,
        low as int,
    );
}

/// Writing what was read gives the bytes back.
pub proof fn lemma_le_bytes_of_value(bytes: Seq<u8>)
    ensures
        le_bytes(le_value(bytes), bytes.len()) == bytes,
        le_value(bytes) < limit(bytes.len()),
    decreases bytes.len(),
{
    if bytes.len() == 0 {
        assert(le_bytes(le_value(bytes), bytes.len()) =~= bytes);
    } else {
        let rest = bytes.drop_first();
        lemma_le_bytes_of_value(rest);
        let v = le_value(bytes);
        let r = le_value(rest);
        assert(v == bytes[0] as nat + 256 * r);
        assert(v % 256 == bytes[0] as nat && v / 256 == r) by (nonlinear_arith)
            requires
                v == bytes[0] as nat + 256 * r,
                (bytes[0] as nat) < 256,
        ;
        assert(le_bytes(v, bytes.len()) =~= seq![bytes[0]] + le_bytes(r, rest.len()));
        assert(seq![bytes[0]] + rest =~= bytes);
        assert(v < 256 * limit(rest.len())) by (nonlinear_arith)
            requires
                v == bytes[0] as nat + 256 * r,
                (bytes[0] as nat) <= 255,
                r < limit(rest.len()),
        ;
    }
}

/// Reversing twice changes nothing.
pub proof fn lemma_reverse_twice(bytes: Seq<u8>)
    ensures
        bytes.reverse().reverse() == bytes,
{
    assert(bytes.reverse().reverse() =~= bytes);
}

} // verus!
