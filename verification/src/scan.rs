//! What one pass over rejected text finds: the first character that no
//! layout allows, and the hyphens.

use vstd::prelude::*;

verus! {

/// `c` is one of `0`-`9`, `a`-`f`, `A`-`F`.
pub open spec fn is_hex_char(c: char) -> bool {
    ||| '0' <= c <= '9'
    ||| 'a' <= c <= 'f'
    ||| 'A' <= c <= 'F'
}

/// `c` may stand in the text of an identifier: a hexadecimal digit, or a
/// hyphen where the identifier has a hyphenated layout.
pub open spec fn allowed(c: char, hyphen_ok: bool) -> bool {
    is_hex_char(c) || (hyphen_ok && c == '-')
}

/// The position of the first character of `text` that is not allowed;
/// the length of `text` where all are.
pub open spec fn first_rejected(text: Seq<char>, hyphen_ok: bool) -> nat
    decreases text.len(),
{
    if text.len() == 0 || !allowed(text[0], hyphen_ok) {
        0
    } else {
        1 + first_rejected(text.drop_first(), hyphen_ok)
    }
}

/// The position of the first hyphen of `text`; the length of `text` where
/// it has none.
pub open spec fn first_hyphen(text: Seq<char>) -> nat
    decreases text.len(),
{
    if text.len() == 0 || text[0] == '-' {
        0
    } else {
        1 + first_hyphen(text.drop_first())
    }
}

/// How many hyphens `text` has.
pub open spec fn hyphens_in(text: Seq<char>) -> nat
    decreases text.len(),
{
    if text.len() == 0 {
        0
    } else {
        hyphens_in(text.drop_last()) + if text.last() == '-' {
            1nat
        } else {
            0nat
        }
    }
}

/// Where the first `at` characters are allowed, the first rejected one is
/// the one at `at` if that is not allowed, and there is none if `at` is the
/// end.
pub proof fn lemma_first_rejected(text: Seq<char>, hyphen_ok: bool, at: int)
    requires
        0 <= at <= text.len(),
        forall|j: int| 0 <= j < at ==> allowed(#[trigger] text[j], hyphen_ok),
        at < text.len() ==> !allowed(text[at], hyphen_ok),
    ensures
        first_rejected(text, hyphen_ok) == at,
    decreases at,
{
    if at > 0 {
        let rest = text.drop_first();
        assert(forall|j: int| 0 <= j < at - 1 ==> rest[j] == text[j + 1]);
        lemma_first_rejected(rest, hyphen_ok, at - 1);
    }
}

/// Where the first `at` characters are no hyphens, the first hyphen is the
/// one at `at` if that is one, and there is none if `at` is the end.
pub proof fn lemma_first_hyphen(text: Seq<char>, at: int)
    requires
        0 <= at <= text.len(),
        forall|j: int| 0 <= j < at ==> #[trigger] text[j] != '-',
        at < text.len() ==> text[at] == '-',
    ensures
        first_hyphen(text) == at,
    decreases at,
{
    if at > 0 {
        let rest = text.drop_first();
        assert(forall|j: int| 0 <= j < at - 1 ==> rest[j] == text[j + 1]);
        lemma_first_hyphen(rest, at - 1);
    }
}

/// No text has more hyphens than characters, and text has none exactly
/// where no character is one.
pub proof fn lemma_hyphens_in(text: Seq<char>)
    ensures
        hyphens_in(text) <= text.len(),
        hyphens_in(text) == 0 <==> forall|j: int| 0 <= j < text.len() ==> #[trigger] text[j] != '-',
    decreases text.len(),
{
    if text.len() > 0 {
        let front = text.drop_last();
        lemma_hyphens_in(front);
        assert(forall|j: int| 0 <= j < front.len() ==> front[j] == text[j]);
        if hyphens_in(text) == 0 {
            assert forall|j: int| 0 <= j < text.len() implies #[trigger] text[j] != '-' by {
                if j < front.len() {
                    assert(front[j] != '-');
                }
            }
        }
    }
}

/// One more character adds one to the count if it is a hyphen.
pub proof fn lemma_hyphens_in_take(text: Seq<char>, n: int)
    requires
        0 <= n < text.len(),
    ensures
        hyphens_in(text.take(n + 1)) == hyphens_in(text.take(n)) + if text[n] == '-' {
            1nat
        } else {
            0nat
        },
{
    assert(text.take(n + 1).drop_last() =~= text.take(n));
}

} // verus!
