//! Text rules of the comparisons: surrounding whitespace and containment.

use vstd::prelude::*;

verus! {

/// Whether a character is whitespace: the characters with the Unicode
/// property `White_Space`.
pub open spec fn is_whitespace(c: char) -> bool {
    let n = c as u32;
    ||| 0x09 <= n <= 0x0D
    ||| n == 0x20
    ||| n == 0x85
    ||| n == 0xA0
    ||| n == 0x1680
    ||| 0x2000 <= n <= 0x200A
    ||| n == 0x2028
    ||| n == 0x2029
    ||| n == 0x202F
    ||| n == 0x205F
    ||| n == 0x3000
}

/// Whether every character of a text is whitespace.
pub open spec fn all_whitespace(s: Seq<char>) -> bool {
    forall|i: int| 0 <= i < s.len() ==> is_whitespace(#[trigger] s[i])
}

/// A text without its leading whitespace.
pub open spec fn skip_leading(s: Seq<char>) -> Seq<char>
    decreases s.len(),
{
    if s.len() > 0 && is_whitespace(s[0]) {
        skip_leading(s.drop_first())
    } else {
        s
    }
}

/// A text without its trailing whitespace.
pub open spec fn skip_trailing(s: Seq<char>) -> Seq<char>
    decreases s.len(),
{
    if s.len() > 0 && is_whitespace(s.last()) {
        skip_trailing(s.drop_last())
    } else {
        s
    }
}

/// A text without its leading and trailing whitespace.
pub open spec fn trimmed(s: Seq<char>) -> Seq<char> {
    skip_trailing(skip_leading(s))
}

/// Whether `part` occurs in `whole` as a run of consecutive characters.
pub open spec fn occurs_in(part: Seq<char>, whole: Seq<char>) -> bool {
    exists|i: int| 0 <= i && i + part.len() <= whole.len() && #[trigger] whole.subrange(i, i + part.len()) == part
}

/// Calls `str::trim`, which returns the slice left when leading and trailing
/// whitespace is removed, whitespace being the characters with the Unicode
/// property `White_Space`.
#[verifier::external_body]
pub(crate) fn trim(s: &str) -> (r: &str)
    ensures
        r@ == trimmed(s@),
{
    s.trim()
}

/// Calls `str::contains` with a string slice as the pattern, which tells
/// whether the pattern matches a sub-slice of the text.
#[verifier::external_body]
pub(crate) fn contains(whole: &str, part: &str) -> (r: bool)
    ensures
        r == occurs_in(part@, whole@),
{
    whole.contains(part)
}

/// Leading whitespace in front of any text is skipped with that of the text.
pub proof fn lemma_skip_leading_padding(pad: Seq<char>, s: Seq<char>)
    requires
        all_whitespace(pad),
    ensures
        skip_leading(pad + s) == skip_leading(s),
    decreases pad.len(),
{
    if pad.len() > 0 {
        assert((pad + s).drop_first() =~= pad.drop_first() + s);
        assert forall|i: int| 0 <= i < pad.drop_first().len() implies is_whitespace(
            #[trigger] pad.drop_first()[i],
        ) by {}
        lemma_skip_leading_padding(pad.drop_first(), s);
    }
}

/// Trailing whitespace behind any text is skipped with that of the text.
pub proof fn lemma_skip_trailing_padding(s: Seq<char>, pad: Seq<char>)
    requires
        all_whitespace(pad),
    ensures
        skip_trailing(s + pad) == skip_trailing(s),
    decreases pad.len(),
{
    if pad.len() > 0 {
        assert((s + pad).drop_last() =~= s + pad.drop_last());
        assert forall|i: int| 0 <= i < pad.drop_last().len() implies is_whitespace(
            #[trigger] pad.drop_last()[i],
        ) by {}
        lemma_skip_trailing_padding(s, pad.drop_last());
    }
}

/// What skipping leading whitespace leaves of a text followed by another:
/// that of the other where the first is all whitespace, else what it leaves of
/// the first, followed by the other.
pub proof fn lemma_skip_leading_concat(s: Seq<char>, t: Seq<char>)
    ensures
        skip_leading(s + t) == if all_whitespace(s) {
            skip_leading(t)
        } else {
            skip_leading(s) + t
        },
    decreases s.len(),
{
    if s.len() > 0 && is_whitespace(s[0]) {
        assert((s + t).drop_first() =~= s.drop_first() + t);
        lemma_skip_leading_concat(s.drop_first(), t);
        if all_whitespace(s) {
            assert forall|i: int| 0 <= i < s.drop_first().len() implies is_whitespace(
                #[trigger] s.drop_first()[i],
            ) by {}
        } else if all_whitespace(s.drop_first()) {
            assert forall|i: int| 0 <= i < s.len() implies is_whitespace(#[trigger] s[i]) by {
                if i > 0 {
                    assert(s[i] == s.drop_first()[i - 1]);
                }
            }
        }
    }
}

/// A text of whitespace alone has nothing left when its leading whitespace
/// is skipped.
pub proof fn lemma_skip_leading_blank(s: Seq<char>)
    requires
        all_whitespace(s),
    ensures
        skip_leading(s) == Seq::<char>::empty(),
{
    lemma_skip_leading_padding(s, Seq::empty());
}

/// Whitespace around a text does not change what is left of it when trimmed.
pub proof fn lemma_trimmed_ignores_padding(left: Seq<char>, s: Seq<char>, right: Seq<char>)
    requires
        all_whitespace(left),
        all_whitespace(right),
    ensures
        trimmed(left + s + right) == trimmed(s),
{
    assert(left + s + right =~= left + (s + right));
    lemma_skip_leading_padding(left, s + right);
    lemma_skip_leading_concat(s, right);
    if all_whitespace(s) {
        lemma_skip_leading_blank(right);
        lemma_skip_leading_blank(s);
    } else {
        lemma_skip_trailing_padding(skip_leading(s), right);
    }
}

} // verus!
