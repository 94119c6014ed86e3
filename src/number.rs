//! The digits-only projection of a telephone number, used as a lookup key.
use vstd::prelude::*;
use crate::text::string_of;

verus! {

/// An ASCII decimal digit.
pub open spec fn is_digit(c: char) -> bool {
    '0' <= c && c <= '9'
}

/// The digits of `s`, in order, with every other character left out.
pub open spec fn digits_of(s: Seq<char>) -> Seq<char>
    decreases s.len(),
{
    if s.len() == 0 {
        Seq::empty()
    } else if is_digit(s.last()) {
        digits_of(s.drop_last()).push(s.last())
    } else {
        digits_of(s.drop_last())
    }
}

/// The digits of `s` as a vector.
pub fn digits_vec(s: &Vec<char>) -> (r: Vec<char>)
    ensures
        r@ == digits_of(s@),
{
    let mut r: Vec<char> = Vec::new();
    let mut i: usize = 0;
    assert(s@.take(0) =~= Seq::<char>::empty());
    while i < s.len()
        invariant
            i <= s.len(),
            r@ == digits_of(s@.take(i as int)),
        decreases s.len() - i,
    {
        let c = s[i];
        assert(s@.take(i + 1).drop_last() =~= s@.take(i as int));
        if '0' <= c && c <= '9' {
            r.push(c);
        }
        i = i + 1;
    }
    assert(s@.take(s.len() as int) =~= s@);
    r
}

/// The normalized form of a telephone number: its digits only.
pub fn fix_number(number: &str) -> (r: String)
    ensures
        r@ == digits_of(number@),
{
    let cs = crate::text::chars_of(number);
    let d = digits_vec(&cs);
    string_of(&d)
}

/// Normalizing a concatenation normalizes each part.
pub proof fn lemma_digits_concat(a: Seq<char>, b: Seq<char>)
    ensures
        digits_of(a + b) == digits_of(a) + digits_of(b),
    decreases b.len(),
{
    if b.len() == 0 {
        assert(a + b =~= a);
        assert(digits_of(a) + digits_of(b) =~= digits_of(a));
    } else {
        lemma_digits_concat(a, b.drop_last());
        assert((a + b).drop_last() =~= a + b.drop_last());
        assert((a + b).last() == b.last());
        if is_digit(b.last()) {
            assert(digits_of(a) + digits_of(b) =~= (digits_of(a) + digits_of(b.drop_last())).push(
                b.last(),
            ));
        }
    }
}

/// A text without digits normalizes to nothing.
pub proof fn lemma_digits_none(p: Seq<char>)
    requires
        forall|i: int| 0 <= i < p.len() ==> !is_digit(#[trigger] p[i]),
    ensures
        digits_of(p) == Seq::<char>::empty(),
    decreases p.len(),
{
    if p.len() > 0 {
        lemma_digits_none(p.drop_last());
    }
}

/// Two raw numbers that differ only by inserted punctuation (characters that
/// are not digits) have the same normalized form.
pub proof fn lemma_punctuation_ignored(a: Seq<char>, b: Seq<char>, p: Seq<char>)
    requires
        forall|i: int| 0 <= i < p.len() ==> !is_digit(#[trigger] p[i]),
    ensures
        digits_of(a + p + b) == digits_of(a + b),
{
    lemma_digits_concat(a + p, b);
    lemma_digits_concat(a, p);
    lemma_digits_concat(a, b);
    lemma_digits_none(p);
    assert(digits_of(a) + Seq::<char>::empty() =~= digits_of(a));
}

} // verus!
