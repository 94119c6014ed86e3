//! Names of the staging file and of numbered backups.
use vstd::prelude::*;
use crate::text::{chars_of, matches_at, matches_at_exec, push_all, starts_with, starts_with_exec, string_of};

verus! {

/// The staging file name: `filename` followed by `.tmp`.
pub fn make_tmp_filename(filename: &str) -> (r: String)
    ensures
        r@ == filename@ + ".tmp"@,
{
    let mut v = chars_of(filename);
    push_all(&mut v, &chars_of(".tmp"));
    string_of(&v)
}

pub open spec fn bup_tag() -> Seq<char> {
    ".bup"@
}

pub open spec fn digit_value(c: char) -> int {
    c as int - '0' as int
}

pub open spec fn is_ascii_digit(c: char) -> bool {
    '0' <= c && c <= '9'
}

/// The backup number of sibling name `s` for `target`: `s` is exactly
/// `target`, `.bup` and four decimal digits, and the number is those digits.
/// -1 where `s` is no such name.
pub open spec fn bup_number(target: Seq<char>, s: Seq<char>) -> int {
    let t = target.len() as int;
    if s.len() == t + 8 && starts_with(s, target) && matches_at(s, bup_tag(), t)
        && is_ascii_digit(s[t + 4]) && is_ascii_digit(s[t + 5]) && is_ascii_digit(s[t + 6])
        && is_ascii_digit(s[t + 7]) {
        1000 * digit_value(s[t + 4]) + 100 * digit_value(s[t + 5]) + 10 * digit_value(s[t + 6])
            + digit_value(s[t + 7])
    } else {
        -1
    }
}

/// The highest backup number among `sibs[i..]`, at least `acc`.
pub open spec fn max_bup(target: Seq<char>, sibs: Seq<Seq<char>>, i: int, acc: int) -> int
    decreases sibs.len() - i,
{
    if i < 0 || i >= sibs.len() {
        acc
    } else {
        let n = bup_number(target, sibs[i]);
        max_bup(target, sibs, i + 1, if n > acc { n } else { acc })
    }
}

pub open spec fn digit_char(d: int) -> char {
    ('0' as int + d) as char
}

/// `n` in decimal with at least four digits, for `0 <= n <= 10000`.
pub open spec fn number_text(n: int) -> Seq<char> {
    if n >= 10000 {
        seq!['1', '0', '0', '0', '0']
    } else {
        seq![
            digit_char(n / 1000),
            digit_char((n / 100) % 10),
            digit_char((n / 10) % 10),
            digit_char(n % 10),
        ]
    }
}

/// The next backup name: `.bup` and one more than the highest number found.
pub open spec fn next_bup_name(target: Seq<char>, sibs: Seq<Seq<char>>) -> Seq<char> {
    target + ".bup"@ + number_text(max_bup(target, sibs, 0, 0) + 1)
}

proof fn lemma_max_bup_bounds(target: Seq<char>, sibs: Seq<Seq<char>>, i: int, acc: int)
    requires
        0 <= acc <= 9999,
    ensures
        acc <= max_bup(target, sibs, i, acc) <= 9999,
    decreases sibs.len() - i,
{
    if 0 <= i < sibs.len() {
        let n = bup_number(target, sibs[i]);
        lemma_max_bup_bounds(target, sibs, i + 1, if n > acc { n } else { acc });
    }
}

/// The backup number of a sibling name.
fn bup_number_exec(target: &Vec<char>, s: &Vec<char>) -> (r: i64)
    ensures
        r == bup_number(target@, s@),
        r <= 9999,
{
    let tag = chars_of(".bup");
    proof {
        reveal_strlit(".bup");
    }
    let t = target.len();
    if s.len() < t || s.len() - t != 8 || !starts_with_exec(s, target) || !matches_at_exec(
        s,
        &tag,
        t,
    ) {
        return -1;
    }
    let (c0, c1, c2, c3) = (s[t + 4], s[t + 5], s[t + 6], s[t + 7]);
    if !('0' <= c0 && c0 <= '9' && '0' <= c1 && c1 <= '9' && '0' <= c2 && c2 <= '9' && '0' <= c3
        && c3 <= '9') {
        return -1;
    }
    let d0 = (c0 as u32 - '0' as u32) as i64;
    let d1 = (c1 as u32 - '0' as u32) as i64;
    let d2 = (c2 as u32 - '0' as u32) as i64;
    let d3 = (c3 as u32 - '0' as u32) as i64;
    1000 * d0 + 100 * d1 + 10 * d2 + d3
}

/// The name for a new backup of `filename`, given the names of the files
/// beside it: `filename.bupNNNN`, one above the highest number in use.
pub fn get_new_bup_filename(filename: &str, siblings: &Vec<String>) -> (r: String)
    ensures
        r@ == next_bup_name(filename@, siblings@.map_values(|s: String| s@)),
{
    let target = chars_of(filename);
    let ghost sibs = siblings@.map_values(|s: String| s@);
    let mut last: i64 = 0;
    let mut i: usize = 0;
    while i < siblings.len()
        invariant
            i <= siblings.len(),
            target@ == filename@,
            sibs == siblings@.map_values(|s: String| s@),
            0 <= last <= 9999,
            max_bup(filename@, sibs, 0, 0) == max_bup(filename@, sibs, i as int, last as int),
        decreases siblings.len() - i,
    {
        proof {
            lemma_max_bup_bounds(filename@, sibs, i as int, last as int);
            lemma_max_bup_bounds(filename@, sibs, i + 1, last as int);
        }
        let n = bup_number_exec(&target, &chars_of(siblings[i].as_str()));
        assert(sibs[i as int] == siblings@[i as int]@);
        if n > last {
            proof {
                lemma_max_bup_bounds(filename@, sibs, i + 1, n as int);
            }
            last = n;
        }
        i = i + 1;
    }
    let next = last + 1;
    let mut v = target;
    push_all(&mut v, &chars_of(".bup"));
    let mut num: Vec<char> = Vec::new();
    if next >= 10000 {
        num.push('1');
        num.push('0');
        num.push('0');
        num.push('0');
        num.push('0');
    } else {
        num.push(digit_exec(next / 1000));
        num.push(digit_exec((next / 100) % 10));
        num.push(digit_exec((next / 10) % 10));
        num.push(digit_exec(next % 10));
    }
    assert(num@ =~= number_text(next as int));
    push_all(&mut v, &num);
    string_of(&v)
}

fn digit_exec(d: i64) -> (c: char)
    requires
        0 <= d <= 9,
    ensures
        c == digit_char(d as int),
{
    let cs = chars_of("0123456789");
    proof {
        reveal_strlit("0123456789");
    }
    cs[d as usize]
}

} // verus!
