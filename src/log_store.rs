//! The call-history store: UTF-16 text whose record lines are patched in place.
use vstd::prelude::*;
use crate::number::{digits_of, digits_vec, is_digit};
use crate::text::{
    chars_of, lines, lines_of, matches_at, matches_at_exec, push_all, replace_all, replace_spec,
    slice_of, split, split_spec, string_of, trim_end, trim_end_spec, views,
};
use crate::utf16::{
    bytes_from_units, bytes_of_units, decode, decode_utf16, encode, encode_utf16, units_from_bytes,
    units_of_bytes,
};

verus! {

/// Number of leading decimal digits of `l`, from index `i` on.
pub open spec fn digit_run(l: Seq<char>, i: int) -> int
    decreases l.len() - i,
{
    if 0 <= i < l.len() && is_digit(l[i]) {
        digit_run(l, i + 1)
    } else {
        i
    }
}

/// `l` is a record line keyed by the normalized number `key`: a decimal
/// index, `=`, the number, and a `;` that opens the remaining fields.
pub open spec fn has_key(l: Seq<char>, key: Seq<char>) -> bool {
    let k = digit_run(l, 0);
    k >= 1 && matches_at(l, seq!['='] + key + seq![';'], k)
}

/// The record lines among `ls[i..]` keyed by `key`, trailing whitespace removed.
pub open spec fn key_lines_from(ls: Seq<Seq<char>>, key: Seq<char>, i: int) -> Seq<Seq<char>>
    decreases ls.len() - i,
{
    if i < 0 || i >= ls.len() {
        Seq::empty()
    } else if has_key(ls[i], key) {
        seq![trim_end_spec(ls[i])] + key_lines_from(ls, key, i + 1)
    } else {
        key_lines_from(ls, key, i + 1)
    }
}

/// The record lines of `text` keyed by the normalized form of `number`.
pub open spec fn key_lines(text: Seq<char>, number: Seq<char>) -> Seq<Seq<char>> {
    key_lines_from(lines_of(text), digits_of(number), 0)
}

/// The first record line of `text` for `number`, or the empty text if none.
pub open spec fn first_key_line(text: Seq<char>, number: Seq<char>) -> Seq<char> {
    let ks = key_lines(text, number);
    if ks.len() > 0 {
        ks[0]
    } else {
        Seq::empty()
    }
}

/// The line of six `;`-separated fields `f` with field 1 set to `name`
/// stripped of separators; the empty text where `old` has another field count.
pub open spec fn rewrite_spec(old: Seq<char>, name: Seq<char>) -> Seq<char> {
    let f = split_spec(old, seq![';']);
    if f.len() != 6 {
        Seq::empty()
    } else {
        let sc = seq![';'];
        f[0] + sc + replace_spec(name, sc, Seq::empty()) + sc + f[2] + sc + f[3] + sc + f[4] + sc
            + f[5]
    }
}

/// Index of the first occurrence of `p` in `s` at or after `i`, or -1.
pub open spec fn first_index_from(s: Seq<char>, p: Seq<char>, i: int) -> int
    decreases s.len() + 1 - i,
{
    if i < 0 || i + p.len() > s.len() {
        -1
    } else if matches_at(s, p, i) {
        i
    } else {
        first_index_from(s, p, i + 1)
    }
}

/// `s` with the first occurrence of `p` replaced by `r`; `s` if there is none.
pub open spec fn replace_first_spec(s: Seq<char>, p: Seq<char>, r: Seq<char>) -> Seq<char> {
    let k = first_index_from(s, p, 0);
    if k < 0 {
        s
    } else {
        s.take(k) + r + s.skip(k + p.len())
    }
}

/// The text of a call-history store, held in memory while it is patched.
#[derive(Debug)]
pub struct IniIo {
    data: Vec<char>,
}

impl View for IniIo {
    type V = Seq<char>;

    closed spec fn view(&self) -> Seq<char> {
        self.data@
    }
}

/// Whether `l` is keyed by `key`.
fn has_key_exec(l: &Vec<char>, key: &Vec<char>) -> (r: bool)
    ensures
        r == has_key(l@, key@),
{
    let mut k: usize = 0;
    while k < l.len() && '0' <= l[k] && l[k] <= '9'
        invariant
            k <= l.len(),
            digit_run(l@, 0) == digit_run(l@, k as int),
        decreases l.len() - k,
    {
        k = k + 1;
    }
    if k == 0 {
        return false;
    }
    let mut pat: Vec<char> = Vec::new();
    pat.push('=');
    push_all(&mut pat, key);
    pat.push(';');
    assert(pat@ =~= seq!['='] + key@ + seq![';']);
    matches_at_exec(l, &pat, k)
}

/// Index of the first occurrence of `p` in `s`, if any.
pub(crate) fn find_first(s: &Vec<char>, p: &Vec<char>) -> (r: Option<usize>)
    ensures
        r matches Some(k) ==> (k as int == first_index_from(s@, p@, 0) && k + p@.len() <= s@.len()),
        r is None ==> first_index_from(s@, p@, 0) == -1,
{
    if p.len() > s.len() {
        return None;
    }
    let mut i: usize = 0;
    while i <= s.len() - p.len()
        invariant
            p.len() <= s.len(),
            i <= s.len() - p.len() + 1,
            first_index_from(s@, p@, 0) == first_index_from(s@, p@, i as int),
        decreases s.len() - p.len() + 1 - i,
    {
        if matches_at_exec(s, p, i) {
            return Some(i);
        }
        if i == s.len() - p.len() {
            assert(first_index_from(s@, p@, i + 1) == -1);
            return None;
        }
        i = i + 1;
    }
    None
}

impl IniIo {
    /// The store's text, decoded from its bytes (UTF-16, little-endian).
    pub fn new(bytes: &Vec<u8>) -> (r: IniIo)
        ensures
            r@ == decode_utf16(units_of_bytes(bytes@)),
    {
        let units = units_from_bytes(bytes);
        IniIo { data: decode(&units) }
    }

    /// The text held.
    pub fn data(&self) -> (r: String)
        ensures
            r@ == self@,
    {
        string_of(&self.data)
    }

    /// The first record line for `number` (compared in normalized form),
    /// without trailing whitespace; empty if there is none.
    pub fn get_match_number_line(&self, number: &str) -> (r: String)
        ensures
            r@ == first_key_line(self@, number@),
    {
        let all = self.get_match_number_lines(number);
        if all.len() > 0 {
            all[0].clone()
        } else {
            String::new()
        }
    }

    /// Every record line for `number` (compared in normalized form), in
    /// order, each without trailing whitespace.
    pub fn get_match_number_lines(&self, number: &str) -> (r: Vec<String>)
        ensures
            r@.map_values(|s: String| s@) == key_lines(self@, number@),
    {
        let key = digits_vec(&chars_of(number));
        let ls = lines(&self.data);
        let mut out: Vec<String> = Vec::new();
        let mut i: usize = 0;
        let ghost all = views(ls@);
        while i < ls.len()
            invariant
                i <= ls.len(),
                all == views(ls@),
                all == lines_of(self@),
                key@ == digits_of(number@),
                out@.map_values(|s: String| s@) + key_lines_from(all, key@, i as int) == key_lines(
                    self@,
                    number@,
                ),
            decreases ls.len() - i,
        {
            let ghost prev = out@.map_values(|s: String| s@);
            assert(all[i as int] == ls@[i as int]@);
            if has_key_exec(&ls[i], &key) {
                let t = string_of(&trim_end(&ls[i]));
                out.push(t);
                assert(out@.map_values(|s: String| s@) =~= prev.push(t@));
                assert(prev + key_lines_from(all, key@, i as int) =~= out@.map_values(
                    |s: String| s@,
                ) + key_lines_from(all, key@, i + 1));
            }
            i = i + 1;
        }
        assert(out@.map_values(|s: String| s@) + key_lines_from(all, key@, i as int)
            =~= out@.map_values(|s: String| s@));
        out
    }

    /// `old_line` with its display-name field (field 1) set to `new_name`,
    /// which loses any `;`; the empty string unless `old_line` has exactly six
    /// `;`-separated fields.
    pub fn make_new_number_line(old_line: &str, new_name: &str) -> (r: String)
        ensures
            r@ == rewrite_spec(old_line@, new_name@),
    {
        let mut sc: Vec<char> = Vec::new();
        sc.push(';');
        assert(sc@ =~= seq![';']);
        let f = split(&chars_of(old_line), &sc);
        if f.len() != 6 {
            return String::new();
        }
        let name = replace_all(&chars_of(new_name), &sc, &Vec::new());
        let mut out: Vec<char> = Vec::new();
        push_all(&mut out, &f[0]);
        out.push(';');
        push_all(&mut out, &name);
        out.push(';');
        push_all(&mut out, &f[2]);
        out.push(';');
        push_all(&mut out, &f[3]);
        out.push(';');
        push_all(&mut out, &f[4]);
        out.push(';');
        push_all(&mut out, &f[5]);
        proof {
            let v = views(f@);
            assert(v[0] == f@[0]@ && v[2] == f@[2]@ && v[3] == f@[3]@ && v[4] == f@[4]@ && v[5]
                == f@[5]@);
            assert(out@ =~= rewrite_spec(old_line@, new_name@));
        }
        string_of(&out)
    }

    /// Replaces the first occurrence of `old_line` in the text by `new_line`.
    pub fn replace(&mut self, old_line: &str, new_line: &str)
        ensures
            final(self)@ == replace_first_spec(old(self)@, old_line@, new_line@),
    {
        let p = chars_of(old_line);
        match find_first(&self.data, &p) {
            None => {},
            Some(k) => {
                let n = self.data.len();
                assert(k + p@.len() <= n);
                let e = k + p.len();
                let mut out = slice_of(&self.data, 0, k);
                push_all(&mut out, &chars_of(new_line));
                let rest = slice_of(&self.data, e, self.data.len());
                push_all(&mut out, &rest);
                assert(self.data@.skip(e as int) =~= rest@);
                self.data = out;
            },
        }
    }

    /// The code units that encode the text.
    pub fn to_units(&self) -> (r: Vec<u16>)
        ensures
            r@ == encode_utf16(self@),
    {
        encode(&self.data)
    }

    /// The bytes of the store to save: the text in UTF-16, little-endian.
    pub fn to_bytes(&self) -> (r: Vec<u8>)
        ensures
            r@ == bytes_of_units(encode_utf16(self@)),
    {
        bytes_from_units(&self.to_units())
    }
}

} // verus!
