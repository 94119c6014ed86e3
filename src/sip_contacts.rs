//! Entries of a previously generated contact list, kept for merging back.
use vstd::prelude::*;
use crate::number::{digits_of, digits_vec};
use crate::text::{chars_of, lines, lines_of, matches_at, matches_at_exec, slice_of, string_of, views};
use crate::log_store::{find_first, first_index_from};

verus! {

/// An entry's normalized number, raw number and display name.
pub type EntryView = (Seq<char>, Seq<char>, Seq<char>);

/// Index of the last occurrence of `p` in `s` that starts at or before `hi`, or -1.
pub open spec fn last_index_upto(s: Seq<char>, p: Seq<char>, hi: int) -> int
    decreases hi + 1,
{
    if hi < 0 {
        -1
    } else if matches_at(s, p, hi) {
        hi
    } else {
        last_index_upto(s, p, hi - 1)
    }
}

pub open spec fn open_tag() -> Seq<char> {
    seq!['<', 'c', 'o', 'n', 't', 'a', 'c', 't', ' ', 'n', 'a', 'm', 'e', '=', '"']
}

pub open spec fn number_attr() -> Seq<char> {
    seq!['"', ' ', 'n', 'u', 'm', 'b', 'e', 'r', '=', '"']
}

pub open spec fn first_name_attr() -> Seq<char> {
    seq!['"', ' ', 'f', 'i', 'r', 's', 't', 'n', 'a', 'm', 'e', '=']
}

/// The display name and raw number of a contact-list line
/// `<contact name="NAME" number="NUMBER" firstname=...`: the name runs to the
/// last ` number="` that a ` firstname=` follows, the number to the last
/// ` firstname=`.
pub open spec fn parse_entry(l: Seq<char>) -> Option<(Seq<char>, Seq<char>)> {
    let attr_at = last_index_upto(l, first_name_attr(), l.len() - 12);
    let number_at = last_index_upto(l, number_attr(), attr_at - 10);
    let a = first_index_from(l, open_tag(), 0);
    if attr_at >= 0 && number_at >= 0 && a >= 0 && a + 15 <= number_at {
        Some((l.subrange(a + 15, number_at), l.subrange(number_at + 10, attr_at)))
    } else {
        None
    }
}

/// The entries read from the lines `ls[i..]`.
pub open spec fn entries_from(ls: Seq<Seq<char>>, i: int) -> Seq<EntryView>
    decreases ls.len() - i,
{
    if i < 0 || i >= ls.len() {
        Seq::empty()
    } else {
        match parse_entry(ls[i]) {
            Some((name, number)) => seq![(digits_of(number), number, name)] + entries_from(
                ls,
                i + 1,
            ),
            None => entries_from(ls, i + 1),
        }
    }
}

/// The entries of a contact-list text, in line order.
pub open spec fn entries_of(text: Seq<char>) -> Seq<EntryView> {
    entries_from(lines_of(text), 0)
}

/// An entry with every field blank: superseded by the current import.
pub open spec fn blank() -> EntryView {
    (Seq::empty(), Seq::empty(), Seq::empty())
}

/// `es` with every entry whose normalized number is `key` blanked.
pub open spec fn cleared(es: Seq<EntryView>, key: Seq<char>) -> Seq<EntryView> {
    es.map_values(|e: EntryView| if e.0 == key { blank() } else { e })
}

pub open spec fn entry_view(e: (String, String, String)) -> EntryView {
    (e.0@, e.1@, e.2@)
}

/// Existing contacts of a generated contact list.
#[derive(Debug)]
pub struct SipContacts {
    data: Vec<(String, String, String)>,
}

impl View for SipContacts {
    type V = Seq<EntryView>;

    closed spec fn view(&self) -> Seq<EntryView> {
        self.data@.map_values(|e: (String, String, String)| entry_view(e))
    }
}

/// Index of the last occurrence of `p` in `s` at or before `hi`, if any.
fn last_index(s: &Vec<char>, p: &Vec<char>, hi: usize) -> (r: Option<usize>)
    requires
        hi < s.len(),
    ensures
        r matches Some(k) ==> (k as int == last_index_upto(s@, p@, hi as int) && k <= hi
            && matches_at(s@, p@, k as int)),
        r is None ==> last_index_upto(s@, p@, hi as int) == -1,
{
    let mut j: usize = hi + 1;
    while j > 0
        invariant
            j <= hi + 1,
            hi < s.len(),
            last_index_upto(s@, p@, hi as int) == last_index_upto(s@, p@, j - 1),
        decreases j,
    {
        if matches_at_exec(s, p, j - 1) {
            return Some(j - 1);
        }
        j = j - 1;
    }
    None
}

/// The name and number of a contact-list line, if it is a contact element.
fn parse_entry_exec(l: &Vec<char>) -> (r: Option<(Vec<char>, Vec<char>)>)
    ensures
        match r {
            Some((name, number)) => parse_entry(l@) == Some((name@, number@)),
            None => parse_entry(l@) is None,
        },
{
    let open = chars_of("<contact name=\"");
    let num = chars_of("\" number=\"");
    let first = chars_of("\" firstname=");
    proof {
        reveal_strlit("<contact name=\"");
        reveal_strlit("\" number=\"");
        reveal_strlit("\" firstname=");
        assert(open@ =~= open_tag());
        assert(num@ =~= number_attr());
        assert(first@ =~= first_name_attr());
    }
    let n = l.len();
    if n < 12 {
        return None;
    }
    let attr_at = match last_index(l, &first, n - 12) {
        Some(k) => k,
        None => {
            return None;
        },
    };
    if attr_at < 10 {
        return None;
    }
    let number_at = match last_index(l, &num, attr_at - 10) {
        Some(k) => k,
        None => {
            return None;
        },
    };
    let a = match find_first(l, &open) {
        Some(k) => k,
        None => {
            return None;
        },
    };
    if a > number_at || number_at - a < 15 {
        return None;
    }
    assert(matches_at(l@, first_name_attr(), attr_at as int));
    assert(matches_at(l@, number_attr(), number_at as int));
    let name = slice_of(l, a + 15, number_at);
    let number = slice_of(l, number_at + 10, attr_at);
    Some((name, number))
}

impl SipContacts {
    /// No existing contacts: nothing to merge.
    pub fn empty() -> (r: SipContacts)
        ensures
            r@ == Seq::<EntryView>::empty(),
    {
        let r = SipContacts { data: Vec::new() };
        assert(r@ =~= Seq::<EntryView>::empty());
        r
    }

    /// The entries of a generated contact list `text`, one per contact line.
    pub fn new(text: &str) -> (r: SipContacts)
        ensures
            r@ == entries_of(text@),
    {
        let ls = lines(&chars_of(text));
        let ghost all = views(ls@);
        let mut data: Vec<(String, String, String)> = Vec::new();
        let mut i: usize = 0;
        while i < ls.len()
            invariant
                i <= ls.len(),
                all == views(ls@),
                all == lines_of(text@),
                data@.map_values(|e: (String, String, String)| entry_view(e)) + entries_from(
                    all,
                    i as int,
                ) == entries_of(text@),
            decreases ls.len() - i,
        {
            let ghost prev = data@.map_values(|e: (String, String, String)| entry_view(e));
            assert(all[i as int] == ls@[i as int]@);
            match parse_entry_exec(&ls[i]) {
                Some((name, number)) => {
                    let fixed = digits_vec(&number);
                    let e = (string_of(&fixed), string_of(&number), string_of(&name));
                    data.push(e);
                    assert(data@.map_values(|e: (String, String, String)| entry_view(e))
                        =~= prev.push(entry_view(e)));
                    assert(prev + entries_from(all, i as int) =~= data@.map_values(
                        |e: (String, String, String)| entry_view(e),
                    ) + entries_from(all, i + 1));
                },
                None => {},
            }
            i = i + 1;
        }
        let r = SipContacts { data };
        assert(r@ =~= r@ + entries_from(all, i as int));
        r
    }

    /// Every entry, blanked ones included.
    pub fn data(&self) -> (r: &Vec<(String, String, String)>)
        ensures
            r@.map_values(|e: (String, String, String)| entry_view(e)) == self@,
    {
        &self.data
    }

    /// Whether there are no entries at all.
    pub fn is_empty(&self) -> (r: bool)
        ensures
            r == (self@.len() == 0),
    {
        self.data.len() == 0
    }

    /// Blanks every entry whose normalized number is that of `number`.
    pub fn clear_exist(&mut self, number: &str)
        ensures
            final(self)@ == cleared(old(self)@, digits_of(number@)),
    {
        let key = string_of(&digits_vec(&chars_of(number)));
        let ghost before = self@;
        let mut out: Vec<(String, String, String)> = Vec::new();
        let mut i: usize = 0;
        while i < self.data.len()
            invariant
                i <= self.data.len(),
                before == self@,
                key@ == digits_of(number@),
                out@.map_values(|e: (String, String, String)| entry_view(e)) =~= cleared(
                    before,
                    key@,
                ).take(i as int),
            decreases self.data.len() - i,
        {
            let ghost prev = out@.map_values(|e: (String, String, String)| entry_view(e));
            let e = &self.data[i];
            assert(before[i as int] == entry_view(*e));
            let ne = if e.0 == key {
                (String::new(), String::new(), String::new())
            } else {
                (e.0.clone(), e.1.clone(), e.2.clone())
            };
            assert(entry_view(ne) == cleared(before, key@)[i as int]);
            out.push(ne);
            assert(out@.map_values(|e: (String, String, String)| entry_view(e)) =~= prev.push(
                entry_view(ne),
            ));
            assert(cleared(before, key@).take(i + 1) =~= cleared(before, key@).take(i as int).push(
                entry_view(ne),
            ));
            i = i + 1;
        }
        self.data = out;
    }
}

/// Clearing twice with the same number leaves the entries as clearing once.
pub proof fn lemma_clear_idempotent(es: Seq<EntryView>, key: Seq<char>)
    ensures
        cleared(cleared(es, key), key) == cleared(es, key),
{
    assert(cleared(cleared(es, key), key) =~= cleared(es, key));
}

} // verus!
