//! Contact records of a directory export: record splitting, field extraction,
//! telephone lines and display-name formatting.
use vstd::prelude::*;
use kanaria::string::UCSStr;
use kanaria::utils::ConvertTarget;
use crate::log_store::digit_run;
use crate::number::is_digit;
use crate::text::{
    chars_of, lines, lines_of, matches_at, matches_at_exec, push_all, replace_all, replace_spec,
    slice_of, split, split_spec, starts_with, starts_with_exec, string_of, trim, trim_end,
    trim_end_spec, trim_spec, views,
};

verus! {

/// Text with half-width katakana turned into full-width katakana.
pub uninterp spec fn wide_katakana(s: Seq<char>) -> Seq<char>;

/// A half-width katakana letter (U+FF66 to U+FF6F, U+FF71 to U+FF9D): the
/// characters that the width conversion changes.
pub open spec fn is_narrow_katakana(c: char) -> bool {
    (0xFF66 <= c as u32 <= 0xFF6F) || (0xFF71 <= c as u32 <= 0xFF9D)
}

/// A full-width katakana that has a hiragana counterpart 0x60 below it.
pub open spec fn is_convertible_katakana(c: char) -> bool {
    (0x30A1 <= c as u32 <= 0x30F6) || (0x30FD <= c as u32 <= 0x30FF)
}

/// The hiragana of one character: convertible katakana move down by 0x60,
/// every other character stays.
pub open spec fn hira_char(c: char) -> char {
    if is_convertible_katakana(c) {
        ((c as u32) - 0x60) as char
    } else {
        c
    }
}

/// Text with katakana turned into hiragana, character by character.
pub open spec fn hiragana(s: Seq<char>) -> Seq<char> {
    s.map_values(|c: char| hira_char(c))
}

/// Relies on kanaria's `UCSStr::wide(ConvertTarget::KATAKANA)`: half-width
/// katakana become full-width (a following sound mark may be joined in);
/// no other character is altered; the result depends on the text alone.
#[verifier::external_body]
fn to_wide_katakana(s: &str) -> (r: String)
    ensures
        r@ == wide_katakana(s@),
        (forall|i: int| 0 <= i < s@.len() ==> !is_narrow_katakana(#[trigger] s@[i])) ==> r@
            == s@,
{
    UCSStr::from_str(s).wide(ConvertTarget::KATAKANA).to_string()
}

/// Relies on kanaria's `UCSStr::hiragana`: each character is mapped on its
/// own by `KanaUtils::convert_to_hiragana`, full-width katakana U+30A1 to
/// U+30F6 and U+30FD to U+30FF moving down by 0x60.
#[verifier::external_body]
pub(crate) fn to_hiragana(s: &str) -> (r: String)
    ensures
        r@ == hiragana(s@),
{
    UCSStr::from_str(s).hiragana().to_string()
}

pub open spec fn record_end() -> Seq<char> {
    "END:VCARD"@
}

/// The record blocks of an export: the pieces before each terminator.
pub open spec fn blocks_of(text: Seq<char>) -> Seq<Seq<char>> {
    split_spec(text, record_end()).drop_last()
}

/// The value of the first line satisfying `f` among `ls[i..]`.
pub open spec fn first_value(
    ls: Seq<Seq<char>>,
    f: spec_fn(Seq<char>) -> Option<Seq<char>>,
    i: int,
) -> Option<Seq<char>>
    decreases ls.len() - i,
{
    if i < 0 || i >= ls.len() {
        None
    } else if f(ls[i]) is Some {
        f(ls[i])
    } else {
        first_value(ls, f, i + 1)
    }
}

/// A found value without trailing whitespace, or the empty text.
pub open spec fn value_or_empty(o: Option<Seq<char>>) -> Seq<char> {
    match o {
        Some(v) => trim_end_spec(v),
        None => Seq::empty(),
    }
}

/// What follows `p` on a line that begins with it.
pub open spec fn prefix_rule(p: Seq<char>) -> spec_fn(Seq<char>) -> Option<Seq<char>> {
    |l: Seq<char>|
        if starts_with(l, p) {
            Some(l.skip(p.len() as int))
        } else {
            None
        }
}

pub open spec fn org_tag() -> Seq<char> {
    "ORG:"@
}

pub open spec fn item_tag() -> Seq<char> {
    "item"@
}

/// The largest `j` in `4..=hi` such that `ORG:` starts at `j + 1`, or -1.
pub open spec fn org_split(l: Seq<char>, hi: int) -> int
    decreases hi,
{
    if hi < 4 {
        -1
    } else if matches_at(l, org_tag(), hi + 1) {
        hi
    } else {
        org_split(l, hi - 1)
    }
}

/// The organization of a line `ORG:value`, or `itemN?ORG:value` where `N` is
/// a run of digits and `?` one character.
pub open spec fn org_value(l: Seq<char>) -> Option<Seq<char>> {
    if starts_with(l, org_tag()) {
        Some(l.skip(4))
    } else if starts_with(l, item_tag()) && org_split(l, digit_run(l, 4)) >= 4 {
        Some(l.skip(org_split(l, digit_run(l, 4)) + 5))
    } else {
        None
    }
}

pub open spec fn label_tag() -> Seq<char> {
    "X-ABLabel:"@
}

/// The label of a line `<item>?X-ABLabel:value`, `?` being one character.
pub open spec fn label_value(l: Seq<char>, item: Seq<char>) -> Option<Seq<char>> {
    if starts_with(l, item) && matches_at(l, label_tag(), item.len() + 1 as int) {
        Some(l.skip(item.len() + 11 as int))
    } else {
        None
    }
}

/// Line rules that field extraction searches for.
pub enum Rule {
    Prefix(Vec<char>),
    Org,
    Label(Vec<char>),
}

impl Rule {
    pub open spec fn spec_rule(&self) -> spec_fn(Seq<char>) -> Option<Seq<char>> {
        match self {
            Rule::Prefix(p) => prefix_rule(p@),
            Rule::Org => |l: Seq<char>| org_value(l),
            Rule::Label(item) => |l: Seq<char>| label_value(l, item@),
        }
    }
}

/// The value of a field line `p...`: the first such line of the block,
/// without trailing whitespace, or the empty text.
pub open spec fn field_raw(b: Seq<char>, p: Seq<char>) -> Seq<char> {
    value_or_empty(first_value(lines_of(b), prefix_rule(p), 0))
}

/// The organization line's value, or the empty text.
pub open spec fn org_raw(b: Seq<char>) -> Seq<char> {
    value_or_empty(first_value(lines_of(b), |l: Seq<char>| org_value(l), 0))
}

/// The label declared for `item`, or the empty text.
pub open spec fn label_of(b: Seq<char>, item: Seq<char>) -> Seq<char> {
    value_or_empty(first_value(lines_of(b), |l: Seq<char>| label_value(l, item), 0))
}

pub open spec fn is_letter(c: char) -> bool {
    ('a' <= c && c <= 'z') || ('A' <= c && c <= 'Z')
}

/// After the `itemN` qualifiers from `i` on: the last qualifier and the position.
pub open spec fn items_end(l: Seq<char>, i: int, last: Seq<char>) -> (Seq<char>, int)
    decreases l.len() - i,
{
    if 0 <= i && i + 5 <= l.len() && matches_at(l, item_tag(), i) && is_digit(l[i + 4]) {
        items_end(l, i + 5, l.subrange(i, i + 5))
    } else {
        (last, i)
    }
}

/// Position after the dots from `i` on.
pub open spec fn dots_end(l: Seq<char>, i: int) -> int
    decreases l.len() - i,
{
    if 0 <= i < l.len() && l[i] == '.' {
        dots_end(l, i + 1)
    } else {
        i
    }
}

/// Position after the ASCII letters from `i` on.
pub open spec fn letters_end(l: Seq<char>, i: int) -> int
    decreases l.len() - i,
{
    if 0 <= i < l.len() && is_letter(l[i]) {
        letters_end(l, i + 1)
    } else {
        i
    }
}

pub open spec fn type_tag() -> Seq<char> {
    ";TYPE="@
}

pub open spec fn tel_tag() -> Seq<char> {
    "TEL"@
}

/// After the `;TYPE=letters` attributes from `i` on: the last type and the position.
pub open spec fn types_end(l: Seq<char>, i: int, last: Option<Seq<char>>) -> (
    Option<Seq<char>>,
    int,
)
    decreases l.len() - i,
{
    if 0 <= i && matches_at(l, type_tag(), i) && i < letters_end(l, i + 6) <= l.len() {
        types_end(l, letters_end(l, i + 6), Some(l.subrange(i + 6, letters_end(l, i + 6))))
    } else {
        (last, i)
    }
}

/// A telephone line `(itemN)*.*TEL(;TYPE=letters)*:number`: the last item
/// qualifier (or empty), the last type (if any) and the raw number.
pub open spec fn tel_parse(l: Seq<char>) -> Option<(Seq<char>, Option<Seq<char>>, Seq<char>)> {
    let (item, a) = items_end(l, 0, Seq::empty());
    let b = dots_end(l, a);
    if matches_at(l, tel_tag(), b) {
        let (ty, c) = types_end(l, b + 3, None);
        if 0 <= c < l.len() && l[c] == ':' {
            Some((item, ty, l.skip(c + 1)))
        } else {
            None
        }
    } else {
        None
    }
}

/// The type of a telephone: the declared type if not empty, else the label
/// of its item qualifier.
pub open spec fn tel_type(b: Seq<char>, item: Seq<char>, ty: Option<Seq<char>>) -> Seq<char> {
    match ty {
        Some(t) => if t.len() > 0 {
            t
        } else {
            label_of(b, item)
        },
        None => label_of(b, item),
    }
}

/// The telephone (type, number) of a line of block `b`; none where the line
/// is no telephone line or its number is blank.
pub open spec fn tel_of_line(b: Seq<char>, l: Seq<char>) -> Option<(Seq<char>, Seq<char>)> {
    match tel_parse(l) {
        Some((item, ty, raw)) => if trim_end_spec(raw).len() == 0 {
            None
        } else {
            Some((tel_type(b, item, ty), trim_end_spec(raw)))
        },
        None => None,
    }
}

/// The telephones of block `b` from its lines `ls[i..]`, in order.
pub open spec fn tels_from(b: Seq<char>, ls: Seq<Seq<char>>, i: int) -> Seq<(Seq<char>, Seq<char>)>
    decreases ls.len() - i,
{
    if i < 0 || i >= ls.len() {
        Seq::empty()
    } else {
        match tel_of_line(b, ls[i]) {
            Some(t) => seq![t] + tels_from(b, ls, i + 1),
            None => tels_from(b, ls, i + 1),
        }
    }
}

/// The telephones of block `b`, in order.
pub open spec fn tels_of(b: Seq<char>) -> Seq<(Seq<char>, Seq<char>)> {
    tels_from(b, lines_of(b), 0)
}

/// What a contact holds.
pub struct ContactView {
    pub full_name: Seq<char>,
    pub name: Seq<char>,
    pub xfirst_name: Seq<char>,
    pub xlast_name: Seq<char>,
    pub categories: Seq<char>,
    pub organization: Seq<char>,
    pub tels: Seq<(Seq<char>, Seq<char>)>,
}

/// The contact extracted from record block `b`.
pub open spec fn contact_of(b: Seq<char>) -> ContactView {
    ContactView {
        full_name: wide_katakana(field_raw(b, "FN:"@)),
        name: wide_katakana(field_raw(b, "N:"@)),
        xfirst_name: wide_katakana(field_raw(b, "X-PHONETIC-FIRST-NAME:"@)),
        xlast_name: wide_katakana(field_raw(b, "X-PHONETIC-LAST-NAME:"@)),
        categories: wide_katakana(field_raw(b, "CATEGORIES:"@)),
        organization: wide_katakana(org_raw(b)),
        tels: tels_of(b),
    }
}

/// The display name: the full name, or the organization where it is empty.
pub open spec fn display_name(c: ContactView) -> Seq<char> {
    if c.full_name.len() > 0 {
        c.full_name
    } else {
        c.organization
    }
}

/// The first character of the hiragana reading of `s`, or the empty text.
pub open spec fn initial_of(s: Seq<char>) -> Seq<char> {
    if s.len() > 0 {
        seq![hiragana(s)[0]]
    } else {
        Seq::empty()
    }
}

/// The sort initial: from the phonetic last name, else the full name, else
/// the organization.
pub open spec fn last_initial(c: ContactView) -> Seq<char> {
    if c.xlast_name.len() > 0 {
        initial_of(c.xlast_name)
    } else if c.full_name.len() > 0 {
        initial_of(c.full_name)
    } else {
        initial_of(c.organization)
    }
}

/// The first-name initial: from the phonetic first name, else the full name,
/// else the organization.
pub open spec fn first_initial(c: ContactView) -> Seq<char> {
    if c.xfirst_name.len() > 0 {
        initial_of(c.xfirst_name)
    } else if c.full_name.len() > 0 {
        initial_of(c.full_name)
    } else {
        initial_of(c.organization)
    }
}

/// A display name rendered from `pattern`: tokens substituted in turn, then
/// each empty `()` and `[]` removed in one pass, then the ends trimmed.
pub open spec fn format_spec(
    pattern: Seq<char>,
    name: Seq<char>,
    finitial: Seq<char>,
    linitial: Seq<char>,
    teltype: Seq<char>,
    categories: Seq<char>,
) -> Seq<char> {
    let s1 = replace_spec(pattern, "%name%"@, name);
    let s2 = replace_spec(s1, "%teltype%"@, teltype);
    let s3 = replace_spec(s2, "%categories%"@, categories);
    let s4 = replace_spec(s3, "%finitial%"@, finitial);
    let s5 = replace_spec(s4, "%linitial%"@, linitial);
    let s6 = replace_spec(s5, "()"@, Seq::empty());
    let s7 = replace_spec(s6, "[]"@, Seq::empty());
    trim_spec(s7)
}

pub open spec fn xml_template() -> Seq<char> {
    "<contact name=\"%name%\" number=\"%number%\" firstname=\"\" lastname=\"\" phone=\"\" mobile=\"\" email=\"\" address=\"\" city=\"\" state=\"\" zip=\"\" comment=\"\" id=\"\" info=\"\" presence=\"0\" directory=\"0\"/>"@
}

/// The contact-list element for `name` and `number`.
pub open spec fn xml_line_spec(name: Seq<char>, number: Seq<char>) -> Seq<char> {
    replace_spec(replace_spec(xml_template(), "%name%"@, name), "%number%"@, number)
}

/// A telephone number with its type label.
#[derive(Debug)]
pub struct Telephone {
    teltype: String,
    number: String,
}

impl View for Telephone {
    type V = (Seq<char>, Seq<char>);

    closed spec fn view(&self) -> (Seq<char>, Seq<char>) {
        (self.teltype@, self.number@)
    }
}

/// One contact record.
#[derive(Debug)]
pub struct Contact {
    full_name: String,
    name: String,
    xfirst_name: String,
    xlast_name: String,
    categories: String,
    organization: String,
    tel_numbers: Vec<Telephone>,
}

impl View for Contact {
    type V = ContactView;

    closed spec fn view(&self) -> ContactView {
        ContactView {
            full_name: self.full_name@,
            name: self.name@,
            xfirst_name: self.xfirst_name@,
            xlast_name: self.xlast_name@,
            categories: self.categories@,
            organization: self.organization@,
            tels: self.tel_numbers@.map_values(|t: Telephone| t@),
        }
    }
}

/// The text of a directory export.
#[derive(Debug)]
pub struct Vcf {
    data: String,
}

impl View for Vcf {
    type V = Seq<char>;

    closed spec fn view(&self) -> Seq<char> {
        self.data@
    }
}

pub open spec fn opt_view(o: Option<Vec<char>>) -> Option<Seq<char>> {
    match o {
        Some(v) => Some(v@),
        None => None,
    }
}

/// The organization value of a line.
fn org_value_exec(l: &Vec<char>) -> (r: Option<Vec<char>>)
    ensures
        opt_view(r) == org_value(l@),
{
    let org = chars_of("ORG:");
    let item = chars_of("item");
    proof {
        reveal_strlit("ORG:");
        reveal_strlit("item");
    }
    if starts_with_exec(l, &org) {
        let v = slice_of(l, 4, l.len());
        assert(v@ =~= l@.skip(4));
        return Some(v);
    }
    if !starts_with_exec(l, &item) {
        return None;
    }
    let mut k: usize = 4;
    while k < l.len() && '0' <= l[k] && l[k] <= '9'
        invariant
            4 <= k <= l.len(),
            digit_run(l@, 4) == digit_run(l@, k as int),
        decreases l.len() - k,
    {
        k = k + 1;
    }
    assert(digit_run(l@, k as int) == k);
    let mut j: usize = k;
    while j >= 4
        invariant
            j <= k <= l.len(),
            org@ == org_tag(),
            org_tag().len() == 4,
            !starts_with(l@, org_tag()),
            starts_with(l@, item_tag()),
            k as int == digit_run(l@, 4),
            org_split(l@, k as int) == org_split(l@, j as int),
        decreases j,
    {
        if l.len() - j >= 5 && matches_at_exec(l, &org, j + 1) {
            let v = slice_of(l, j + 5, l.len());
            assert(v@ =~= l@.skip(j + 5));
            return Some(v);
        }
        j = j - 1;
    }
    None
}

/// The label value of a line for `item`.
fn label_value_exec(l: &Vec<char>, item: &Vec<char>) -> (r: Option<Vec<char>>)
    ensures
        opt_view(r) == label_value(l@, item@),
{
    let tag = chars_of("X-ABLabel:");
    proof {
        reveal_strlit("X-ABLabel:");
    }
    if item.len() >= l.len() {
        return None;
    }
    if starts_with_exec(l, item) && matches_at_exec(l, &tag, item.len() + 1) {
        let v = slice_of(l, item.len() + 11, l.len());
        assert(v@ =~= l@.skip(item.len() + 11));
        Some(v)
    } else {
        None
    }
}

/// The value that `rule` finds on line `l`.
fn rule_value(rule: &Rule, l: &Vec<char>) -> (r: Option<Vec<char>>)
    ensures
        opt_view(r) == (rule.spec_rule())(l@),
{
    match rule {
        Rule::Prefix(p) => {
            if starts_with_exec(l, p) {
                let v = slice_of(l, p.len(), l.len());
                assert(v@ =~= l@.skip(p.len() as int));
                Some(v)
            } else {
                None
            }
        },
        Rule::Org => org_value_exec(l),
        Rule::Label(item) => label_value_exec(l, item),
    }
}

/// The value of the first of the lines `ls` that `rule` finds one on,
/// without trailing whitespace; empty if none.
fn first_line_value(ls: &Vec<Vec<char>>, rule: &Rule) -> (r: Vec<char>)
    ensures
        r@ == value_or_empty(first_value(views(ls@), rule.spec_rule(), 0)),
{
    let ghost all = views(ls@);
    let mut i: usize = 0;
    while i < ls.len()
        invariant
            i <= ls.len(),
            all == views(ls@),
            first_value(all, rule.spec_rule(), 0) == first_value(all, rule.spec_rule(), i as int),
        decreases ls.len() - i,
    {
        assert(all[i as int] == ls@[i as int]@);
        match rule_value(rule, &ls[i]) {
            Some(v) => {
                return trim_end(&v);
            },
            None => {},
        }
        i = i + 1;
    }
    Vec::new()
}

/// The telephone-line parts of a line: item, type, raw number.
fn tel_parse_exec(l: &Vec<char>) -> (r: Option<(Vec<char>, Option<Vec<char>>, Vec<char>)>)
    ensures
        match r {
            Some((item, ty, raw)) => tel_parse(l@) == Some((item@, opt_view(ty), raw@)),
            None => tel_parse(l@) is None,
        },
{
    let item_t = chars_of("item");
    let tel_t = chars_of("TEL");
    let type_t = chars_of(";TYPE=");
    proof {
        reveal_strlit("item");
        reveal_strlit("TEL");
        reveal_strlit(";TYPE=");
    }
    let mut last: Vec<char> = Vec::new();
    let mut i: usize = 0;
    while i < l.len() && l.len() - i >= 5 && matches_at_exec(l, &item_t, i) && '0' <= l[i + 4]
        && l[i + 4] <= '9'
        invariant
            i <= l.len(),
            item_t@ == item_tag(),
            item_tag().len() == 4,
            items_end(l@, 0, Seq::empty()) == items_end(l@, i as int, last@),
        decreases l.len() - i,
    {
        assert(items_end(l@, i as int, last@) == items_end(l@, i + 5, l@.subrange(i as int, i + 5)));
        last = slice_of(l, i, i + 5);
        i = i + 5;
    }
    assert(items_end(l@, i as int, last@) == (last@, i as int));
    while i < l.len() && l[i] == '.'
        invariant
            i <= l.len(),
            dots_end(l@, items_end(l@, 0, Seq::empty()).1) == dots_end(l@, i as int),
        decreases l.len() - i,
    {
        i = i + 1;
    }
    if !matches_at_exec(l, &tel_t, i) {
        return None;
    }
    let b = i;
    i = i + 3;
    let mut ty: Option<Vec<char>> = None;
    while matches_at_exec(l, &type_t, i)
        invariant
            b + 3 <= i <= l.len(),
            type_t@ == type_tag(),
            type_tag().len() == 6,
            types_end(l@, b + 3, None) == types_end(l@, i as int, opt_view(ty)),
        decreases l.len() - i,
    {
        let s = i + 6;
        let mut e = s;
        while e < l.len() && (('a' <= l[e] && l[e] <= 'z') || ('A' <= l[e] && l[e] <= 'Z'))
            invariant
                s <= e <= l.len(),
                letters_end(l@, s as int) == letters_end(l@, e as int),
            decreases l.len() - e,
        {
            e = e + 1;
        }
        assert(letters_end(l@, e as int) == e);
        assert(types_end(l@, i as int, opt_view(ty)) == types_end(l@, e as int, Some(l@.subrange(s as int, e as int))));
        ty = Some(slice_of(l, s, e));
        i = e;
    }
    if i < l.len() && l[i] == ':' {
        let raw = slice_of(l, i + 1, l.len());
        assert(raw@ =~= l@.skip(i + 1));
        Some((last, ty, raw))
    } else {
        None
    }
}

/// The telephones of a block, given its characters and lines.
fn cap_tel_numbers(b: &Vec<char>, ls: &Vec<Vec<char>>) -> (r: Vec<Telephone>)
    requires
        views(ls@) == lines_of(b@),
    ensures
        r@.map_values(|t: Telephone| t@) == tels_of(b@),
{
    let mut out: Vec<Telephone> = Vec::new();
    let ghost all = views(ls@);
    let mut i: usize = 0;
    while i < ls.len()
        invariant
            i <= ls.len(),
            all == views(ls@),
            all == lines_of(b@),
            out@.map_values(|t: Telephone| t@) + tels_from(b@, all, i as int) == tels_of(b@),
        decreases ls.len() - i,
    {
        let ghost prev = out@.map_values(|t: Telephone| t@);
        assert(all[i as int] == ls@[i as int]@);
        match tel_parse_exec(&ls[i]) {
            Some((item, ty, raw)) => {
                let number = trim_end(&raw);
                if number.len() > 0 {
                    let t = match ty {
                        Some(t) => if t.len() > 0 {
                            t
                        } else {
                            first_line_value(ls, &Rule::Label(item))
                        },
                        None => first_line_value(ls, &Rule::Label(item)),
                    };
                    let tel = Telephone { teltype: string_of(&t), number: string_of(&number) };
                    out.push(tel);
                    assert(out@.map_values(|t: Telephone| t@) =~= prev.push(tel@));
                    assert(prev + tels_from(b@, all, i as int) =~= out@.map_values(
                        |t: Telephone| t@,
                    ) + tels_from(b@, all, i + 1));
                }
            },
            None => {},
        }
        i = i + 1;
    }
    assert(out@.map_values(|t: Telephone| t@) + tels_from(b@, all, i as int) =~= out@.map_values(
        |t: Telephone| t@,
    ));
    out
}

/// A field value with half-width katakana made full-width.
fn wide_field(v: &Vec<char>) -> (r: String)
    ensures
        r@ == wide_katakana(v@),
{
    to_wide_katakana(string_of(v).as_str())
}

/// The first character of a reading, or the empty text.
pub fn initial_of_reading(reading: &str) -> (r: String)
    ensures
        r@ == (if reading@.len() > 0 {
            seq![reading@[0]]
        } else {
            Seq::<char>::empty()
        }),
{
    let h = chars_of(reading);
    let mut v: Vec<char> = Vec::new();
    if h.len() > 0 {
        v.push(h[0]);
    }
    assert(v@ =~= (if reading@.len() > 0 {
        seq![reading@[0]]
    } else {
        Seq::<char>::empty()
    }));
    string_of(&v)
}

/// The sort initial of `s`: the first character of its hiragana reading.
fn initial(s: &String) -> (r: String)
    ensures
        r@ == initial_of(s@),
{
    initial_of_reading(to_hiragana(s.as_str()).as_str())
}

impl Vcf {
    /// An export held as text.
    pub fn new(text: &str) -> (r: Vcf)
        ensures
            r@ == text@,
    {
        Vcf { data: string_of(&chars_of(text)) }
    }

    /// The record blocks: the text split at each terminator, without the
    /// piece after the last one.
    pub fn get_vcards(&self) -> (r: Vec<String>)
        ensures
            r@.map_values(|s: String| s@) == blocks_of(self@),
    {
        let sep = chars_of("END:VCARD");
        proof {
            reveal_strlit("END:VCARD");
        }
        let cs = chars_of(self.data.as_str());
        let mut pieces = split(&cs, &sep);
        let ghost all = views(pieces@);
        proof {
            crate::text::lemma_split_nonempty(cs@, sep@, 0, 0);
        }
        pieces.pop();
        let mut out: Vec<String> = Vec::new();
        let mut i: usize = 0;
        while i < pieces.len()
            invariant
                i <= pieces.len(),
                pieces@.len() + 1 == all.len(),
                forall|k: int| 0 <= k < pieces@.len() ==> #[trigger] pieces@[k]@ == all[k],
                out@.map_values(|s: String| s@) =~= all.drop_last().take(i as int),
            decreases pieces.len() - i,
        {
            let ghost prev = out@.map_values(|s: String| s@);
            let s = string_of(&pieces[i]);
            out.push(s);
            assert(out@.map_values(|s: String| s@) =~= prev.push(s@));
            assert(all.drop_last().take(i + 1) =~= all.drop_last().take(i as int).push(all[i as int]));
            i = i + 1;
        }
        assert(all.drop_last().take(i as int) =~= all.drop_last());
        out
    }
}

impl Contact {
    /// The contact that record block `vcard` describes.
    pub fn new(vcard: &str) -> (r: Contact)
        ensures
            r@ == contact_of(vcard@),
    {
        let b = chars_of(vcard);
        let ls = lines(&b);
        let fnp = chars_of("FN:");
        let np = chars_of("N:");
        let xf = chars_of("X-PHONETIC-FIRST-NAME:");
        let xl = chars_of("X-PHONETIC-LAST-NAME:");
        let cat = chars_of("CATEGORIES:");
        let tels = cap_tel_numbers(&b, &ls);
        let r = Contact {
            full_name: wide_field(&first_line_value(&ls, &Rule::Prefix(fnp))),
            name: wide_field(&first_line_value(&ls, &Rule::Prefix(np))),
            xfirst_name: wide_field(&first_line_value(&ls, &Rule::Prefix(xf))),
            xlast_name: wide_field(&first_line_value(&ls, &Rule::Prefix(xl))),
            categories: wide_field(&first_line_value(&ls, &Rule::Prefix(cat))),
            organization: wide_field(&first_line_value(&ls, &Rule::Org)),
            tel_numbers: tels,
        };
        assert(r@ == contact_of(vcard@));
        r
    }

    /// Whether the contact has no telephone number.
    pub fn is_empty(&self) -> (r: bool)
        ensures
            r == (self@.tels.len() == 0),
    {
        self.tel_numbers.len() == 0
    }

    /// The full name, or the organization where there is no full name.
    pub fn full_name(&self) -> (r: &str)
        ensures
            r@ == display_name(self@),
    {
        if !self.full_name.as_str().is_empty() {
            self.full_name.as_str()
        } else {
            self.organization.as_str()
        }
    }

    /// The phonetic reading in hiragana: last name, a space, first name.
    pub fn kana_reading(&self) -> (r: String)
        ensures
            r@ == hiragana(self@.xlast_name) + seq![' '] + hiragana(self@.xfirst_name),
    {
        let mut v = chars_of(to_hiragana(self.xlast_name.as_str()).as_str());
        v.push(' ');
        push_all(&mut v, &chars_of(to_hiragana(self.xfirst_name.as_str()).as_str()));
        string_of(&v)
    }

    /// The categories.
    pub fn categories(&self) -> (r: &str)
        ensures
            r@ == self@.categories,
    {
        self.categories.as_str()
    }

    /// The sort initial, one hiragana character (empty if there is no name).
    pub fn name_index(&self) -> (r: String)
        ensures
            r@ == last_initial(self@),
    {
        if !self.xlast_name.as_str().is_empty() {
            initial(&self.xlast_name)
        } else if !self.full_name.as_str().is_empty() {
            initial(&self.full_name)
        } else {
            initial(&self.organization)
        }
    }

    /// The first-name initial, one hiragana character (empty if there is no name).
    pub fn first_name_index(&self) -> (r: String)
        ensures
            r@ == first_initial(self@),
    {
        if !self.xfirst_name.as_str().is_empty() {
            initial(&self.xfirst_name)
        } else if !self.full_name.as_str().is_empty() {
            initial(&self.full_name)
        } else {
            initial(&self.organization)
        }
    }

    /// The telephones, in record order.
    pub fn tel_iter(&self) -> (r: &Vec<Telephone>)
        ensures
            r@.map_values(|t: Telephone| t@) == self@.tels,
    {
        &self.tel_numbers
    }

    /// The contact-list element for `name` and `number`.
    pub fn xml_line(name: &str, number: &str) -> (r: String)
        ensures
            r@ == xml_line_spec(name@, number@),
    {
        let t = chars_of(
            "<contact name=\"%name%\" number=\"%number%\" firstname=\"\" lastname=\"\" phone=\"\" mobile=\"\" email=\"\" address=\"\" city=\"\" state=\"\" zip=\"\" comment=\"\" id=\"\" info=\"\" presence=\"0\" directory=\"0\"/>",
        );
        let pn = chars_of("%name%");
        let pnum = chars_of("%number%");
        proof {
            reveal_strlit("%name%");
            reveal_strlit("%number%");
        }
        let s1 = replace_all(&t, &pn, &chars_of(name));
        let s2 = replace_all(&s1, &pnum, &chars_of(number));
        string_of(&s2)
    }

    /// The display name that `name_pattern` renders for this contact and a
    /// telephone of type `teltype`.
    pub fn fmt_name(&self, name_pattern: &str, finitial: &str, linitial: &str, teltype: &str) -> (r:
        String)
        ensures
            r@ == format_spec(
                name_pattern@,
                display_name(self@),
                finitial@,
                linitial@,
                teltype@,
                self@.categories,
            ),
    {
        let p_name = chars_of("%name%");
        let p_type = chars_of("%teltype%");
        let p_cat = chars_of("%categories%");
        let p_fi = chars_of("%finitial%");
        let p_li = chars_of("%linitial%");
        let paren = chars_of("()");
        let bracket = chars_of("[]");
        proof {
            reveal_strlit("%name%");
            reveal_strlit("%teltype%");
            reveal_strlit("%categories%");
            reveal_strlit("%finitial%");
            reveal_strlit("%linitial%");
            reveal_strlit("()");
            reveal_strlit("[]");
        }
        let empty: Vec<char> = Vec::new();
        let s1 = replace_all(&chars_of(name_pattern), &p_name, &chars_of(self.full_name()));
        let s2 = replace_all(&s1, &p_type, &chars_of(teltype));
        let s3 = replace_all(&s2, &p_cat, &chars_of(self.categories.as_str()));
        let s4 = replace_all(&s3, &p_fi, &chars_of(finitial));
        let s5 = replace_all(&s4, &p_li, &chars_of(linitial));
        let s6 = replace_all(&s5, &paren, &empty);
        let s7 = replace_all(&s6, &bracket, &empty);
        assert(empty@ =~= Seq::<char>::empty());
        string_of(&trim(&s7))
    }
}

impl Telephone {
    /// The type label.
    pub fn teltype(&self) -> (r: &str)
        ensures
            r@ == self@.0,
    {
        self.teltype.as_str()
    }

    /// The raw number, as written in the record.
    pub fn number(&self) -> (r: &str)
        ensures
            r@ == self@.1,
    {
        self.number.as_str()
    }
}

/// A record block without any telephone line yields a contact with no
/// telephone, whatever its other fields hold.
pub proof fn lemma_no_tel_line_is_empty(b: Seq<char>)
    requires
        forall|i: int| 0 <= i < lines_of(b).len() ==> tel_parse(#[trigger] lines_of(b)[i]) is None,
    ensures
        contact_of(b).tels.len() == 0,
{
    lemma_tels_from_none(b, lines_of(b), 0);
}

proof fn lemma_tels_from_none(b: Seq<char>, ls: Seq<Seq<char>>, i: int)
    requires
        0 <= i,
        forall|k: int| 0 <= k < ls.len() ==> tel_parse(#[trigger] ls[k]) is None,
    ensures
        tels_from(b, ls, i).len() == 0,
    decreases ls.len() - i,
{
    if i < ls.len() {
        assert(tel_parse(ls[i]) is None);
        lemma_tels_from_none(b, ls, i + 1);
    }
}

} // verus!
