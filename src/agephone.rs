//! The contact list as Shift_JIS comma-separated lines for the AGEphone
//! softphone.
use vstd::prelude::*;
use crate::args::Args;
use crate::convert::{
    contact_count, contact_name, crlf, escape_xml, sat_add, sat_add_exec, tel_count, Pass, ProcCounter,
};
use crate::text::{chars_of, push_all, replace_all, same_chars, split, split_spec, string_of};
use crate::vcard::{
    blocks_of, contact_of, first_initial, hiragana, last_initial, Contact, ContactView, Telephone,
    Vcf,
};

verus! {

/// The Shift_JIS bytes of a text.
pub uninterp spec fn shift_jis(s: Seq<char>) -> Seq<u8>;

/// The longest line, in characters, that is encoded: far above any real
/// line, and low enough that the encoder's buffer size (the UTF-8 length plus
/// a few bytes, grown to powers of two) stays within `usize`.
pub const MAX_CSV_LINE: usize = usize::MAX / 64;

/// Relies on encoding_rs's `SHIFT_JIS.encode`: the Shift_JIS bytes of the
/// text, unmappable characters written as numeric character references; the
/// result depends on the text alone. It panics only where its buffer size
/// overflows `usize`, which the length bound keeps out.
#[verifier::external_body]
fn encode_shift_jis(s: &str) -> (r: Vec<u8>)
    requires
        s@.len() <= MAX_CSV_LINE,
    ensures
        r@ == shift_jis(s@),
{
    let (bytes, _, _) = encoding_rs::SHIFT_JIS.encode(s);
    bytes.into_owned()
}

/// The AGEphone kind of a telephone type: 3 for a mobile, 4 for work, else 2.
pub open spec fn type_code(ty: Seq<char>) -> Seq<char> {
    if ty == "CELL"@ || ty == "携帯"@ {
        seq!['3']
    } else if ty == "WORK"@ {
        seq!['4']
    } else {
        seq!['2']
    }
}

/// The first of the comma-separated categories.
pub open spec fn first_category(cats: Seq<char>) -> Seq<char> {
    split_spec(cats, seq![','])[0]
}

/// The line of contact `c` for telephone `number` of type `ty`: name,
/// number, first category, reading, kind.
pub open spec fn csv_line(c: ContactView, pattern: Seq<char>, ty: Seq<char>, number: Seq<char>) -> Seq<
    char,
> {
    escape_xml(contact_name(c, pattern, ty)) + seq![','] + number + seq![','] + first_category(
        c.categories,
    ) + seq![','] + hiragana(c.xlast_name) + seq![' '] + hiragana(c.xfirst_name) + seq![',']
        + type_code(ty) + crlf()
}

/// The bytes of the lines of `c.tels[k..]`; an over-long line is left out.
pub open spec fn csv_tels(c: ContactView, pattern: Seq<char>, k: int) -> Seq<u8>
    decreases c.tels.len() - k,
{
    if k < 0 || k >= c.tels.len() {
        Seq::empty()
    } else if csv_line(c, pattern, c.tels[k].0, c.tels[k].1).len() <= MAX_CSV_LINE {
        shift_jis(csv_line(c, pattern, c.tels[k].0, c.tels[k].1)) + csv_tels(c, pattern, k + 1)
    } else {
        csv_tels(c, pattern, k + 1)
    }
}

/// The bytes of the lines of the contacts of `blocks[i..]`.
pub open spec fn csv_blocks(blocks: Seq<Seq<char>>, pattern: Seq<char>, i: int) -> Seq<u8>
    decreases blocks.len() - i,
{
    if i < 0 || i >= blocks.len() {
        Seq::empty()
    } else {
        csv_tels(contact_of(blocks[i]), pattern, 0) + csv_blocks(blocks, pattern, i + 1)
    }
}

/// `acc` plus the count of lines of `c.tels[k..]` that are written.
pub open spec fn csv_tel_count(c: ContactView, pattern: Seq<char>, k: int, acc: int) -> int
    decreases c.tels.len() - k,
{
    if k < 0 || k >= c.tels.len() {
        acc
    } else {
        csv_tel_count(
            c,
            pattern,
            k + 1,
            if csv_line(c, pattern, c.tels[k].0, c.tels[k].1).len() <= MAX_CSV_LINE {
                sat_add(acc, 1)
            } else {
                acc
            },
        )
    }
}

/// `acc` plus the count of lines of the contacts of `blocks[i..]` that are written.
pub open spec fn csv_count(blocks: Seq<Seq<char>>, pattern: Seq<char>, i: int, acc: int) -> int
    decreases blocks.len() - i,
{
    if i < 0 || i >= blocks.len() {
        acc
    } else {
        csv_count(blocks, pattern, i + 1, csv_tel_count(contact_of(blocks[i]), pattern, 0, acc))
    }
}

fn type_code_exec(ty: &str) -> (r: Vec<char>)
    ensures
        r@ == type_code(ty@),
{
    let t = chars_of(ty);
    let mut r: Vec<char> = Vec::new();
    if same_chars(&t, &chars_of("CELL")) || same_chars(&t, &chars_of("携帯")) {
        r.push('3');
    } else if same_chars(&t, &chars_of("WORK")) {
        r.push('4');
    } else {
        r.push('2');
    }
    assert(r@ =~= type_code(ty@));
    r
}

/// The line of `ct` for telephone `tel`.
fn csv_line_exec(
    ct: &Contact,
    pattern: &str,
    finitial: &String,
    linitial: &String,
    tel: &Telephone,
) -> (r: Vec<char>)
    requires
        finitial@ == first_initial(ct@),
        linitial@ == last_initial(ct@),
    ensures
        r@ == csv_line(ct@, pattern@, tel@.0, tel@.1),
{
    let quote = chars_of("\"");
    let quote_esc = chars_of("&quot;");
    proof {
        reveal_strlit("\"");
    }
    let mut comma: Vec<char> = Vec::new();
    comma.push(',');
    let name = ct.fmt_name(pattern, finitial.as_str(), linitial.as_str(), tel.teltype());
    let mut out = replace_all(&chars_of(name.as_str()), &quote, &quote_esc);
    out.push(',');
    push_all(&mut out, &chars_of(tel.number()));
    out.push(',');
    let cats = split(&chars_of(ct.categories()), &comma);
    proof {
        assert(comma@ =~= seq![',']);
        crate::text::lemma_split_nonempty(ct@.categories, seq![','], 0, 0);
    }
    push_all(&mut out, &cats[0]);
    out.push(',');
    push_all(&mut out, &chars_of(ct.kana_reading().as_str()));
    out.push(',');
    push_all(&mut out, &type_code_exec(tel.teltype()));
    out.push('\r');
    out.push('\n');
    assert(out@ =~= csv_line(ct@, pattern@, tel@.0, tel@.1));
    out
}

/// The AGEphone list for `vcf`: one Shift_JIS line per telephone of each
/// contact that has one.
pub fn output_age_phone_csv_file<F: Fn(Pass, usize, usize)>(
    vcf: &Vcf,
    args: &Args,
    progress: &F,
) -> (r: (Vec<u8>, ProcCounter))
    requires
        forall|p: Pass, k: usize, n: usize| call_requires(*progress, (p, k, n)),
    ensures
        r.0@ == csv_blocks(blocks_of(vcf@), args@.name_pattern_normal, 0),
        r.1.all_contact == blocks_of(vcf@).len(),
        r.1.all_telephone == tel_count(blocks_of(vcf@), 0, 0),
        r.1.contact == contact_count(blocks_of(vcf@), 0, 0),
        r.1.telephone == csv_count(blocks_of(vcf@), args@.name_pattern_normal, 0, 0),
        r.1.merge == 0 && r.1.logs == 0,
{
    let pattern = args.name_pattern_normal();
    let blocks = vcf.get_vcards();
    let ghost bs = blocks_of(vcf@);
    let mut out: Vec<u8> = Vec::new();
    let mut pc = ProcCounter::default();
    pc.all_contact = blocks.len();
    let mut i: usize = 0;
    while i < blocks.len()
        invariant
            i <= blocks.len(),
            forall|p: Pass, k: usize, n: usize| call_requires(*progress, (p, k, n)),
            bs == blocks@.map_values(|s: String| s@),
            bs == blocks_of(vcf@),
            pattern@ == args@.name_pattern_normal,
            out@ + csv_blocks(bs, pattern@, i as int) == csv_blocks(bs, pattern@, 0),
            pc.all_contact == bs.len(),
            tel_count(bs, i as int, pc.all_telephone as int) == tel_count(bs, 0, 0),
            contact_count(bs, i as int, pc.contact as int) == contact_count(bs, 0, 0),
            csv_count(bs, pattern@, i as int, pc.telephone as int) == csv_count(bs, pattern@, 0, 0),
            pc.merge == 0 && pc.logs == 0,
        decreases blocks.len() - i,
    {
        progress(Pass::AgephoneCsv, i + 1, blocks.len());
        assert(bs[i as int] == blocks@[i as int]@);
        let ct = Contact::new(blocks[i].as_str());
        let ghost c = ct@;
        let ghost rest = csv_blocks(bs, pattern@, i + 1);
        if !ct.is_empty() {
            let finitial = ct.first_name_index();
            let linitial = ct.name_index();
            let tels = ct.tel_iter();
            let mut k: usize = 0;
            while k < tels.len()
                invariant
                    k <= tels.len(),
                    i < bs.len(),
                    tels@.map_values(|t: Telephone| t@) == c.tels,
                    c == ct@,
                    c == contact_of(bs[i as int]),
                    finitial@ == first_initial(c),
                    linitial@ == last_initial(c),
                    pattern@ == args@.name_pattern_normal,
                    pc.all_contact == bs.len(),
                    tel_count(bs, i as int, pc.all_telephone as int) == tel_count(bs, 0, 0),
                    contact_count(bs, i as int, pc.contact as int) == contact_count(bs, 0, 0),
                    pc.merge == 0 && pc.logs == 0,
                    out@ + csv_tels(c, pattern@, k as int) + rest == csv_blocks(bs, pattern@, 0),
                    csv_count(
                        bs,
                        pattern@,
                        i + 1,
                        csv_tel_count(c, pattern@, k as int, pc.telephone as int),
                    ) == csv_count(bs, pattern@, 0, 0),
                decreases tels.len() - k,
            {
                let tel = &tels[k];
                assert(c.tels[k as int] == tel@);
                let ghost prev = out@;
                let line = csv_line_exec(&ct, pattern, &finitial, &linitial, tel);
                if line.len() <= MAX_CSV_LINE {
                    let bytes = encode_shift_jis(string_of(&line).as_str());
                    out.extend_from_slice(bytes.as_slice());
                    assert(out@ =~= prev + bytes@);
                    pc.telephone = sat_add_exec(pc.telephone, 1);
                }
                assert(prev + csv_tels(c, pattern@, k as int) + rest =~= out@ + csv_tels(
                    c,
                    pattern@,
                    k + 1,
                ) + rest);
                k = k + 1;
            }
            assert(out@ + csv_tels(c, pattern@, k as int) =~= out@);
            pc.all_telephone = sat_add_exec(pc.all_telephone, tels.len());
            pc.contact = sat_add_exec(pc.contact, 1);
        } else {
            assert(csv_tels(c, pattern@, 0) =~= Seq::<u8>::empty());
            assert(out@ + csv_tels(c, pattern@, 0) =~= out@);
        }
        i = i + 1;
    }
    assert(out@ + csv_blocks(bs, pattern@, i as int) =~= out@);
    (out, pc)
}

} // verus!
