//! The conversion passes: the contact-list document with merged-back legacy
//! entries, and the renaming of call-history lines.
use vstd::prelude::*;
use crate::args::Args;
use crate::log_store::{key_lines, replace_first_spec, rewrite_spec, IniIo};
use crate::number::digits_of;
use crate::sip_contacts::{cleared, EntryView, SipContacts};
use crate::text::{chars_of, push_all, replace_all, replace_spec, split_spec, string_of};
use crate::vcard::{
    blocks_of, contact_of, display_name, first_initial, format_spec, last_initial,
    xml_line_spec, Contact, ContactView, Telephone, Vcf,
};

verus! {

/// The scan passes that report progress.
#[derive(Clone, Copy, Debug, PartialEq, Eq, Structural)]
pub enum Pass {
    Convert,
    Merge,
    RenewLogs,
    AgephoneCsv,
}

/// Counts of one run, for reporting.
#[derive(Debug)]
pub struct ProcCounter {
    pub all_contact: usize,
    pub all_telephone: usize,
    pub contact: usize,
    pub telephone: usize,
    pub merge: usize,
    pub logs: usize,
}

impl Default for ProcCounter {
    fn default() -> (r: ProcCounter)
        ensures
            r.all_contact == 0 && r.all_telephone == 0 && r.contact == 0 && r.telephone == 0
                && r.merge == 0 && r.logs == 0,
    {
        ProcCounter { all_contact: 0, all_telephone: 0, contact: 0, telephone: 0, merge: 0, logs: 0 }
    }
}

/// `a + b`, or the largest `usize` where the sum exceeds it.
pub open spec fn sat_add(a: int, b: int) -> int {
    if a + b > usize::MAX {
        usize::MAX as int
    } else {
        a + b
    }
}

pub(crate) fn sat_add_exec(a: usize, b: usize) -> (r: usize)
    ensures
        r == sat_add(a as int, b as int),
{
    if a > usize::MAX - b {
        usize::MAX
    } else {
        a + b
    }
}

impl ProcCounter {
    /// Adds each count of `pc` to this one's.
    pub fn add_count(&mut self, pc: &ProcCounter)
        requires
            old(self).all_contact + pc.all_contact <= usize::MAX,
            old(self).all_telephone + pc.all_telephone <= usize::MAX,
            old(self).contact + pc.contact <= usize::MAX,
            old(self).telephone + pc.telephone <= usize::MAX,
            old(self).merge + pc.merge <= usize::MAX,
            old(self).logs + pc.logs <= usize::MAX,
        ensures
            final(self).all_contact == old(self).all_contact + pc.all_contact,
            final(self).all_telephone == old(self).all_telephone + pc.all_telephone,
            final(self).contact == old(self).contact + pc.contact,
            final(self).telephone == old(self).telephone + pc.telephone,
            final(self).merge == old(self).merge + pc.merge,
            final(self).logs == old(self).logs + pc.logs,
    {
        self.all_contact = self.all_contact + pc.all_contact;
        self.all_telephone = self.all_telephone + pc.all_telephone;
        self.contact = self.contact + pc.contact;
        self.telephone = self.telephone + pc.telephone;
        self.merge = self.merge + pc.merge;
        self.logs = self.logs + pc.logs;
    }
}

pub open spec fn crlf() -> Seq<char> {
    seq!['\r', '\n']
}

pub open spec fn xml_header() -> Seq<char> {
    "<?xml version=\"1.0\"?>\r\n<contacts>\r\n"@
}

pub open spec fn xml_footer() -> Seq<char> {
    "</contacts>\r\n"@
}

/// `s` with each double quote written as `&quot;`.
pub open spec fn escape_xml(s: Seq<char>) -> Seq<char> {
    replace_spec(s, "\""@, "&quot;"@)
}

/// The display name of contact `c` for a telephone of type `ty`.
pub open spec fn contact_name(c: ContactView, pattern: Seq<char>, ty: Seq<char>) -> Seq<char> {
    format_spec(pattern, display_name(c), first_initial(c), last_initial(c), ty, c.categories)
}

/// The elements of the telephones `c.tels[k..]`, one line each.
pub open spec fn tel_elements(c: ContactView, pattern: Seq<char>, k: int) -> Seq<char>
    decreases c.tels.len() - k,
{
    if k < 0 || k >= c.tels.len() {
        Seq::empty()
    } else {
        xml_line_spec(escape_xml(contact_name(c, pattern, c.tels[k].0)), c.tels[k].1) + crlf()
            + tel_elements(c, pattern, k + 1)
    }
}

/// The elements of the contacts of `blocks[i..]`.
pub open spec fn contact_elements(blocks: Seq<Seq<char>>, pattern: Seq<char>, i: int) -> Seq<char>
    decreases blocks.len() - i,
{
    if i < 0 || i >= blocks.len() {
        Seq::empty()
    } else {
        tel_elements(contact_of(blocks[i]), pattern, 0) + contact_elements(blocks, pattern, i + 1)
    }
}

/// `es` after blanking the entries of each number of `tels[k..]`.
pub open spec fn clear_tels(es: Seq<EntryView>, tels: Seq<(Seq<char>, Seq<char>)>, k: int) -> Seq<
    EntryView,
>
    decreases tels.len() - k,
{
    if k < 0 || k >= tels.len() {
        es
    } else {
        clear_tels(cleared(es, digits_of(tels[k].1)), tels, k + 1)
    }
}

/// `es` after blanking the entries of each telephone of `blocks[i..]`.
pub open spec fn clear_blocks(es: Seq<EntryView>, blocks: Seq<Seq<char>>, i: int) -> Seq<EntryView>
    decreases blocks.len() - i,
{
    if i < 0 || i >= blocks.len() {
        es
    } else {
        clear_blocks(clear_tels(es, contact_of(blocks[i]).tels, 0), blocks, i + 1)
    }
}

/// The elements of the entries of `es[j..]` that are not blank.
pub open spec fn merge_elements(es: Seq<EntryView>, j: int) -> Seq<char>
    decreases es.len() - j,
{
    if j < 0 || j >= es.len() {
        Seq::empty()
    } else if es[j].0.len() > 0 {
        xml_line_spec(es[j].2, es[j].1) + crlf() + merge_elements(es, j + 1)
    } else {
        merge_elements(es, j + 1)
    }
}

/// The contact list generated from export `text` with template `pattern`,
/// the legacy entries `es` not matched by the export merged back at the end.
pub open spec fn xml_document(text: Seq<char>, pattern: Seq<char>, es: Seq<EntryView>) -> Seq<
    char,
> {
    xml_header() + contact_elements(blocks_of(text), pattern, 0) + merge_elements(
        clear_blocks(es, blocks_of(text), 0),
        0,
    ) + xml_footer()
}

/// A record without a telephone adds nothing to the contact list: no
/// element, no blanked legacy entry, and no counted contact or telephone.
pub proof fn lemma_record_without_telephone_adds_nothing(
    blocks: Seq<Seq<char>>,
    pattern: Seq<char>,
    i: int,
    es: Seq<EntryView>,
    acc: int,
)
    requires
        0 <= i < blocks.len(),
        contact_of(blocks[i]).tels.len() == 0,
        0 <= acc <= usize::MAX,
    ensures
        contact_elements(blocks, pattern, i) == contact_elements(blocks, pattern, i + 1),
        clear_blocks(es, blocks, i) == clear_blocks(es, blocks, i + 1),
        contact_count(blocks, i, acc) == contact_count(blocks, i + 1, acc),
        tel_count(blocks, i, acc) == tel_count(blocks, i + 1, acc),
{
    let c = contact_of(blocks[i]);
    assert(tel_elements(c, pattern, 0) =~= Seq::<char>::empty());
    assert(contact_elements(blocks, pattern, i) =~= contact_elements(blocks, pattern, i + 1));
    assert(clear_tels(es, c.tels, 0) == es);
}

/// The count of telephones of `blocks[i..]`, added to `acc`.
pub open spec fn tel_count(blocks: Seq<Seq<char>>, i: int, acc: int) -> int
    decreases blocks.len() - i,
{
    if i < 0 || i >= blocks.len() {
        acc
    } else {
        tel_count(blocks, i + 1, sat_add(acc, contact_of(blocks[i]).tels.len() as int))
    }
}

/// The count of contacts with a telephone among `blocks[i..]`, added to `acc`.
pub open spec fn contact_count(blocks: Seq<Seq<char>>, i: int, acc: int) -> int
    decreases blocks.len() - i,
{
    if i < 0 || i >= blocks.len() {
        acc
    } else {
        contact_count(
            blocks,
            i + 1,
            if contact_of(blocks[i]).tels.len() > 0 {
                sat_add(acc, 1)
            } else {
                acc
            },
        )
    }
}

/// The count of entries of `es[j..]` that are not blank, added to `acc`.
pub open spec fn merge_count(es: Seq<EntryView>, j: int, acc: int) -> int
    decreases es.len() - j,
{
    if j < 0 || j >= es.len() {
        acc
    } else {
        merge_count(es, j + 1, if es[j].0.len() > 0 { sat_add(acc, 1) } else { acc })
    }
}

/// The call-history name of contact `c` for a telephone of type `ty`: its
/// display name with `;` written as `|`.
pub open spec fn log_name(c: ContactView, pattern: Seq<char>, ty: Seq<char>) -> Seq<char> {
    replace_spec(contact_name(c, pattern, ty), ";"@, "|"@)
}

/// Text `data` and count `n` after rewriting each line of `olds[j..]` with
/// `name`; a line that cannot be rewritten leaves both unchanged.
pub open spec fn patch_lines(
    data: Seq<char>,
    n: int,
    olds: Seq<Seq<char>>,
    name: Seq<char>,
    j: int,
) -> (Seq<char>, int)
    decreases olds.len() - j,
{
    if j < 0 || j >= olds.len() {
        (data, n)
    } else if rewrite_spec(olds[j], name).len() == 0 {
        patch_lines(data, n, olds, name, j + 1)
    } else {
        patch_lines(
            replace_first_spec(data, olds[j], rewrite_spec(olds[j], name)),
            sat_add(n, 1),
            olds,
            name,
            j + 1,
        )
    }
}

/// A record line without exactly six fields is left alone: rewriting it
/// gives the empty line, and patching with it keeps the text and the count.
pub proof fn lemma_malformed_line_left_alone(
    data: Seq<char>,
    n: int,
    old_line: Seq<char>,
    name: Seq<char>,
)
    requires
        split_spec(old_line, seq![';']).len() != 6,
    ensures
        rewrite_spec(old_line, name).len() == 0,
        patch_lines(data, n, seq![old_line], name, 0) == (data, n),
{
    assert(patch_lines(data, n, seq![old_line], name, 1) == (data, n));
}

/// Text and count after patching the lines of each telephone of `c.tels[k..]`.
pub open spec fn patch_tels(data: Seq<char>, n: int, c: ContactView, pattern: Seq<char>, k: int) -> (
    Seq<char>,
    int,
)
    decreases c.tels.len() - k,
{
    if k < 0 || k >= c.tels.len() {
        (data, n)
    } else {
        let r = patch_lines(
            data,
            n,
            key_lines(data, c.tels[k].1),
            log_name(c, pattern, c.tels[k].0),
            0,
        );
        patch_tels(r.0, r.1, c, pattern, k + 1)
    }
}

/// Text and count after patching for each contact of `blocks[i..]`.
pub open spec fn patch_blocks(
    data: Seq<char>,
    n: int,
    blocks: Seq<Seq<char>>,
    pattern: Seq<char>,
    i: int,
) -> (Seq<char>, int)
    decreases blocks.len() - i,
{
    if i < 0 || i >= blocks.len() {
        (data, n)
    } else {
        let r = patch_tels(data, n, contact_of(blocks[i]), pattern, 0);
        patch_blocks(r.0, r.1, blocks, pattern, i + 1)
    }
}

/// The contact-list document for `vcf`, with the legacy entries of
/// `sip_contacts` that no telephone of the export matches merged back; those
/// that one matches are blanked in `sip_contacts`.
pub fn output_xml_file<F: Fn(Pass, usize, usize)>(
    vcf: &Vcf,
    args: &Args,
    sip_contacts: &mut SipContacts,
    progress: &F,
) -> (r: (String, ProcCounter))
    requires
        forall|p: Pass, k: usize, n: usize| call_requires(*progress, (p, k, n)),
    ensures
        r.0@ == xml_document(vcf@, args@.name_pattern_normal, old(sip_contacts)@),
        final(sip_contacts)@ == clear_blocks(old(sip_contacts)@, blocks_of(vcf@), 0),
        r.1.all_contact == blocks_of(vcf@).len(),
        r.1.all_telephone == tel_count(blocks_of(vcf@), 0, 0),
        r.1.telephone == tel_count(blocks_of(vcf@), 0, 0),
        r.1.contact == contact_count(blocks_of(vcf@), 0, 0),
        r.1.merge == merge_count(final(sip_contacts)@, 0, 0),
        r.1.logs == 0,
{
    let header = chars_of("<?xml version=\"1.0\"?>\r\n<contacts>\r\n");
    let quote = chars_of("\"");
    let quote_esc = chars_of("&quot;");
    proof {
        reveal_strlit("\"");
    }
    let mut nl: Vec<char> = Vec::new();
    nl.push('\r');
    nl.push('\n');
    assert(nl@ =~= crlf());
    let pattern = args.name_pattern_normal();
    let blocks = vcf.get_vcards();
    let ghost bs = blocks_of(vcf@);
    let ghost es0 = sip_contacts@;
    let mut out = header;
    let mut pc = ProcCounter::default();
    pc.all_contact = blocks.len();
    let mut i: usize = 0;
    while i < blocks.len()
        invariant
            i <= blocks.len(),
            forall|p: Pass, k: usize, n: usize| call_requires(*progress, (p, k, n)),
            bs == blocks@.map_values(|s: String| s@),
            bs == blocks_of(vcf@),
            pattern@ == args@.name_pattern_normal,
            nl@ == crlf(),
            quote@ == "\""@,
            quote@.len() == 1,
            quote_esc@ == "&quot;"@,
            out@ + contact_elements(bs, pattern@, i as int) == xml_header() + contact_elements(
                bs,
                pattern@,
                0,
            ),
            clear_blocks(sip_contacts@, bs, i as int) == clear_blocks(es0, bs, 0),
            pc.all_contact == bs.len(),
            pc.all_telephone == pc.telephone,
            tel_count(bs, i as int, pc.all_telephone as int) == tel_count(bs, 0, 0),
            contact_count(bs, i as int, pc.contact as int) == contact_count(bs, 0, 0),
            pc.merge == 0,
            pc.logs == 0,
        decreases blocks.len() - i,
    {
        progress(Pass::Convert, i + 1, blocks.len());
        assert(bs[i as int] == blocks@[i as int]@);
        let ct = Contact::new(blocks[i].as_str());
        let ghost c = ct@;
        let ghost rest = contact_elements(bs, pattern@, i + 1);
        let ghost target = clear_blocks(es0, bs, 0);
        if !ct.is_empty() {
            let finitial = ct.first_name_index();
            let linitial = ct.name_index();
            let tels = ct.tel_iter();
            let mut k: usize = 0;
            while k < tels.len()
                invariant
                    k <= tels.len(),
                    i < bs.len(),
                    tels@.map_values(|t: Telephone| t@) == c.tels,
                    c == ct@,
                    c == contact_of(bs[i as int]),
                    finitial@ == first_initial(c),
                    linitial@ == last_initial(c),
                    pattern@ == args@.name_pattern_normal,
                    nl@ == crlf(),
                    quote@ == "\""@,
                    quote@.len() == 1,
                    quote_esc@ == "&quot;"@,
                    out@ + tel_elements(c, pattern@, k as int) + rest == xml_header()
                        + contact_elements(bs, pattern@, 0),
                    clear_blocks(clear_tels(sip_contacts@, c.tels, k as int), bs, i + 1)
                        == target,
                decreases tels.len() - k,
            {
                let tel = &tels[k];
                assert(c.tels[k as int] == tel@);
                let ghost prev = out@;
                sip_contacts.clear_exist(tel.number());
                let name = ct.fmt_name(pattern, finitial.as_str(), linitial.as_str(), tel.teltype());
                let esc = replace_all(&chars_of(name.as_str()), &quote, &quote_esc);
                let line = Contact::xml_line(string_of(&esc).as_str(), tel.number());
                push_all(&mut out, &chars_of(line.as_str()));
                push_all(&mut out, &nl);
                assert(prev + tel_elements(c, pattern@, k as int) + rest =~= out@ + tel_elements(
                    c,
                    pattern@,
                    k + 1,
                ) + rest);
                k = k + 1;
            }
            assert(out@ + tel_elements(c, pattern@, k as int) =~= out@);
            pc.all_telephone = sat_add_exec(pc.all_telephone, tels.len());
            pc.telephone = pc.all_telephone;
            pc.contact = sat_add_exec(pc.contact, 1);
        } else {
            assert(tel_elements(c, pattern@, 0) =~= Seq::<char>::empty());
            assert(out@ + tel_elements(c, pattern@, 0) =~= out@);
        }
        assert(clear_tels(sip_contacts@, c.tels, c.tels.len() as int) == sip_contacts@);
        i = i + 1;
    }
    assert(out@ + contact_elements(bs, pattern@, i as int) =~= out@);
    assert(tel_count(bs, i as int, pc.all_telephone as int) == pc.all_telephone);
    assert(contact_count(bs, i as int, pc.contact as int) == pc.contact);
    let data = sip_contacts.data();
    let ghost es = sip_contacts@;
    let ghost elems = out@;
    let mut j: usize = 0;
    while j < data.len()
        invariant
            j <= data.len(),
            forall|p: Pass, k: usize, n: usize| call_requires(*progress, (p, k, n)),
            data@.map_values(|e: (String, String, String)| crate::sip_contacts::entry_view(e))
                == es,
            nl@ == crlf(),
            out@ + merge_elements(es, j as int) == elems + merge_elements(es, 0),
            merge_count(es, j as int, pc.merge as int) == merge_count(es, 0, 0),
            bs == blocks_of(vcf@),
            pc.all_contact == bs.len(),
            pc.all_telephone == pc.telephone,
            pc.all_telephone == tel_count(bs, 0, 0),
            pc.contact == contact_count(bs, 0, 0),
            pc.logs == 0,
        decreases data.len() - j,
    {
        progress(Pass::Merge, j + 1, data.len());
        let ghost prev = out@;
        let e = &data[j];
        assert(es[j as int] == crate::sip_contacts::entry_view(*e));
        if e.0.as_str().is_empty() {
            assert(prev + merge_elements(es, j as int) =~= out@ + merge_elements(es, j + 1));
        } else {
            let line = Contact::xml_line(e.2.as_str(), e.1.as_str());
            push_all(&mut out, &chars_of(line.as_str()));
            push_all(&mut out, &nl);
            assert(prev + merge_elements(es, j as int) =~= out@ + merge_elements(es, j + 1));
            pc.merge = sat_add_exec(pc.merge, 1);
        }
        j = j + 1;
    }
    assert(out@ + merge_elements(es, j as int) =~= out@);
    assert(merge_count(es, j as int, pc.merge as int) == pc.merge);
    push_all(&mut out, &chars_of("</contacts>\r\n"));
    (string_of(&out), pc)
}

/// Renames, in the call-history text of `ini_io`, each line of a telephone
/// of the export to the contact's display name; returns the count of lines
/// rewritten in `logs`.
pub fn renew_ini_buffer<F: Fn(Pass, usize, usize)>(
    vcf: &Vcf,
    args: &Args,
    ini_io: &mut IniIo,
    progress: &F,
) -> (r: ProcCounter)
    requires
        forall|p: Pass, k: usize, n: usize| call_requires(*progress, (p, k, n)),
    ensures
        final(ini_io)@ == patch_blocks(
            old(ini_io)@,
            0,
            blocks_of(vcf@),
            args@.name_pattern_normal,
            0,
        ).0,
        r.logs == patch_blocks(old(ini_io)@, 0, blocks_of(vcf@), args@.name_pattern_normal, 0).1,
        r.all_contact == 0 && r.all_telephone == 0 && r.contact == 0 && r.telephone == 0
            && r.merge == 0,
{
    let semi = chars_of(";");
    let bar = chars_of("|");
    proof {
        reveal_strlit(";");
    }
    let pattern = args.name_pattern_normal();
    let blocks = vcf.get_vcards();
    let ghost bs = blocks_of(vcf@);
    let ghost target = patch_blocks(ini_io@, 0, bs, pattern@, 0);
    let mut pc = ProcCounter::default();
    let mut i: usize = 0;
    while i < blocks.len()
        invariant
            i <= blocks.len(),
            forall|p: Pass, k: usize, n: usize| call_requires(*progress, (p, k, n)),
            bs == blocks@.map_values(|s: String| s@),
            pattern@ == args@.name_pattern_normal,
            semi@ == ";"@,
            semi@.len() == 1,
            bar@ == "|"@,
            patch_blocks(ini_io@, pc.logs as int, bs, pattern@, i as int) == target,
            pc.all_contact == 0 && pc.all_telephone == 0 && pc.contact == 0 && pc.telephone == 0
                && pc.merge == 0,
        decreases blocks.len() - i,
    {
        progress(Pass::RenewLogs, i + 1, blocks.len());
        assert(bs[i as int] == blocks@[i as int]@);
        let ct = Contact::new(blocks[i].as_str());
        let ghost c = ct@;
        if !ct.is_empty() {
            let finitial = ct.first_name_index();
            let linitial = ct.name_index();
            let tels = ct.tel_iter();
            let mut k: usize = 0;
            while k < tels.len()
                invariant
                    k <= tels.len(),
                    i < bs.len(),
                    tels@.map_values(|t: Telephone| t@) == c.tels,
                    c == ct@,
                    c == contact_of(bs[i as int]),
                    finitial@ == first_initial(c),
                    linitial@ == last_initial(c),
                    pattern@ == args@.name_pattern_normal,
                    semi@ == ";"@,
                    semi@.len() == 1,
                    bar@ == "|"@,
                    ({
                        let r = patch_tels(ini_io@, pc.logs as int, c, pattern@, k as int);
                        patch_blocks(r.0, r.1, bs, pattern@, i + 1)
                    }) == target,
                    pc.all_contact == 0 && pc.all_telephone == 0 && pc.contact == 0
                        && pc.telephone == 0 && pc.merge == 0,
                decreases tels.len() - k,
            {
                let tel = &tels[k];
                assert(c.tels[k as int] == tel@);
                let olds = ini_io.get_match_number_lines(tel.number());
                let ghost olds_v = olds@.map_values(|s: String| s@);
                let name = ct.fmt_name(pattern, finitial.as_str(), linitial.as_str(), tel.teltype());
                let log = string_of(&replace_all(&chars_of(name.as_str()), &semi, &bar));
                let ghost after = patch_lines(ini_io@, pc.logs as int, olds_v, log@, 0);
                let mut j: usize = 0;
                while j < olds.len()
                    invariant
                        j <= olds.len(),
                        olds_v == olds@.map_values(|s: String| s@),
                        patch_lines(ini_io@, pc.logs as int, olds_v, log@, j as int) == after,
                        pc.all_contact == 0 && pc.all_telephone == 0 && pc.contact == 0
                            && pc.telephone == 0 && pc.merge == 0,
                    decreases olds.len() - j,
                {
                    assert(olds_v[j as int] == olds@[j as int]@);
                    let new_line = IniIo::make_new_number_line(olds[j].as_str(), log.as_str());
                    if !new_line.as_str().is_empty() {
                        ini_io.replace(olds[j].as_str(), new_line.as_str());
                        pc.logs = sat_add_exec(pc.logs, 1);
                    }
                    j = j + 1;
                }
                k = k + 1;
            }
        }
        i = i + 1;
    }
    pc
}

} // verus!
