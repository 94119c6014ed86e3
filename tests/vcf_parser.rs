use vcf2microsip::vcard::{initial_of_reading, Contact, Vcf};

const TEST_VCF: &str = "BEGIN:VCARD\r\nVERSION:3.0\r\nN:Yamada;Taro;;;\r\nFN:Taro Yamada\r\nTEL;TYPE=CELL:090-0000-0000\r\nTEL;TYPE=WORK:1234\r\nTEL:11-22-33\r\nitem2.TEL:55-66-77\r\nitem2.X-ABLabel:homeFax\r\nEND:VCARD\r\nBEGIN:VCARD\r\nVERSION:3.0\r\nFN:太宰治\r\nX-PHONETIC-LAST-NAME:ダザイ\r\nTEL;TYPE=HOME:03-0000-0000\r\nEND:VCARD\r\nBEGIN:VCARD\r\nVERSION:3.0\r\nitem1.ORG:CORPCORP\r\nCATEGORIES:Business\r\nTEL;TYPE=WORK:06-0000-0000\r\nEND:VCARD\r\n";

#[test]
fn test_vcf_parse() {
    let vcf = Vcf::new(TEST_VCF);
    let vcs = vcf.get_vcards();
    let ct = Contact::new(&vcs[0]);
    assert_eq!("Taro Yamada", ct.full_name());
    let tels = ct.tel_iter();
    assert_eq!("1234", tels[1].number());
    assert_eq!("WORK", tels[1].teltype());
    assert_eq!("11-22-33", tels[2].number());
    assert_eq!("", tels[2].teltype());
    assert_eq!("55-66-77", tels[3].number());
    assert_eq!("homeFax", tels[3].teltype());
    let ct = Contact::new(&vcs[1]);
    assert_eq!("太宰治", ct.full_name());
    assert_eq!("だ", ct.name_index());
    let ct = Contact::new(&vcs[2]);
    assert_eq!("CORPCORP", ct.full_name());
    assert_eq!("Business", ct.categories());
}

#[test]
fn vcards_drop_text_after_last_terminator() {
    let vcf = Vcf::new("A\nEND:VCARD\nB\nEND:VCARD\ntrailer");
    assert_eq!(vcf.get_vcards(), vec!["A\n".to_string(), "\nB\n".to_string()]);
}

#[test]
fn vcards_of_empty_export() {
    assert!(Vcf::new("").get_vcards().is_empty());
    assert!(Vcf::new("no records").get_vcards().is_empty());
}

#[test]
fn half_width_katakana_become_full_width() {
    let ct = Contact::new("FN:ﾀﾛｳ\r\nTEL:1\r\n");
    assert_eq!(ct.full_name(), "タロウ");
}

#[test]
fn name_index_prefers_phonetic_last_name() {
    let ct = Contact::new("FN:Taro\r\nX-PHONETIC-LAST-NAME:ヤマダ\r\nX-PHONETIC-FIRST-NAME:タロウ\r\nTEL:1\r\n");
    assert_eq!(ct.name_index(), "や");
    assert_eq!(ct.first_name_index(), "た");
}

#[test]
fn name_index_falls_back_to_full_name_then_organization() {
    let ct = Contact::new("FN:カトウ\r\nTEL:1\r\n");
    assert_eq!(ct.name_index(), "か");
    let ct = Contact::new("ORG:サトウ商事\r\nTEL:1\r\n");
    assert_eq!(ct.name_index(), "さ");
    let ct = Contact::new("TEL:1\r\n");
    assert_eq!(ct.name_index(), "");
}

#[test]
fn organization_stands_in_for_missing_full_name() {
    let ct = Contact::new("item3.ORG:Acme Inc\r\nTEL:1\r\n");
    assert_eq!(ct.full_name(), "Acme Inc");
    let ct = Contact::new("FN:Jane\r\nORG:Acme\r\nTEL:1\r\n");
    assert_eq!(ct.full_name(), "Jane");
}

#[test]
fn first_field_line_wins_and_is_trimmed() {
    let ct = Contact::new("CATEGORIES:One  \r\nCATEGORIES:Two\r\nTEL:1\r\n");
    assert_eq!(ct.categories(), "One");
}

#[test]
fn telephone_type_from_last_type_attribute() {
    let ct = Contact::new("TEL;TYPE=CELL;TYPE=VOICE:090\r\n");
    assert_eq!(ct.tel_iter()[0].teltype(), "VOICE");
    assert_eq!(ct.tel_iter()[0].number(), "090");
}

#[test]
fn blank_telephone_numbers_are_dropped() {
    let ct = Contact::new("TEL;TYPE=WORK:   \r\nTEL:\r\nTEL:5\r\n");
    assert_eq!(ct.tel_iter().len(), 1);
    assert_eq!(ct.tel_iter()[0].number(), "5");
}

#[test]
fn record_without_telephone_is_empty() {
    let ct = Contact::new("FN:Taro Yamada\r\nN:Yamada;Taro\r\nORG:Acme\r\nCATEGORIES:Friends\r\nNOTE:TEL lines none\r\n");
    assert!(ct.is_empty());
    assert_eq!(ct.full_name(), "Taro Yamada");
    let ct = Contact::new("FN:A\r\nTEL:1\r\n");
    assert!(!ct.is_empty());
}

#[test]
fn fmt_name_substitutes_tokens() {
    let ct = Contact::new("FN:Taro Yamada\r\nCATEGORIES:Friends\r\nTEL;TYPE=WORK:1234\r\n");
    assert_eq!(
        ct.fmt_name("%linitial% - %name% (%teltype%) [%categories%] %finitial%", "F", "L", "WORK"),
        "L - Taro Yamada (WORK) [Friends] F"
    );
}

#[test]
fn fmt_name_removes_empty_decorations() {
    let ct = Contact::new("FN:Taro Yamada\r\nTEL:1234\r\n");
    assert_eq!(ct.fmt_name("%name% (%teltype%)", "", "", ""), "Taro Yamada");
    assert_eq!(ct.fmt_name("[%categories%] %name%", "", "", ""), "Taro Yamada");
    assert_eq!(ct.fmt_name("  %name%  ", "", "", ""), "Taro Yamada");
}

#[test]
fn xml_line_fills_name_and_number() {
    assert_eq!(
        Contact::xml_line("A &quot;B&quot;", "123"),
        "<contact name=\"A &quot;B&quot;\" number=\"123\" firstname=\"\" lastname=\"\" phone=\"\" mobile=\"\" email=\"\" address=\"\" city=\"\" state=\"\" zip=\"\" comment=\"\" id=\"\" info=\"\" presence=\"0\" directory=\"0\"/>"
    );
}

#[test]
fn initial_of_reading_takes_first_character() {
    assert_eq!(initial_of_reading("やまだ"), "や");
    assert_eq!(initial_of_reading(""), "");
}

#[test]
fn hiragana_mapping_bounds() {
    let ct = Contact::new("X-PHONETIC-LAST-NAME:ヴァ\r\nTEL:1\r\n");
    assert_eq!(ct.name_index(), "ゔ");
    let ct = Contact::new("X-PHONETIC-LAST-NAME:ヷ\r\nTEL:1\r\n");
    assert_eq!(ct.name_index(), "ヷ");
    let ct = Contact::new("X-PHONETIC-LAST-NAME:ｶﾞｯｺｳ\r\nX-PHONETIC-FIRST-NAME:ﾀﾛｳ\r\nTEL:1\r\n");
    assert_eq!(ct.kana_reading(), "がっこう たろう");
}
