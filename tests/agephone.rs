use vcf2microsip::agephone::output_age_phone_csv_file;
use vcf2microsip::args::Args;
use vcf2microsip::vcard::Vcf;

fn csv_args(pattern: &str) -> Args {
    Args::new(
        "in.vcf".to_string(),
        "out.csv".to_string(),
        String::new(),
        pattern.to_string(),
        false,
        false,
        false,
        false,
        true,
    )
}

#[test]
fn csv_line_in_shift_jis() {
    let vcf = Vcf::new("FN:Taro Yamada\r\nX-PHONETIC-LAST-NAME:ヤマダ\r\nX-PHONETIC-FIRST-NAME:タロウ\r\nCATEGORIES:Friends,Work\r\nTEL;TYPE=CELL:090\r\nEND:VCARD\r\n");
    let (bytes, pc) = output_age_phone_csv_file(&vcf, &csv_args("%name%"), &|_, _, _| {});
    let mut expected: Vec<u8> = b"Taro Yamada,090,Friends,".to_vec();
    expected.extend_from_slice(&[0x82, 0xE2, 0x82, 0xDC, 0x82, 0xBE, b' ', 0x82, 0xBD, 0x82, 0xEB, 0x82, 0xA4]);
    expected.extend_from_slice(b",3\r\n");
    assert_eq!(bytes, expected);
    assert_eq!((pc.all_contact, pc.all_telephone, pc.contact, pc.telephone), (1, 1, 1, 1));
}

#[test]
fn csv_type_codes() {
    let vcf = Vcf::new("FN:A\r\nTEL;TYPE=WORK:1\r\nTEL;TYPE=HOME:2\r\nTEL:3\r\nEND:VCARD\r\n");
    let (bytes, pc) = output_age_phone_csv_file(&vcf, &csv_args("%name% %teltype%"), &|_, _, _| {});
    assert_eq!(String::from_utf8(bytes).unwrap(), "A WORK,1,, ,4\r\nA HOME,2,, ,2\r\nA,3,, ,2\r\n");
    assert_eq!(pc.telephone, 3);
}

#[test]
fn csv_of_record_without_telephone_is_empty() {
    let vcf = Vcf::new("FN:A\r\nEND:VCARD\r\n");
    let (bytes, pc) = output_age_phone_csv_file(&vcf, &csv_args("%name%"), &|_, _, _| {});
    assert!(bytes.is_empty());
    assert_eq!((pc.all_contact, pc.contact), (1, 0));
}
