use vcf2microsip::args::Args;
use vcf2microsip::backup::{get_new_bup_filename, make_tmp_filename};
use vcf2microsip::commit::{
    error_message, tx_next, tx_start, TxAction, TxState, ERR_DID_NOT_RUN_RENEW_LOGS, ERR_FILE_BACKUP,
    ERR_FILE_NOT_FOUND, ERR_FIX_FILE_COPY, ERR_WRITE_FILE,
};
use std::cell::RefCell;
use vcf2microsip::convert::{output_xml_file, renew_ini_buffer, Pass, ProcCounter};
use vcf2microsip::log_store::IniIo;
use vcf2microsip::number::fix_number;
use vcf2microsip::sip_contacts::SipContacts;
use vcf2microsip::vcard::Vcf;

fn args_with(pattern: &str) -> Args {
    Args::new(
        "in.vcf".to_string(),
        "Contacts.xml".to_string(),
        "MicroSIP.ini".to_string(),
        pattern.to_string(),
        false,
        true,
        false,
        true,
        false,
    )
}

fn element(name: &str, number: &str) -> String {
    format!("<contact name=\"{}\" number=\"{}\" firstname=\"\" lastname=\"\" phone=\"\" mobile=\"\" email=\"\" address=\"\" city=\"\" state=\"\" zip=\"\" comment=\"\" id=\"\" info=\"\" presence=\"0\" directory=\"0\"/>", name, number)
}

#[test]
fn fix_number_keeps_digits_only() {
    assert_eq!(fix_number("03-1234-5678"), "0312345678");
    assert_eq!(fix_number("0312345678"), fix_number("03-1234-5678"));
    assert_eq!(fix_number("+81 (3) 1234.5678"), "81312345678");
    assert_eq!(fix_number("abc"), "");
}

#[test]
fn sip_contacts_parse_contact_lines() {
    let text = format!("<?xml version=\"1.0\"?>\r\n<contacts>\r\n{}\r\n{}\r\n</contacts>\r\n", element("A B", "03-1111"), element("C", "222"));
    let sc = SipContacts::new(&text);
    assert_eq!(
        sc.data(),
        &vec![
            ("031111".to_string(), "03-1111".to_string(), "A B".to_string()),
            ("222".to_string(), "222".to_string(), "C".to_string()),
        ]
    );
    assert!(!sc.is_empty());
    assert!(SipContacts::empty().is_empty());
    assert!(SipContacts::new("no contacts here\n").is_empty());
}

#[test]
fn clear_exist_blanks_matching_entries_twice_safely() {
    let text = format!("{}\n{}\n{}\n", element("A", "03-1111"), element("B", "222"), element("C", "031111"));
    let mut sc = SipContacts::new(&text);
    sc.clear_exist("0311-11");
    let blank = (String::new(), String::new(), String::new());
    let expected = vec![blank.clone(), ("222".to_string(), "222".to_string(), "B".to_string()), blank.clone()];
    assert_eq!(sc.data(), &expected);
    sc.clear_exist("0311-11");
    assert_eq!(sc.data(), &expected);
    assert_eq!(sc.data().len(), 3);
}

#[test]
fn backup_name_follows_highest_number() {
    let sibs = vec!["target.bup0001".to_string(), "target.bup0003".to_string(), "other.bup0009".to_string()];
    assert_eq!(get_new_bup_filename("target", &sibs), "target.bup0004");
}

#[test]
fn backup_name_starts_at_one() {
    assert_eq!(get_new_bup_filename("dir/Contacts.xml", &vec![]), "dir/Contacts.xml.bup0001");
    let sibs = vec!["dir/Contacts.xml".to_string(), "dir/Contacts.xml.tmp".to_string()];
    assert_eq!(get_new_bup_filename("dir/Contacts.xml", &sibs), "dir/Contacts.xml.bup0001");
}

#[test]
fn backup_name_past_four_digits() {
    let sibs = vec!["t.bup9999".to_string()];
    assert_eq!(get_new_bup_filename("t", &sibs), "t.bup10000");
}

#[test]
fn backup_name_counts_only_exact_backup_names() {
    let sibs = vec!["d/tXbup0009".to_string()];
    assert_eq!(get_new_bup_filename("d/t", &sibs), "d/t.bup0001");
    let sibs = vec!["d/t.bup0009.old".to_string(), "d/t.bup00120005".to_string(), "d/t.bup12a4".to_string()];
    assert_eq!(get_new_bup_filename("d/t", &sibs), "d/t.bup0001");
    let sibs = vec!["d/t.bup0002".to_string(), "d/t.bup0009.old".to_string()];
    assert_eq!(get_new_bup_filename("d/t", &sibs), "d/t.bup0003");
}

#[test]
fn tmp_filename_appends_suffix() {
    assert_eq!(make_tmp_filename("dir/Contacts.xml"), "dir/Contacts.xml.tmp");
}

const ONE_RECORD: &str = "BEGIN:VCARD\r\nVERSION:3.0\r\nFN:Taro Yamada\r\nTEL;TYPE=WORK:1234\r\nEND:VCARD\r\n";

#[test]
fn end_to_end_contact_list_and_merge() {
    let args = args_with("%linitial% - %name% (%teltype%)");
    let vcf = Vcf::new(ONE_RECORD);
    let mut none = SipContacts::empty();
    let (first, pc) = output_xml_file(&vcf, &args, &mut none, &|_, _, _| {});
    let taro = element("T - Taro Yamada (WORK)", "1234");
    assert_eq!(first, format!("<?xml version=\"1.0\"?>\r\n<contacts>\r\n{}\r\n</contacts>\r\n", taro));
    assert_eq!((pc.all_contact, pc.all_telephone, pc.contact, pc.telephone, pc.merge), (1, 1, 1, 1, 0));

    let legacy = first.replace("</contacts>", &format!("{}\r\n</contacts>", element("Old Friend", "555")));
    let mut sc = SipContacts::new(&legacy);
    let (second, pc) = output_xml_file(&vcf, &args, &mut sc, &|_, _, _| {});
    let expected = format!("<?xml version=\"1.0\"?>\r\n<contacts>\r\n{}\r\n{}\r\n</contacts>\r\n", taro, element("Old Friend", "555"));
    assert_eq!(second, expected);
    assert_eq!(pc.merge, 1);

    let mut again = SipContacts::new(&second);
    let (third, _) = output_xml_file(&vcf, &args, &mut again, &|_, _, _| {});
    assert_eq!(third, expected);
}

#[test]
fn output_escapes_quotes_and_skips_empty_records() {
    let args = args_with("%name%");
    let vcf = Vcf::new("FN:The \"Boss\"\r\nTEL:1\r\nEND:VCARD\r\nFN:Nobody\r\nEND:VCARD\r\n");
    let mut none = SipContacts::empty();
    let (doc, pc) = output_xml_file(&vcf, &args, &mut none, &|_, _, _| {});
    assert_eq!(doc, format!("<?xml version=\"1.0\"?>\r\n<contacts>\r\n{}\r\n</contacts>\r\n", element("The &quot;Boss&quot;", "1")));
    assert_eq!((pc.all_contact, pc.contact, pc.telephone), (2, 1, 1));
}

#[test]
fn empty_export_gives_empty_document() {
    let args = args_with("%name%");
    let mut none = SipContacts::empty();
    let (doc, pc) = output_xml_file(&Vcf::new(""), &args, &mut none, &|_, _, _| {});
    assert_eq!(doc, "<?xml version=\"1.0\"?>\r\n<contacts>\r\n</contacts>\r\n");
    assert_eq!(pc.all_contact, 0);
}

fn utf16le(s: &str) -> Vec<u8> {
    s.encode_utf16().flat_map(|u| u.to_le_bytes()).collect()
}

#[test]
fn renew_logs_renames_matching_lines() {
    let args = args_with("%name% (%teltype%)");
    let vcf = Vcf::new("FN:Taro;Yamada\r\nTEL;TYPE=WORK:12-34\r\nEND:VCARD\r\n");
    let mut ini = IniIo::new(&utf16le("\u{feff}[Calls]\r\n0=1234;Old;2;1;0;x\r\n1=999;Other;2;1;0;x\r\n2=1234;bad;line\r\n"));
    let pc = renew_ini_buffer(&vcf, &args, &mut ini, &|_, _, _| {});
    assert_eq!(pc.logs, 1);
    assert_eq!(ini.data(), "\u{feff}[Calls]\r\n0=1234;Taro|Yamada (WORK);2;1;0;x\r\n1=999;Other;2;1;0;x\r\n2=1234;bad;line\r\n");
}

#[test]
fn renew_logs_without_matches_changes_nothing() {
    let args = args_with("%name%");
    let vcf = Vcf::new("FN:A\r\nTEL:777\r\nEND:VCARD\r\n");
    let text = "\u{feff}[Calls]\r\n0=1234;Old;2;1;0;x\r\n";
    let mut ini = IniIo::new(&utf16le(text));
    let pc = renew_ini_buffer(&vcf, &args, &mut ini, &|_, _, _| {});
    assert_eq!(pc.logs, 0);
    assert_eq!(ini.data(), text);
}

#[test]
fn add_count_sums_fields() {
    let mut a = ProcCounter::default();
    let b = ProcCounter { all_contact: 1, all_telephone: 2, contact: 3, telephone: 4, merge: 5, logs: 6 };
    a.add_count(&b);
    a.add_count(&b);
    assert_eq!((a.all_contact, a.all_telephone, a.contact, a.telephone, a.merge, a.logs), (2, 4, 6, 8, 10, 12));
}

#[test]
fn args_getters_return_values() {
    let a = args_with("%name%");
    assert_eq!(a.load_file_name(), "in.vcf");
    assert_eq!(a.save_file_name(), "Contacts.xml");
    assert_eq!(a.microsip_ini_file(), "MicroSIP.ini");
    assert_eq!(a.name_pattern_normal(), "%name%");
    assert!(!a.is_help() && a.is_merge() && !a.is_no_bup() && a.is_renew_logs() && !a.is_output_csv_agephone());
}

#[test]
fn transaction_with_backup() {
    let (s, a) = tx_start();
    assert_eq!(a, TxAction::WriteTemp);
    let (s, a) = tx_next(s, true, false, ERR_WRITE_FILE);
    assert_eq!((&s, &a), (&TxState::BackingUp, &TxAction::BackupTarget));
    let (s, a) = tx_next(s, true, false, ERR_WRITE_FILE);
    assert_eq!((&s, &a), (&TxState::Committing, &TxAction::RenameTemp));
    let (s, a) = tx_next(s, true, false, ERR_WRITE_FILE);
    assert_eq!((s, a), (TxState::Done, TxAction::Stop));
}

#[test]
fn transaction_without_backup_and_failures() {
    let (s, a) = tx_next(TxState::Staging, true, true, ERR_WRITE_FILE);
    assert_eq!((s, a), (TxState::Committing, TxAction::RenameTemp));
    assert_eq!(tx_next(TxState::Staging, false, false, ERR_WRITE_FILE), (TxState::Failed(ERR_WRITE_FILE), TxAction::DeleteTemp));
    assert_eq!(tx_next(TxState::BackingUp, false, false, ERR_WRITE_FILE), (TxState::Failed(ERR_FILE_BACKUP), TxAction::DeleteTemp));
    assert_eq!(tx_next(TxState::Committing, false, false, ERR_WRITE_FILE), (TxState::Failed(ERR_FIX_FILE_COPY), TxAction::DeleteTemp));
    assert_eq!(tx_next(TxState::Failed(7), true, false, ERR_WRITE_FILE), (TxState::Failed(7), TxAction::Stop));
}

#[test]
fn error_messages_per_code() {
    assert_eq!(error_message(ERR_FILE_NOT_FOUND), "File not found.");
    assert_eq!(error_message(ERR_FIX_FILE_COPY), "Failed to replace the created file.");
    assert_eq!(error_message(ERR_FILE_BACKUP), "File backup failed.");
    assert_eq!(error_message(ERR_DID_NOT_RUN_RENEW_LOGS), "MicroSIP.ini is not renewed.");
    assert_eq!(error_message(999), "");
}

#[test]
fn progress_reported_once_per_record_and_entry() {
    let args = args_with("%name%");
    let vcf = Vcf::new("FN:A\r\nTEL:1\r\nEND:VCARD\r\nFN:B\r\nEND:VCARD\r\n");
    let legacy = format!("{}\n{}\n", element("X", "7"), element("Y", "8"));
    let mut sc = SipContacts::new(&legacy);
    let calls: RefCell<Vec<(Pass, usize, usize)>> = RefCell::new(Vec::new());
    let _ = output_xml_file(&vcf, &args, &mut sc, &|p, k, n| calls.borrow_mut().push((p, k, n)));
    assert_eq!(
        calls.into_inner(),
        vec![(Pass::Convert, 1, 2), (Pass::Convert, 2, 2), (Pass::Merge, 1, 2), (Pass::Merge, 2, 2)]
    );
    let calls: RefCell<Vec<(Pass, usize, usize)>> = RefCell::new(Vec::new());
    let mut ini = IniIo::new(&utf16le("0=1;A;2;3;4;5\r\n"));
    let _ = renew_ini_buffer(&vcf, &args, &mut ini, &|p, k, n| calls.borrow_mut().push((p, k, n)));
    assert_eq!(calls.into_inner(), vec![(Pass::RenewLogs, 1, 2), (Pass::RenewLogs, 2, 2)]);
}
