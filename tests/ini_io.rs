use vcf2microsip::log_store::IniIo;

const TEST_STRING: &[&str] = &[
    "\u{feff}[Calls]\r\n0=112233;AAA;2;1111;0;cancel\r\n1=445566;BBB;2;2222;0;cancel\r\n2=778899;CCC;2;3333;0;cancel\r\n",
    "\u{feff}[Calls]\r\n0=112233;AAA;2;1111;0;cancel\r\n1=445566;ZZZ;2;2222;0;cancel\r\n2=778899;CCC;2;3333;0;cancel\r\n",
];
const TEST_LINE: &[&str] = &[
    "1=445566;BBB;2;2222;0;cancel",
    "1=445566;ZZZ;2;2222;0;cancel",
];

fn utf16le(s: &str) -> Vec<u8> {
    s.encode_utf16().flat_map(|u| u.to_le_bytes()).collect()
}

/// The bytes of the call-history store the tests start from.
fn test_ini_bytes() -> Vec<u8> {
    utf16le(TEST_STRING[0])
}

fn test_switch(str: &str) -> usize {
    if let None = str.find("ZZZ") { 0 } else { 1 }
}

#[test]
fn test_ini_read() {
    let ini = IniIo::new(&test_ini_bytes());
    let sw = test_switch(&ini.data());
    assert_eq!(TEST_STRING[sw], ini.data());
}

#[test]
fn test_ini_get_line() {
    let ini = IniIo::new(&test_ini_bytes());
    let sw = test_switch(&ini.data());
    let old_line = ini.get_match_number_line("445566");
    assert_eq!(TEST_LINE[sw], old_line);
}

#[test]
fn test_ini_write_and_read() {
    let mut ini = IniIo::new(&test_ini_bytes());
    let sw = test_switch(&ini.data());
    let old_line = ini.get_match_number_line("445566");
    let new_line = if sw == 0 {
        IniIo::make_new_number_line(&old_line, "ZZZ")
    } else {
        IniIo::make_new_number_line(&old_line, "BBB")
    };
    let invsw = (sw as i32 * -1 + 1) as usize;
    assert_eq!(TEST_LINE[invsw], new_line);

    ini.replace(&old_line, &new_line);
    assert_eq!(TEST_STRING[invsw], ini.data());

    let saved = ini.to_bytes();
    let reread = IniIo::new(&saved);
    assert_eq!(TEST_STRING[invsw], reread.data());
}

#[test]
fn ini_round_trip_keeps_bytes() {
    let bytes = test_ini_bytes();
    assert_eq!(bytes[0], 0xFF);
    assert_eq!(bytes[1], 0xFE);
    let ini = IniIo::new(&bytes);
    assert_eq!(ini.to_bytes(), bytes);
}

#[test]
fn ini_round_trip_with_surrogate_pair() {
    let bytes = utf16le("\u{feff}0=1;\u{1F600};a;b;c;d\r\n");
    let ini = IniIo::new(&bytes);
    assert_eq!(ini.data(), "\u{feff}0=1;\u{1F600};a;b;c;d\r\n");
    assert_eq!(ini.to_bytes(), bytes);
}

#[test]
fn ini_lone_surrogate_becomes_replacement() {
    let bytes = vec![0x41, 0x00, 0x00, 0xD8, 0x42, 0x00];
    let ini = IniIo::new(&bytes);
    assert_eq!(ini.data(), "A\u{FFFD}B");
}

#[test]
fn ini_odd_trailing_byte_is_ignored() {
    let bytes = vec![0x41, 0x00, 0x42];
    let ini = IniIo::new(&bytes);
    assert_eq!(ini.data(), "A");
}

#[test]
fn ini_units_are_utf16() {
    let ini = IniIo::new(&utf16le("a\u{1F600}"));
    assert_eq!(ini.to_units(), vec![0x61, 0xD83D, 0xDE00]);
}

#[test]
fn ini_lines_found_by_normalized_number() {
    let text = "[Calls]\r\n0=0312345678;A;1;2;3;4\r\n1=999;B;1;2;3;4\r\n12=0312345678;C;1;2;3;4\r\n";
    let ini = IniIo::new(&utf16le(text));
    let lines = ini.get_match_number_lines("03-1234-5678");
    assert_eq!(lines, vec!["0=0312345678;A;1;2;3;4".to_string(), "12=0312345678;C;1;2;3;4".to_string()]);
    assert_eq!(ini.get_match_number_line("03-1234-5678"), "0=0312345678;A;1;2;3;4");
    assert_eq!(ini.get_match_number_line("777"), "");
    assert!(ini.get_match_number_lines("777").is_empty());
}

#[test]
fn ini_key_must_be_whole_number() {
    let ini = IniIo::new(&utf16le("0=1234;A;1;2;3;4\r\n"));
    assert_eq!(ini.get_match_number_line("123"), "");
}

#[test]
fn rewrite_line_with_wrong_field_count_is_empty() {
    assert_eq!(IniIo::make_new_number_line("0=1;A;2;3;4", "X"), "");
    assert_eq!(IniIo::make_new_number_line("0=1;A;2;3;4;5;6", "X"), "");
    assert_eq!(IniIo::make_new_number_line("", "X"), "");
}

#[test]
fn rewrite_line_strips_semicolons_from_name() {
    assert_eq!(IniIo::make_new_number_line("0=1;A;2;3;4;5", "X;Y"), "0=1;XY;2;3;4;5");
    assert_eq!(IniIo::make_new_number_line("0=1;;;;;", ""), "0=1;;;;;");
}

#[test]
fn replace_changes_first_occurrence_only() {
    let mut ini = IniIo::new(&utf16le("0=1;A;x;x;x;x\r\n1=1;A;x;x;x;x\r\n"));
    ini.replace("1;A;", "1;B;");
    assert_eq!(ini.data(), "0=1;B;x;x;x;x\r\n1=1;A;x;x;x;x\r\n");
    ini.replace("nothing", "else");
    assert_eq!(ini.data(), "0=1;B;x;x;x;x\r\n1=1;A;x;x;x;x\r\n");
}
