use vcf2microsip::cli::parse_command_line;

fn argv(items: &[&str]) -> Vec<String> {
    items.iter().map(|s| s.to_string()).collect()
}

#[test]
fn command_line_with_options_and_paths() {
    let cl = parse_command_line(&argv(&["-m", "-r", "-n", "dir/contacts.vcf", "dir/Contacts.xml"]), '\\');
    assert_eq!(cl.load_file_name, "dir\\contacts.vcf");
    assert_eq!(cl.save_file_name, "dir\\Contacts.xml");
    assert_eq!(cl.name_pattern, "%linitial% - %name% (%teltype%)");
    assert_eq!(cl.count, 2);
    assert!(!cl.is_help && cl.is_merge && cl.is_no_bup && cl.is_renew_logs && !cl.is_output_csv_agephone);
}

#[test]
fn command_line_with_template() {
    let cl = parse_command_line(&argv(&["--output-csv-agephone", "a.vcf", "b.csv", "%name%"]), '/');
    assert_eq!(cl.name_pattern, "%name%");
    assert_eq!(cl.count, 3);
    assert!(cl.is_output_csv_agephone && !cl.is_help);
}

#[test]
fn command_line_asks_for_help() {
    assert!(parse_command_line(&argv(&["--help", "a.vcf", "b.xml"]), '/').is_help);
    assert!(parse_command_line(&argv(&["a.vcf"]), '/').is_help);
    assert!(parse_command_line(&argv(&[]), '/').is_help);
    assert!(parse_command_line(&argv(&["a.vcf", "b.xml", "%name%", "extra"]), '/').is_help);
    assert!(!parse_command_line(&argv(&["a.vcf", "b.xml"]), '/').is_help);
}
