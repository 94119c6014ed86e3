//! The resolved run configuration that the command line produces.
use vstd::prelude::*;

verus! {

/// What a configuration holds.
pub struct ArgsView {
    pub load_file_name: Seq<char>,
    pub save_file_name: Seq<char>,
    pub microsip_ini_file: Seq<char>,
    pub name_pattern_normal: Seq<char>,
    pub is_help: bool,
    pub is_merge: bool,
    pub is_no_bup: bool,
    pub is_renew_logs: bool,
    pub is_output_csv_agephone: bool,
}

/// Source, destination and log-store paths, the name template and the flags.
#[derive(Debug)]
pub struct Args {
    load_file_name: String,
    save_file_name: String,
    microsip_ini_file: String,
    name_pattern_normal: String,
    is_help: bool,
    is_merge: bool,
    is_no_bup: bool,
    is_renew_logs: bool,
    is_output_csv_agephone: bool,
}

impl View for Args {
    type V = ArgsView;

    closed spec fn view(&self) -> ArgsView {
        ArgsView {
            load_file_name: self.load_file_name@,
            save_file_name: self.save_file_name@,
            microsip_ini_file: self.microsip_ini_file@,
            name_pattern_normal: self.name_pattern_normal@,
            is_help: self.is_help,
            is_merge: self.is_merge,
            is_no_bup: self.is_no_bup,
            is_renew_logs: self.is_renew_logs,
            is_output_csv_agephone: self.is_output_csv_agephone,
        }
    }
}

impl Args {
    /// A configuration holding exactly the given values.
    pub fn new(
        load_file_name: String,
        save_file_name: String,
        microsip_ini_file: String,
        name_pattern_normal: String,
        is_help: bool,
        is_merge: bool,
        is_no_bup: bool,
        is_renew_logs: bool,
        is_output_csv_agephone: bool,
    ) -> (r: Args)
        ensures
            r@ == (ArgsView {
                load_file_name: load_file_name@,
                save_file_name: save_file_name@,
                microsip_ini_file: microsip_ini_file@,
                name_pattern_normal: name_pattern_normal@,
                is_help,
                is_merge,
                is_no_bup,
                is_renew_logs,
                is_output_csv_agephone,
            }),
    {
        Args {
            load_file_name,
            save_file_name,
            microsip_ini_file,
            name_pattern_normal,
            is_help,
            is_merge,
            is_no_bup,
            is_renew_logs,
            is_output_csv_agephone,
        }
    }

    pub fn load_file_name(&self) -> (r: &str)
        ensures
            r@ == self@.load_file_name,
    {
        self.load_file_name.as_str()
    }

    pub fn save_file_name(&self) -> (r: &str)
        ensures
            r@ == self@.save_file_name,
    {
        self.save_file_name.as_str()
    }

    pub fn microsip_ini_file(&self) -> (r: &str)
        ensures
            r@ == self@.microsip_ini_file,
    {
        self.microsip_ini_file.as_str()
    }

    pub fn name_pattern_normal(&self) -> (r: &str)
        ensures
            r@ == self@.name_pattern_normal,
    {
        self.name_pattern_normal.as_str()
    }

    pub fn is_help(&self) -> (r: bool)
        ensures
            r == self@.is_help,
    {
        self.is_help
    }

    pub fn is_merge(&self) -> (r: bool)
        ensures
            r == self@.is_merge,
    {
        self.is_merge
    }

    pub fn is_no_bup(&self) -> (r: bool)
        ensures
            r == self@.is_no_bup,
    {
        self.is_no_bup
    }

    pub fn is_renew_logs(&self) -> (r: bool)
        ensures
            r == self@.is_renew_logs,
    {
        self.is_renew_logs
    }

    pub fn is_output_csv_agephone(&self) -> (r: bool)
        ensures
            r == self@.is_output_csv_agephone,
    {
        self.is_output_csv_agephone
    }
}

} // verus!
