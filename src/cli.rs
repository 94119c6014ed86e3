//! The walk over command-line arguments: option flags and positional values.
use vstd::prelude::*;
use crate::text::{chars_of, replace_all, replace_spec, same_chars, string_of};

verus! {

/// What the argument walk gathers.
pub struct CommandLineView {
    pub load_file_name: Seq<char>,
    pub save_file_name: Seq<char>,
    pub name_pattern: Seq<char>,
    pub count: nat,
    pub is_help: bool,
    pub is_merge: bool,
    pub is_no_bup: bool,
    pub is_renew_logs: bool,
    pub is_output_csv_agephone: bool,
}

/// Options and positional values read from the command line.
#[derive(Debug)]
pub struct CommandLine {
    pub load_file_name: String,
    pub save_file_name: String,
    pub name_pattern: String,
    pub count: usize,
    pub is_help: bool,
    pub is_merge: bool,
    pub is_no_bup: bool,
    pub is_renew_logs: bool,
    pub is_output_csv_agephone: bool,
}

impl View for CommandLine {
    type V = CommandLineView;

    open spec fn view(&self) -> CommandLineView {
        CommandLineView {
            load_file_name: self.load_file_name@,
            save_file_name: self.save_file_name@,
            name_pattern: self.name_pattern@,
            count: self.count as nat,
            is_help: self.is_help,
            is_merge: self.is_merge,
            is_no_bup: self.is_no_bup,
            is_renew_logs: self.is_renew_logs,
            is_output_csv_agephone: self.is_output_csv_agephone,
        }
    }
}

/// Which option an argument is: 1 help, 2 merge, 3 no backup, 4 renew logs,
/// 5 AGEphone list; 0 for a positional value.
pub open spec fn option_kind(a: Seq<char>) -> int {
    if a == "-h"@ || a == "-v"@ || a == "--help"@ || a == "--version"@ {
        1
    } else if a == "-m"@ || a == "--merge"@ {
        2
    } else if a == "-n"@ || a == "--no-bup"@ {
        3
    } else if a == "-r"@ || a == "--renew-logs"@ {
        4
    } else if a == "-ca"@ || a == "--output-csv-agephone"@ {
        5
    } else {
        0
    }
}

/// The name template used when none is given.
pub open spec fn default_pattern() -> Seq<char> {
    "%linitial% - %name% (%teltype%)"@
}

/// A path argument with each `/` written as `sep`.
pub open spec fn with_separator(a: Seq<char>, sep: char) -> Seq<char> {
    replace_spec(a, seq!['/'], seq![sep])
}

/// The walk's state before any argument.
pub open spec fn initial_view() -> CommandLineView {
    CommandLineView {
        load_file_name: Seq::empty(),
        save_file_name: Seq::empty(),
        name_pattern: default_pattern(),
        count: 0,
        is_help: false,
        is_merge: false,
        is_no_bup: false,
        is_renew_logs: false,
        is_output_csv_agephone: false,
    }
}

/// The walk over `args[i..]` from state `st`: a help option or a fourth
/// positional value asks for help and ends the walk; the positional values
/// are the export path, the contact-list path and the name template.
pub open spec fn walk(args: Seq<Seq<char>>, sep: char, i: int, st: CommandLineView) -> CommandLineView
    decreases args.len() - i,
{
    if i < 0 || i >= args.len() {
        st
    } else {
        let a = args[i];
        let k = option_kind(a);
        if k == 1 {
            CommandLineView { is_help: true, ..st }
        } else if k == 2 {
            walk(args, sep, i + 1, CommandLineView { is_merge: true, ..st })
        } else if k == 3 {
            walk(args, sep, i + 1, CommandLineView { is_no_bup: true, ..st })
        } else if k == 4 {
            walk(args, sep, i + 1, CommandLineView { is_renew_logs: true, ..st })
        } else if k == 5 {
            walk(args, sep, i + 1, CommandLineView { is_output_csv_agephone: true, ..st })
        } else if st.count == 0 {
            walk(
                args,
                sep,
                i + 1,
                CommandLineView { load_file_name: with_separator(a, sep), count: 1, ..st },
            )
        } else if st.count == 1 {
            walk(
                args,
                sep,
                i + 1,
                CommandLineView { save_file_name: with_separator(a, sep), count: 2, ..st },
            )
        } else if st.count == 2 {
            walk(args, sep, i + 1, CommandLineView { name_pattern: a, count: 3, ..st })
        } else {
            CommandLineView { is_help: true, ..st }
        }
    }
}

/// The command line `args` read with path separator `sep`; help is asked
/// for unless two or three positional values were given.
pub open spec fn command_line_spec(args: Seq<Seq<char>>, sep: char) -> CommandLineView {
    let st = walk(args, sep, 0, initial_view());
    if st.count < 2 || st.count > 4 {
        CommandLineView { is_help: true, ..st }
    } else {
        st
    }
}

fn is_one_of(a: &Vec<char>, x: &str, y: &str) -> (r: bool)
    ensures
        r == (a@ == x@ || a@ == y@),
{
    same_chars(a, &chars_of(x)) || same_chars(a, &chars_of(y))
}

fn option_kind_exec(a: &Vec<char>) -> (r: u8)
    ensures
        r as int == option_kind(a@),
{
    if is_one_of(a, "-h", "-v") || is_one_of(a, "--help", "--version") {
        1
    } else if is_one_of(a, "-m", "--merge") {
        2
    } else if is_one_of(a, "-n", "--no-bup") {
        3
    } else if is_one_of(a, "-r", "--renew-logs") {
        4
    } else if is_one_of(a, "-ca", "--output-csv-agephone") {
        5
    } else {
        0
    }
}

/// Reads the options and positional values of `args` (the program name
/// left out), writing `/` in paths as `sep`.
pub fn parse_command_line(args: &Vec<String>, sep: char) -> (r: CommandLine)
    ensures
        r@ == command_line_spec(args@.map_values(|s: String| s@), sep),
{
    let ghost av = args@.map_values(|s: String| s@);
    let mut slash: Vec<char> = Vec::new();
    slash.push('/');
    let mut sepv: Vec<char> = Vec::new();
    sepv.push(sep);
    assert(slash@ =~= seq!['/']);
    assert(sepv@ =~= seq![sep]);
    let mut st = CommandLine {
        load_file_name: String::new(),
        save_file_name: String::new(),
        name_pattern: string_of(&chars_of("%linitial% - %name% (%teltype%)")),
        count: 0,
        is_help: false,
        is_merge: false,
        is_no_bup: false,
        is_renew_logs: false,
        is_output_csv_agephone: false,
    };
    assert(st@ == initial_view());
    let mut done = false;
    let mut i: usize = 0;
    while i < args.len() && !done
        invariant
            i <= args.len(),
            av == args@.map_values(|s: String| s@),
            slash@ == seq!['/'],
            sepv@ == seq![sep],
            st.count <= 3,
            done ==> st@ == walk(av, sep, 0, initial_view()),
            !done ==> walk(av, sep, i as int, st@) == walk(av, sep, 0, initial_view()),
        decreases args.len() - i,
    {
        let a = chars_of(args[i].as_str());
        assert(av[i as int] == a@);
        let k = option_kind_exec(&a);
        if k == 1 {
            st.is_help = true;
            done = true;
        } else if k == 2 {
            st.is_merge = true;
        } else if k == 3 {
            st.is_no_bup = true;
        } else if k == 4 {
            st.is_renew_logs = true;
        } else if k == 5 {
            st.is_output_csv_agephone = true;
        } else if st.count == 0 {
            st.load_file_name = string_of(&replace_all(&a, &slash, &sepv));
            st.count = 1;
        } else if st.count == 1 {
            st.save_file_name = string_of(&replace_all(&a, &slash, &sepv));
            st.count = 2;
        } else if st.count == 2 {
            st.name_pattern = string_of(&a);
            st.count = 3;
        } else {
            st.is_help = true;
            done = true;
        }
        i = i + 1;
    }
    if st.count < 2 {
        st.is_help = true;
    }
    st
}

} // verus!
