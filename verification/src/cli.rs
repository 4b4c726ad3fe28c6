//! Command line parsing: options, encodings and the help text.

use vstd::prelude::*;

use crate::text::{chars_of, lower_chars, lower_seq, push_all, push_str, string_from_chars};
use crate::xml::Encoding;

verus! {

pub open spec fn help() -> Seq<char> {
    "\
spb2xml24 - decompile MSFS 2024 SPB property files to XML

USAGE:
    spb2xml24 [OPTIONS] <input> [output]

ARGS:
    <input>     An .spb file or a directory of .spb files
    [output]    Output file, or output directory when <input> is a directory

OPTIONS:
    -s, --propdefs <dir>    Propdefs directory. Auto-detected from the MSFS 2024
                            install (Microsoft Store/Xbox or Steam) when omitted.
    -o, --out <path>        Output file or directory (same as the [output] arg)
    -e, --encoding <enc>    Output encoding: utf-8 (default) or windows-1252
    -r, --recursive         Recurse into subdirectories of a directory input
    -v, --verbose           Print each converted file
    -h, --help              Show this help
    -V, --version           Show version information

ENVIRONMENT:
    SPB2XML_PROPDEFS        Propdefs directory, used when --propdefs is omitted
                            and taking precedence over auto-detection.

EXAMPLES:
    spb2xml24 effect.spb
    spb2xml24 --propdefs \"D:\\Propdefs\\1.0\\Common\" effect.spb effect.xml
    spb2xml24 --recursive --out out_dir VisualEffectLib
"@
}

/// The help text printed by `--help` and when no input is given.
pub fn help_text() -> (s: &'static str)
    ensures
        s@ == help(),
{
    "\
spb2xml24 - decompile MSFS 2024 SPB property files to XML

USAGE:
    spb2xml24 [OPTIONS] <input> [output]

ARGS:
    <input>     An .spb file or a directory of .spb files
    [output]    Output file, or output directory when <input> is a directory

OPTIONS:
    -s, --propdefs <dir>    Propdefs directory. Auto-detected from the MSFS 2024
                            install (Microsoft Store/Xbox or Steam) when omitted.
    -o, --out <path>        Output file or directory (same as the [output] arg)
    -e, --encoding <enc>    Output encoding: utf-8 (default) or windows-1252
    -r, --recursive         Recurse into subdirectories of a directory input
    -v, --verbose           Print each converted file
    -h, --help              Show this help
    -V, --version           Show version information

ENVIRONMENT:
    SPB2XML_PROPDEFS        Propdefs directory, used when --propdefs is omitted
                            and taking precedence over auto-detection.

EXAMPLES:
    spb2xml24 effect.spb
    spb2xml24 --propdefs \"D:\\Propdefs\\1.0\\Common\" effect.spb effect.xml
    spb2xml24 --recursive --out out_dir VisualEffectLib
"
}

/// The encoding an `--encoding` value names, matched without regard to ASCII
/// case, or the message for an unknown name (which quotes it in lower case).
pub open spec fn encoding_named(value: Seq<char>) -> Result<Encoding, Seq<char>> {
    let v = lower_seq(value);
    if v == "utf-8"@ || v == "utf8"@ {
        Ok(Encoding::Utf8)
    } else if v == "windows-1252"@ || v == "windows1252"@ || v == "cp1252"@ || v == "1252"@ || v
        == "ansi"@ {
        Ok(Encoding::Windows1252)
    } else {
        Err("unknown encoding '"@ + v + "' (use utf-8 or windows-1252)"@)
    }
}

fn spells(v: &Vec<char>, name: &str) -> (b: bool)
    ensures
        b == (v@ == name@),
{
    crate::text::chars_eq(v, &chars_of(name))
}

/// Parse an `--encoding` value.
pub fn parse_encoding(value: &str) -> (r: Result<Encoding, String>)
    ensures
        match encoding_named(value@) {
            Ok(e) => r == Ok::<Encoding, String>(e),
            Err(m) => r is Err && r->Err_0@ == m,
        },
{
    let v = lower_chars(&chars_of(value));
    if spells(&v, "utf-8") || spells(&v, "utf8") {
        Ok(Encoding::Utf8)
    } else if spells(&v, "windows-1252") || spells(&v, "windows1252") || spells(&v, "cp1252") || spells(&v, "1252")
        || spells(&v, "ansi") {
        Ok(Encoding::Windows1252)
    } else {
        let mut msg: Vec<char> = Vec::new();
        push_str(&mut msg, "unknown encoding '");
        push_all(&mut msg, &v);
        push_str(&mut msg, "' (use utf-8 or windows-1252)");
        assert(msg@ =~= "unknown encoding '"@ + v@ + "' (use utf-8 or windows-1252)"@);
        Err(string_from_chars(&msg))
    }
}

} // verus!

verus! {

/// Parsed command line options.
pub struct Options {
    pub propdefs: Option<String>,
    pub out: Option<String>,
    pub encoding: Encoding,
    pub recursive: bool,
    pub verbose: bool,
    pub input: String,
}

/// What the command line asks for: a conversion, or a message to print.
pub enum Outcome {
    Run(Options),
    Message(String),
}

/// Options read so far.
pub struct ArgState {
    pub propdefs: Option<Seq<char>>,
    pub out: Option<Seq<char>>,
    pub encoding: Encoding,
    pub recursive: bool,
    pub verbose: bool,
    pub positional: Seq<Seq<char>>,
}

/// An [`Outcome`] with its texts taken as character sequences.
pub enum OutcomeView {
    Run {
        propdefs: Option<Seq<char>>,
        out: Option<Seq<char>>,
        encoding: Encoding,
        recursive: bool,
        verbose: bool,
        input: Seq<char>,
    },
    Message(Seq<char>),
}

pub open spec fn opt_view(o: Option<String>) -> Option<Seq<char>> {
    match o {
        Some(s) => Some(s@),
        None => None,
    }
}

impl View for Outcome {
    type V = OutcomeView;

    open spec fn view(&self) -> OutcomeView {
        match self {
            Outcome::Run(o) => OutcomeView::Run {
                propdefs: opt_view(o.propdefs),
                out: opt_view(o.out),
                encoding: o.encoding,
                recursive: o.recursive,
                verbose: o.verbose,
                input: o.input@,
            },
            Outcome::Message(m) => OutcomeView::Message(m@),
        }
    }
}

pub open spec fn initial_state() -> ArgState {
    ArgState {
        propdefs: None,
        out: None,
        encoding: Encoding::Utf8,
        recursive: false,
        verbose: false,
        positional: Seq::empty(),
    }
}

pub open spec fn missing_value_message(flag: Seq<char>) -> Seq<char> {
    "missing value for "@ + flag
}

/// The outcome once every argument has been read: at most two positional
/// paths, the first the input and the second the output unless `--out` gave
/// one; without an input, the help text.
pub open spec fn finished(st: ArgState) -> Result<OutcomeView, Seq<char>> {
    if st.positional.len() > 2 {
        Err("expected at most one input and one output path"@)
    } else if st.positional.len() == 0 {
        Ok(OutcomeView::Message(help()))
    } else {
        Ok(
            OutcomeView::Run {
                propdefs: st.propdefs,
                out: if st.out is None && st.positional.len() > 1 {
                    Some(st.positional[1])
                } else {
                    st.out
                },
                encoding: st.encoding,
                recursive: st.recursive,
                verbose: st.verbose,
                input: st.positional[0],
            },
        )
    }
}

/// The outcome of reading `args` from index `i` on, with the options `st`
/// read before it. `version` is the text `--version` prints.
pub open spec fn args_outcome(
    args: Seq<Seq<char>>,
    i: int,
    st: ArgState,
    version: Seq<char>,
) -> Result<OutcomeView, Seq<char>>
    decreases args.len() - i,
{
    if i < 0 || i >= args.len() {
        finished(st)
    } else {
        let a = args[i];
        if a == "-h"@ || a == "--help"@ {
            Ok(OutcomeView::Message(help()))
        } else if a == "-V"@ || a == "--version"@ {
            Ok(OutcomeView::Message(version))
        } else if a == "-r"@ || a == "--recursive"@ {
            args_outcome(args, i + 1, ArgState { recursive: true, ..st }, version)
        } else if a == "-v"@ || a == "--verbose"@ {
            args_outcome(args, i + 1, ArgState { verbose: true, ..st }, version)
        } else if a == "-s"@ || a == "--propdefs"@ {
            if i + 1 < args.len() {
                args_outcome(args, i + 2, ArgState { propdefs: Some(args[i + 1]), ..st }, version)
            } else {
                Err(missing_value_message(a))
            }
        } else if a == "-o"@ || a == "--out"@ {
            if i + 1 < args.len() {
                args_outcome(args, i + 2, ArgState { out: Some(args[i + 1]), ..st }, version)
            } else {
                Err(missing_value_message(a))
            }
        } else if a == "-e"@ || a == "--encoding"@ {
            if i + 1 < args.len() {
                match encoding_named(args[i + 1]) {
                    Ok(e) => args_outcome(args, i + 2, ArgState { encoding: e, ..st }, version),
                    Err(m) => Err(m),
                }
            } else {
                Err(missing_value_message(a))
            }
        } else if a.len() > 0 && a[0] == '-' && a != "-"@ {
            Err("unknown option: "@ + a)
        } else {
            args_outcome(args, i + 1, ArgState { positional: st.positional.push(a), ..st }, version)
        }
    }
}

pub open spec fn strings_view(v: Seq<String>) -> Seq<Seq<char>> {
    v.map_values(|s: String| s@)
}

fn copy_string(s: &String) -> (r: String)
    ensures
        r@ == s@,
{
    string_from_chars(&chars_of(s.as_str()))
}

fn missing_value(flag: &String) -> (m: String)
    ensures
        m@ == missing_value_message(flag@),
{
    let mut msg: Vec<char> = Vec::new();
    push_str(&mut msg, "missing value for ");
    push_str(&mut msg, flag.as_str());
    string_from_chars(&msg)
}

/// Parse the command line arguments (without the program name).
pub fn parse_args(args: &Vec<String>, version: &str) -> (r: Result<Outcome, String>)
    ensures
        match args_outcome(strings_view(args@), 0, initial_state(), version@) {
            Ok(o) => r is Ok && r->Ok_0@ == o,
            Err(m) => r is Err && r->Err_0@ == m,
        },
{
    let ghost av = strings_view(args@);
    let mut propdefs: Option<String> = None;
    let mut out: Option<String> = None;
    let mut encoding = Encoding::Utf8;
    let mut recursive = false;
    let mut verbose = false;
    let mut positional: Vec<String> = Vec::new();
    let mut i: usize = 0;
    assert(strings_view(positional@) =~= Seq::<Seq<char>>::empty());
    while i < args.len()
        invariant
            i <= args.len(),
            av == strings_view(args@),
            args_outcome(av, i as int, ArgState {
                propdefs: opt_view(propdefs),
                out: opt_view(out),
                encoding,
                recursive,
                verbose,
                positional: strings_view(positional@),
            }, version@) == args_outcome(av, 0, initial_state(), version@),
        decreases args.len() - i,
    {
        let a = chars_of(args[i].as_str());
        assert(av[i as int] == a@);
        if spells(&a, "-h") || spells(&a, "--help") {
            return Ok(Outcome::Message(string_from_chars(&chars_of(help_text()))));
        } else if spells(&a, "-V") || spells(&a, "--version") {
            return Ok(Outcome::Message(string_from_chars(&chars_of(version))));
        } else if spells(&a, "-r") || spells(&a, "--recursive") {
            recursive = true;
            i = i + 1;
        } else if spells(&a, "-v") || spells(&a, "--verbose") {
            verbose = true;
            i = i + 1;
        } else if spells(&a, "-s") || spells(&a, "--propdefs") {
            if i + 1 < args.len() {
                assert(av[i + 1] == args@[i + 1]@);
                propdefs = Some(copy_string(&args[i + 1]));
                i = i + 2;
            } else {
                return Err(missing_value(&args[i]));
            }
        } else if spells(&a, "-o") || spells(&a, "--out") {
            if i + 1 < args.len() {
                assert(av[i + 1] == args@[i + 1]@);
                out = Some(copy_string(&args[i + 1]));
                i = i + 2;
            } else {
                return Err(missing_value(&args[i]));
            }
        } else if spells(&a, "-e") || spells(&a, "--encoding") {
            if i + 1 < args.len() {
                assert(av[i + 1] == args@[i + 1]@);
                match parse_encoding(args[i + 1].as_str()) {
                    Ok(e) => {
                        encoding = e;
                        i = i + 2;
                    },
                    Err(m) => return Err(m),
                }
            } else {
                return Err(missing_value(&args[i]));
            }
        } else if a.len() > 0 && a[0] == '-' && !spells(&a, "-") {
            let mut msg: Vec<char> = Vec::new();
            push_str(&mut msg, "unknown option: ");
            push_all(&mut msg, &a);
            return Err(string_from_chars(&msg));
        } else {
            let ghost prev = strings_view(positional@);
            positional.push(copy_string(&args[i]));
            assert(strings_view(positional@) =~= prev.push(a@));
            i = i + 1;
        }
    }
    if positional.len() > 2 {
        return Err(string_from_chars(&chars_of("expected at most one input and one output path")));
    }
    if positional.len() == 0 {
        return Ok(Outcome::Message(string_from_chars(&chars_of(help_text()))));
    }
    if out.is_none() && positional.len() > 1 {
        out = Some(copy_string(&positional[1]));
    }
    let input = copy_string(&positional[0]);
    Ok(Outcome::Run(Options { propdefs, out, encoding, recursive, verbose, input }))
}

} // verus!

verus! {

proof fn lemma_args_shift(a: Seq<Seq<char>>, rest: Seq<Seq<char>>, i: int, st: ArgState, version: Seq<char>)
    requires
        0 <= i,
    ensures
        args_outcome(a + rest, a.len() + i, st, version) == args_outcome(rest, i, st, version),
    decreases rest.len() - i,
{
    let all = a + rest;
    let j = a.len() + i;
    if i < rest.len() {
        assert(all[j] == rest[i]);
        if i + 1 < rest.len() {
            assert(all[j + 1] == rest[i + 1]);
        }
        let x = rest[i];
        lemma_args_shift(a, rest, i + 1, ArgState { recursive: true, ..st }, version);
        lemma_args_shift(a, rest, i + 1, ArgState { verbose: true, ..st }, version);
        lemma_args_shift(a, rest, i + 1, ArgState { positional: st.positional.push(x), ..st }, version);
        if i + 1 < rest.len() {
            let y = rest[i + 1];
            lemma_args_shift(a, rest, i + 2, ArgState { propdefs: Some(y), ..st }, version);
            lemma_args_shift(a, rest, i + 2, ArgState { out: Some(y), ..st }, version);
            match encoding_named(y) {
                Ok(e) => lemma_args_shift(a, rest, i + 2, ArgState { encoding: e, ..st }, version),
                Err(_) => {},
            }
        }
    }
}

/// Once `--recursive` or `--verbose` has been read, the run that the command
/// line describes, if it describes one, keeps that switch on.
pub proof fn switches_stay_on(args: Seq<Seq<char>>, i: int, st: ArgState, version: Seq<char>)
    ensures
        st.recursive ==> (args_outcome(args, i, st, version) matches Ok(OutcomeView::Run { recursive, .. })
            ==> recursive),
        st.verbose ==> (args_outcome(args, i, st, version) matches Ok(OutcomeView::Run { verbose, .. })
            ==> verbose),
    decreases args.len() - i,
{
    if 0 <= i < args.len() {
        let x = args[i];
        switches_stay_on(args, i + 1, ArgState { recursive: true, ..st }, version);
        switches_stay_on(args, i + 1, ArgState { verbose: true, ..st }, version);
        switches_stay_on(args, i + 1, ArgState { positional: st.positional.push(x), ..st }, version);
        if i + 1 < args.len() {
            let y = args[i + 1];
            switches_stay_on(args, i + 2, ArgState { propdefs: Some(y), ..st }, version);
            switches_stay_on(args, i + 2, ArgState { out: Some(y), ..st }, version);
            match encoding_named(y) {
                Ok(e) => switches_stay_on(args, i + 2, ArgState { encoding: e, ..st }, version),
                Err(_) => {},
            }
        }
    }
}

/// What an option at the head of the command line does, whatever follows
/// it: `-h`/`--help` and `-V`/`--version` answer at once with the help text
/// or the version; `-r`/`--recursive` and `-v`/`--verbose` switch recursion
/// and verbose output on; `-s`/`--propdefs`, `-o`/`--out` and
/// `-e`/`--encoding` take the next argument as the propdefs directory, the
/// output path or the encoding name. The rest of the line is then read as if
/// it stood alone, with that option in force. Each long spelling acts as its
/// short one.
pub proof fn leading_options(rest: Seq<Seq<char>>, st: ArgState, version: Seq<char>, x: Seq<char>)
    ensures
        args_outcome(seq!["-h"@] + rest, 0, st, version) == Ok::<OutcomeView, Seq<char>>(
            OutcomeView::Message(help()),
        ),
        args_outcome(seq!["--help"@] + rest, 0, st, version) == Ok::<OutcomeView, Seq<char>>(
            OutcomeView::Message(help()),
        ),
        args_outcome(seq!["-V"@] + rest, 0, st, version) == Ok::<OutcomeView, Seq<char>>(
            OutcomeView::Message(version),
        ),
        args_outcome(seq!["--version"@] + rest, 0, st, version) == Ok::<OutcomeView, Seq<char>>(
            OutcomeView::Message(version),
        ),
        args_outcome(seq!["-r"@] + rest, 0, st, version) == args_outcome(
            rest,
            0,
            ArgState { recursive: true, ..st },
            version,
        ),
        args_outcome(seq!["--recursive"@] + rest, 0, st, version) == args_outcome(
            rest,
            0,
            ArgState { recursive: true, ..st },
            version,
        ),
        args_outcome(seq!["-v"@] + rest, 0, st, version) == args_outcome(
            rest,
            0,
            ArgState { verbose: true, ..st },
            version,
        ),
        args_outcome(seq!["--verbose"@] + rest, 0, st, version) == args_outcome(
            rest,
            0,
            ArgState { verbose: true, ..st },
            version,
        ),
        args_outcome(seq!["-s"@, x] + rest, 0, st, version) == args_outcome(
            rest,
            0,
            ArgState { propdefs: Some(x), ..st },
            version,
        ),
        args_outcome(seq!["--propdefs"@, x] + rest, 0, st, version) == args_outcome(
            rest,
            0,
            ArgState { propdefs: Some(x), ..st },
            version,
        ),
        args_outcome(seq!["-o"@, x] + rest, 0, st, version) == args_outcome(
            rest,
            0,
            ArgState { out: Some(x), ..st },
            version,
        ),
        args_outcome(seq!["--out"@, x] + rest, 0, st, version) == args_outcome(
            rest,
            0,
            ArgState { out: Some(x), ..st },
            version,
        ),
        args_outcome(seq!["-e"@, x] + rest, 0, st, version) == match encoding_named(x) {
            Ok(e) => args_outcome(rest, 0, ArgState { encoding: e, ..st }, version),
            Err(m) => Err(m),
        },
        args_outcome(seq!["--encoding"@, x] + rest, 0, st, version) == match encoding_named(x) {
            Ok(e) => args_outcome(rest, 0, ArgState { encoding: e, ..st }, version),
            Err(m) => Err(m),
        },
{
    reveal_strlit("-h");
    reveal_strlit("--help");
    reveal_strlit("-V");
    reveal_strlit("--version");
    reveal_strlit("-r");
    reveal_strlit("--recursive");
    reveal_strlit("-v");
    reveal_strlit("--verbose");
    reveal_strlit("-s");
    reveal_strlit("--propdefs");
    reveal_strlit("-o");
    reveal_strlit("--out");
    reveal_strlit("-e");
    reveal_strlit("--encoding");
    assert("-V"@ != "-h"@) by { assert("-V"@[1] != "-h"@[1]); }
    assert("-r"@ != "-h"@) by { assert("-r"@[1] != "-h"@[1]); }
    assert("-r"@ != "-V"@) by { assert("-r"@[1] != "-V"@[1]); }
    assert("-v"@ != "-h"@) by { assert("-v"@[1] != "-h"@[1]); }
    assert("-v"@ != "-V"@) by { assert("-v"@[1] != "-V"@[1]); }
    assert("-v"@ != "-r"@) by { assert("-v"@[1] != "-r"@[1]); }
    assert("--verbose"@ != "--version"@) by { assert("--verbose"@[5] != "--version"@[5]); }
    assert("-s"@ != "-h"@) by { assert("-s"@[1] != "-h"@[1]); }
    assert("-s"@ != "-V"@) by { assert("-s"@[1] != "-V"@[1]); }
    assert("-s"@ != "-r"@) by { assert("-s"@[1] != "-r"@[1]); }
    assert("-s"@ != "-v"@) by { assert("-s"@[1] != "-v"@[1]); }
    assert("-o"@ != "-h"@) by { assert("-o"@[1] != "-h"@[1]); }
    assert("-o"@ != "-V"@) by { assert("-o"@[1] != "-V"@[1]); }
    assert("-o"@ != "-r"@) by { assert("-o"@[1] != "-r"@[1]); }
    assert("-o"@ != "-v"@) by { assert("-o"@[1] != "-v"@[1]); }
    assert("-o"@ != "-s"@) by { assert("-o"@[1] != "-s"@[1]); }
    assert("-e"@ != "-h"@) by { assert("-e"@[1] != "-h"@[1]); }
    assert("-e"@ != "-V"@) by { assert("-e"@[1] != "-V"@[1]); }
    assert("-e"@ != "-r"@) by { assert("-e"@[1] != "-r"@[1]); }
    assert("-e"@ != "-v"@) by { assert("-e"@[1] != "-v"@[1]); }
    assert("-e"@ != "-s"@) by { assert("-e"@[1] != "-s"@[1]); }
    assert("-e"@ != "-o"@) by { assert("-e"@[1] != "-o"@[1]); }
    assert("--encoding"@ != "--propdefs"@) by { assert("--encoding"@[2] != "--propdefs"@[2]); }
    lemma_args_shift(seq!["-r"@], rest, 0, ArgState { recursive: true, ..st }, version);
    lemma_args_shift(seq!["--recursive"@], rest, 0, ArgState { recursive: true, ..st }, version);
    lemma_args_shift(seq!["-v"@], rest, 0, ArgState { verbose: true, ..st }, version);
    lemma_args_shift(seq!["--verbose"@], rest, 0, ArgState { verbose: true, ..st }, version);
    lemma_args_shift(seq!["-s"@, x], rest, 0, ArgState { propdefs: Some(x), ..st }, version);
    lemma_args_shift(seq!["--propdefs"@, x], rest, 0, ArgState { propdefs: Some(x), ..st }, version);
    lemma_args_shift(seq!["-o"@, x], rest, 0, ArgState { out: Some(x), ..st }, version);
    lemma_args_shift(seq!["--out"@, x], rest, 0, ArgState { out: Some(x), ..st }, version);
    match encoding_named(x) {
        Ok(e) => {
            lemma_args_shift(seq!["-e"@, x], rest, 0, ArgState { encoding: e, ..st }, version);
            lemma_args_shift(seq!["--encoding"@, x], rest, 0, ArgState { encoding: e, ..st }, version);
        },
        Err(_) => {},
    }
    assert((seq!["-r"@] + rest)[0] == "-r"@);
    assert((seq!["--recursive"@] + rest)[0] == "--recursive"@);
    assert((seq!["-v"@] + rest)[0] == "-v"@);
    assert((seq!["--verbose"@] + rest)[0] == "--verbose"@);
    assert((seq!["-h"@] + rest)[0] == "-h"@);
    assert((seq!["--help"@] + rest)[0] == "--help"@);
    assert((seq!["-V"@] + rest)[0] == "-V"@);
    assert((seq!["--version"@] + rest)[0] == "--version"@);
    assert((seq!["-s"@, x] + rest)[0] == "-s"@ && (seq!["-s"@, x] + rest)[1] == x);
    assert((seq!["--propdefs"@, x] + rest)[0] == "--propdefs"@ && (seq!["--propdefs"@, x] + rest)[1] == x);
    assert((seq!["-o"@, x] + rest)[0] == "-o"@ && (seq!["-o"@, x] + rest)[1] == x);
    assert((seq!["--out"@, x] + rest)[0] == "--out"@ && (seq!["--out"@, x] + rest)[1] == x);
    assert((seq!["-e"@, x] + rest)[0] == "-e"@ && (seq!["-e"@, x] + rest)[1] == x);
    assert((seq!["--encoding"@, x] + rest)[0] == "--encoding"@ && (seq!["--encoding"@, x] + rest)[1] == x);
}

} // verus!
