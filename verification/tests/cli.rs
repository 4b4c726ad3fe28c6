use spb2xml24::cli::{help_text, parse_args, parse_encoding, Outcome};
use spb2xml24::Encoding;

fn args(list: &[&str]) -> Vec<String> {
    list.iter().map(|s| s.to_string()).collect()
}

const VERSION: &str = "spb2xml24 0.1.0\n";

#[test]
fn parses_encodings() {
    assert_eq!(parse_encoding("UTF-8"), Ok(Encoding::Utf8));
    assert_eq!(parse_encoding("utf8"), Ok(Encoding::Utf8));
    assert_eq!(parse_encoding("Windows-1252"), Ok(Encoding::Windows1252));
    assert_eq!(parse_encoding("cp1252"), Ok(Encoding::Windows1252));
    assert_eq!(parse_encoding("ANSI"), Ok(Encoding::Windows1252));
    assert_eq!(
        parse_encoding("Latin1"),
        Err("unknown encoding 'latin1' (use utf-8 or windows-1252)".to_string())
    );
}

#[test]
fn parses_a_full_command_line() {
    match parse_args(&args(&["-r", "--propdefs", "D:\\defs", "-e", "ansi", "-v", "in", "out"]), VERSION)
        .unwrap()
    {
        Outcome::Run(o) => {
            assert_eq!(o.propdefs.as_deref(), Some("D:\\defs"));
            assert_eq!(o.out.as_deref(), Some("out"));
            assert_eq!(o.encoding, Encoding::Windows1252);
            assert!(o.recursive);
            assert!(o.verbose);
            assert_eq!(o.input, "in");
        },
        Outcome::Message(_) => panic!("expected a run"),
    }
}

#[test]
fn out_option_takes_precedence() {
    match parse_args(&args(&["in", "second", "-o", "explicit"]), VERSION).unwrap() {
        Outcome::Run(o) => {
            assert_eq!(o.out.as_deref(), Some("explicit"));
            assert_eq!(o.input, "in");
            assert_eq!(o.encoding, Encoding::Utf8);
        },
        Outcome::Message(_) => panic!("expected a run"),
    }
    match parse_args(&args(&["-"]), VERSION).unwrap() {
        Outcome::Run(o) => assert_eq!(o.input, "-"),
        Outcome::Message(_) => panic!("expected a run"),
    }
}

#[test]
fn prints_help_and_version() {
    match parse_args(&args(&[]), VERSION).unwrap() {
        Outcome::Message(m) => assert_eq!(m, help_text()),
        Outcome::Run(_) => panic!("expected help"),
    }
    match parse_args(&args(&["x", "--help"]), VERSION).unwrap() {
        Outcome::Message(m) => assert!(m.starts_with("spb2xml24 - decompile")),
        Outcome::Run(_) => panic!("expected help"),
    }
    match parse_args(&args(&["-V"]), VERSION).unwrap() {
        Outcome::Message(m) => assert_eq!(m, VERSION),
        Outcome::Run(_) => panic!("expected version"),
    }
}

#[test]
fn reports_argument_errors() {
    assert_eq!(parse_args(&args(&["-x"]), VERSION).err(), Some("unknown option: -x".to_string()));
    assert_eq!(
        parse_args(&args(&["in", "--out"]), VERSION).err(),
        Some("missing value for --out".to_string())
    );
    assert_eq!(
        parse_args(&args(&["a", "b", "c"]), VERSION).err(),
        Some("expected at most one input and one output path".to_string())
    );
    assert_eq!(
        parse_args(&args(&["-e", "koi8"]), VERSION).err(),
        Some("unknown encoding 'koi8' (use utf-8 or windows-1252)".to_string())
    );
}
