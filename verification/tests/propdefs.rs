use spb2xml24::propdefs::{normalize_guid, Bank, Kind};
use spb2xml24::scan::{find_blocks, parse_attrs, strip_comments};

fn chars(s: &str) -> Vec<char> {
    s.chars().collect()
}

fn text(v: &[char]) -> String {
    v.iter().collect()
}

const DEFS: &str = r#"<?xml version="1.0"?>
<!-- <SymbolDef name="Hidden" id="{00000009-0000-0000-0000-000000000000}"/> -->
<SymbolDef name="Demo" id="{000000AA-0000-0000-0000-000000000000}">
  <TypeDefs>
    <TypeDef name="Color" id="{0000000B-0000-0000-0000-000000000000}">
      <binding type="BYTE4"/>
    </TypeDef>
  </TypeDefs>
  <PropertyDefs>
    <PropertyDef name="Ref" id="{00000002-0000-0000-0000-000000000000}" type="GUID" xml_io="Attribute"/>
    <PropertyDef Name="Mode" ID=" {0000000C-0000-0000-0000-0000000000FF} " Type="Enum">
      <EnumVal xml_name="Off"/>
      <EnumVal name="On"></EnumVal>
    </PropertyDef>
    <PropertyDef name="NoId" type="LONG"/>
  </PropertyDefs>
  <SetDefs>
    <SetDef name="Root" id="{00000001-0000-0000-0000-000000000000}"/>
  </SetDefs>
</SymbolDef>
"#;

fn bank() -> Bank {
    Bank::from_sources(&vec![(DEFS.as_bytes().to_vec(), "demo".to_string())], "defs").unwrap()
}

#[test]
fn loads_every_definition_kind() {
    let bank = bank();
    assert_eq!(bank.len(), 4);
    assert!(!bank.is_empty());
    let color = bank.get("0000000b-0000-0000-0000-000000000000").unwrap();
    assert_eq!(color.kind, Kind::Type);
    assert_eq!(color.value_type, "BYTE4");
    let reference = bank.get("00000002-0000-0000-0000-000000000000").unwrap();
    assert_eq!(reference.kind, Kind::Property);
    assert!(reference.is_attribute);
    assert_eq!(reference.symbol, "Demo");
    let mode = bank.get("0000000c-0000-0000-0000-0000000000ff").unwrap();
    assert_eq!(mode.name, "Mode");
    assert_eq!(mode.value_type, "Enum");
    assert_eq!(mode.enum_values, vec!["Off".to_string(), "On".to_string()]);
    assert!(!mode.is_attribute);
    let root = bank.get("00000001-0000-0000-0000-000000000000").unwrap();
    assert_eq!(root.kind, Kind::PropertySet);
    assert!(bank.get("00000009-0000-0000-0000-000000000000").is_none());
}

#[test]
fn first_definition_wins() {
    let first = r#"<SymbolDef name="A"><SetDef name="One" id="{00000001-0000-0000-0000-000000000000}"/></SymbolDef>"#;
    let second = r#"<SymbolDef><SetDef name="Two" id="00000001-0000-0000-0000-000000000000"/><SetDef name="Three" id="{00000003-0000-0000-0000-000000000000}"/></SymbolDef>"#;
    let bank = Bank::from_sources(
        &vec![
            (first.as_bytes().to_vec(), "first".to_string()),
            (second.as_bytes().to_vec(), "second".to_string()),
        ],
        "defs",
    )
    .unwrap();
    assert_eq!(bank.len(), 2);
    assert_eq!(bank.get("00000001-0000-0000-0000-000000000000").unwrap().name, "One");
    let three = bank.get("00000003-0000-0000-0000-000000000000").unwrap();
    assert_eq!(three.symbol, "second");
}

#[test]
fn empty_bank_is_an_error() {
    let err = Bank::from_sources(&vec![(b"<nothing/>".to_vec(), "x".to_string())], "C:\\defs")
        .err()
        .unwrap();
    assert_eq!(err.message(), "no symbol definitions found under C:\\defs");
    assert!(Bank::from_sources(&vec![], "d").is_err());
}

#[test]
fn normalizes_guid_keys() {
    assert_eq!(
        text(&normalize_guid(&chars("  {ABCDEF01-0000-0000-0000-00000000000A}\t"))),
        "abcdef01-0000-0000-0000-00000000000a"
    );
    assert_eq!(text(&normalize_guid(&chars("{{x}}"))), "x");
}

#[test]
fn strips_comments() {
    assert_eq!(text(&strip_comments(&chars("a<!-- b -->c<!--d-->e"))), "ace");
    assert_eq!(text(&strip_comments(&chars("a<!-- unterminated"))), "a");
    assert_eq!(text(&strip_comments(&chars("plain"))), "plain");
}

#[test]
fn finds_blocks_but_not_longer_names() {
    let t = chars("<TypeDefs><TypeDef a='1'>body</TypeDef><TypeDef b=\"2\" /></TypeDefs>");
    let blocks = find_blocks(&t, "TypeDef");
    assert_eq!(blocks.len(), 2);
    assert_eq!(text(&blocks[0].0), " a='1'");
    assert_eq!(text(&blocks[0].1), "body");
    assert_eq!(text(&blocks[1].0), " b=\"2\" ");
    assert_eq!(text(&blocks[1].1), "");
    let unclosed = find_blocks(&chars("<X a=1>rest of text"), "X");
    assert_eq!(unclosed.len(), 1);
    assert_eq!(text(&unclosed[0].1), "rest of text");
}

#[test]
fn parses_attributes_tolerantly() {
    let attrs = parse_attrs(&chars(" name = \"A\" junk id='{1}' flag other=\"unterminated"));
    let pairs: Vec<(String, String)> =
        attrs.iter().map(|(k, v)| (text(k), text(v))).collect();
    assert_eq!(
        pairs,
        vec![
            ("name".to_string(), "A".to_string()),
            ("id".to_string(), "{1}".to_string()),
            ("other".to_string(), "unterminated".to_string()),
        ]
    );
}

#[test]
fn unicode_letters_continue_tag_names() {
    let t = chars("<TypeDefé a='1'/><TypeDef_x/><TypeDef b='2'/>");
    let blocks = find_blocks(&t, "TypeDef");
    assert_eq!(blocks.len(), 1);
    assert_eq!(text(&blocks[0].0), " b='2'");
}

#[test]
fn definition_files_may_hold_invalid_utf8() {
    let mut bytes = b"<SymbolDef name=\"S\xFF\"><SetDef name=\"R\" id=\"{00000001-0000-0000-0000-000000000000}\"/></SymbolDef>".to_vec();
    bytes.push(0xFE);
    let bank = Bank::from_sources(&vec![(bytes, "f".to_string())], "d").unwrap();
    assert_eq!(bank.get("00000001-0000-0000-0000-000000000000").unwrap().symbol, "S\u{FFFD}");
}

#[test]
fn scanning_keeps_existing_bindings() {
    let mut bank = bank();
    let more = r#"<SymbolDef name="More"><SetDef name="Other" id="{00000001-0000-0000-0000-000000000000}"/><SetDef name="New" id="{00000004-0000-0000-0000-000000000000}"/><SetDef name="Later" id="{00000004-0000-0000-0000-000000000000}"/></SymbolDef>"#;
    bank.scan_file(&chars(more), &chars("more"));
    assert_eq!(bank.len(), 5);
    let root = bank.get("00000001-0000-0000-0000-000000000000").unwrap();
    assert_eq!(root.name, "Root");
    assert_eq!(root.symbol, "Demo");
    let added = bank.get("00000004-0000-0000-0000-000000000000").unwrap();
    assert_eq!(added.name, "New");
    assert_eq!(added.symbol, "More");
}
