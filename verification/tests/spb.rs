use spb2xml24::spb::{join_fields, parse};
use spb2xml24::xml::{render, Encoding, Node};
use spb2xml24::{Bank, Element, Scalar, TextTable};

const PROPDEFS: &str = r#"<?xml version="1.0" encoding="utf-8"?>
<SymbolDef name="Demo" id="{000000AA-0000-0000-0000-000000000000}">
  <PropertyDefs>
    <PropertyDef name="Ref"   id="{00000002-0000-0000-0000-000000000000}" type="GUID" xml_io="attribute"/>
    <PropertyDef name="Scale" id="{00000003-0000-0000-0000-000000000000}" type="FLOAT"/>
    <PropertyDef name="Rate"  id="{00000004-0000-0000-0000-000000000000}" type="FLOAT"/>
    <PropertyDef name="Flag"  id="{00000005-0000-0000-0000-000000000000}" type="BOOL"/>
  </PropertyDefs>
  <SetDefs>
    <SetDef name="Root" id="{00000001-0000-0000-0000-000000000000}"/>
  </SetDefs>
</SymbolDef>
"#;

const MORE: &str = r#"
<SymbolDef name="Extra">
  <TypeDef name="Kinds" id="{00000020-0000-0000-0000-000000000000}"/>
  <PropertyDef name="Pair" id="{00000021-0000-0000-0000-000000000000}" type="LONG2"/>
  <PropertyDef name="Bytes" id="{00000022-0000-0000-0000-000000000000}" type="byte4"/>
  <PropertyDef name="Mode" id="{00000023-0000-0000-0000-000000000000}" type="ENUM">
    <EnumVal name="Off"/><EnumVal name="On"/>
  </PropertyDef>
  <PropertyDef name="Odd" id="{00000024-0000-0000-0000-000000000000}" type="Matrix"/>
  <PropertyDef name="Label" id="{00000025-0000-0000-0000-000000000000}" type="Text"/>
  <PropertyDef name="Curve" id="{00000026-0000-0000-0000-000000000000}" type="BEZIERCURVE"/>
  <PropertyDef name="Stamp" id="{00000027-0000-0000-0000-000000000000}" type="FILETIME"/>
  <PropertyDef name="Color" id="{00000028-0000-0000-0000-000000000000}" type="INPUTCOLOR"/>
  <PropertyDef name="Angles" id="{00000029-0000-0000-0000-000000000000}" type="PBH"/>
  <PropertyDef name="Where" id="{0000002A-0000-0000-0000-000000000000}" type="LLA"/>
  <PropertyDef name="Vec4" id="{0000002B-0000-0000-0000-000000000000}" type="float4"/>
  <PropertyDef name="Trail " id="{0000002C-0000-0000-0000-000000000000}" type="ULONG"/>
  <SetDef name="Group" id="{0000002D-0000-0000-0000-000000000000}"/>
</SymbolDef>
"#;

const EXPECTED: &str = "\
<?xml version=\"1.0\" encoding=\"utf-8\"?>
<Demo.Root Ref=\"{11223344-5566-7788-99AA-BBCCDDEEFF00}\">
  <Scale>1.500</Scale>
  <Rate>{00000000-0000-0000-0000-000000000000},2.500</Rate>
  <Flag>true</Flag>
</Demo.Root>
";

/// Parse a canonical GUID string into the 16 byte .NET little endian layout.
fn guid_le(canonical: &str) -> [u8; 16] {
    let hex: String = canonical.chars().filter(|c| *c != '-').collect();
    let b: Vec<u8> = (0..16)
        .map(|i| u8::from_str_radix(&hex[i * 2..i * 2 + 2], 16).unwrap())
        .collect();
    [
        b[3], b[2], b[1], b[0], b[5], b[4], b[7], b[6], b[8], b[9], b[10], b[11], b[12], b[13],
        b[14], b[15],
    ]
}

/// Minimal builder for little endian SPB byte streams.
#[derive(Default)]
struct Spb {
    bytes: Vec<u8>,
}

impl Spb {
    fn u16(&mut self, v: u16) -> &mut Self {
        self.bytes.extend_from_slice(&v.to_le_bytes());
        self
    }
    fn i32(&mut self, v: i32) -> &mut Self {
        self.bytes.extend_from_slice(&v.to_le_bytes());
        self
    }
    fn u32(&mut self, v: u32) -> &mut Self {
        self.bytes.extend_from_slice(&v.to_le_bytes());
        self
    }
    fn i64(&mut self, v: i64) -> &mut Self {
        self.bytes.extend_from_slice(&v.to_le_bytes());
        self
    }
    fn f32(&mut self, v: f32) -> &mut Self {
        self.bytes.extend_from_slice(&v.to_le_bytes());
        self
    }
    fn raw(&mut self, v: &[u8]) -> &mut Self {
        self.bytes.extend_from_slice(v);
        self
    }
    fn guid(&mut self, canonical: &str) -> &mut Self {
        self.bytes.extend_from_slice(&guid_le(canonical));
        self
    }
}

fn id(n: u32) -> String {
    format!("{:08x}-0000-0000-0000-000000000000", n)
}

/// A stream with the given tag records (GUID number, size) and body.
fn stream(tags: &[(u32, i32)], body: &[u8]) -> Vec<u8> {
    let mut spb = Spb::default();
    spb.u16(60332);
    for i in 0..12 {
        spb.i32(if i == 6 { tags.len() as i32 + 1 } else { 0 });
    }
    for (n, size) in tags {
        spb.guid(&id(*n)).i32(*size);
    }
    spb.raw(body);
    spb.bytes
}

fn bank() -> Bank {
    Bank::from_sources(
        &vec![
            (PROPDEFS.as_bytes().to_vec(), "demo".to_string()),
            (MORE.as_bytes().to_vec(), "more".to_string()),
        ],
        "defs",
    )
    .unwrap()
}

fn table() -> TextTable {
    let mut raw = Vec::new();
    for code in 0..256usize {
        raw.extend_from_slice(&250u16.to_le_bytes());
        for pos in 0..250usize {
            raw.push(((code + pos) % 256) as u8);
        }
    }
    TextTable::from_table(&raw).unwrap()
}

fn dec3(v: f64) -> String {
    let t = format!("{:.3}", v);
    if t == "-0.000" {
        "0.000".to_string()
    } else {
        t
    }
}

fn field(s: &Scalar) -> String {
    match s {
        Scalar::Text(t) => t.clone(),
        Scalar::Single(b) => dec3(f32::from_bits(*b) as f64),
        Scalar::Double(b) => dec3(f64::from_bits(*b)),
        Scalar::Angle(a) => dec3(*a as f64 / 4_294_967_296.0 * 360.0),
        Scalar::Position(a, b, c, d) => format!("lla({a},{b},{c},{d})"),
    }
}

fn value_text(parts: &[Scalar]) -> String {
    join_fields(&parts.iter().map(field).collect())
}

fn to_node(e: &Element) -> Node {
    let mut node = Node::new(e.name.clone());
    node.attributes = e.attributes.iter().map(|(n, v)| (n.clone(), value_text(v))).collect();
    node.children = e.children.iter().map(to_node).collect();
    node.text = e.value.as_ref().map(|v| value_text(v));
    node
}

fn convert(data: &[u8], bank: &Bank) -> Result<String, String> {
    let root = parse(data, bank, &table()).map_err(|e| e.message())?;
    Ok(String::from_utf8(render(&to_node(&root), Encoding::Utf8)).unwrap())
}

fn error(data: &[u8], bank: &Bank) -> String {
    parse(data, bank, &table()).err().unwrap().message()
}

#[test]
fn converts_synthetic_document() {
    let mut spb = Spb::default();
    spb.u16(60332);
    for i in 0..12 {
        spb.i32(if i == 6 { 6 } else { 0 });
    }
    spb.guid("00000001-0000-0000-0000-000000000000").i32(-1);
    spb.guid("00000002-0000-0000-0000-000000000000").i32(16);
    spb.guid("00000003-0000-0000-0000-000000000000").i32(4);
    spb.guid("00000004-0000-0000-0000-000000000000").i32(20);
    spb.guid("00000005-0000-0000-0000-000000000000").i32(4);

    let mut body = Spb::default();
    body.i32(2).guid("11223344-5566-7788-99AA-BBCCDDEEFF00");
    body.i32(3).f32(1.5);
    body.i32(4).guid("00000000-0000-0000-0000-000000000000").f32(2.5);
    body.i32(5).i32(1);
    let body = body.bytes;

    spb.i32(1).i32(body.len() as i32);
    spb.bytes.extend_from_slice(&body);

    let bank = Bank::from_sources(&vec![(PROPDEFS.as_bytes().to_vec(), "demo".to_string())], "it")
        .unwrap();
    assert_eq!(convert(&spb.bytes, &bank).unwrap(), EXPECTED);
}

#[test]
fn decodes_value_types() {
    let bank = bank();
    let tags = [
        (0x2d, -1),
        (0x21, 8),
        (0x22, 4),
        (0x23, 4),
        (0x25, -1),
        (0x26, -1),
        (0x27, 8),
        (0x28, 20),
        (0x2c, 4),
    ];
    let mut body = Spb::default();
    body.i32(2).i32(-5).i32(7);
    body.i32(3).raw(&[1, 2, 3, 255]);
    body.i32(4).i32(1);
    // TEXT "Hi" in the synthetic cipher: code + position.
    body.i32(5).i32(3).raw(&[b'H', b'i' + 1, 2]);
    body.i32(6).i32(4).raw(b"ab\0\0");
    body.i32(7).i64(0x0102_0304);
    body.i32(8).guid("00000000-0000-0000-0000-000000000001").raw(&[9, 8, 7, 6]);
    body.i32(9).u32(4_000_000_000);
    let body = body.bytes;
    let mut all = Spb::default();
    all.i32(1).i32(body.len() as i32).raw(&body);
    let data = stream(&tags, &all.bytes);
    assert_eq!(
        convert(&data, &bank).unwrap(),
        "<?xml version=\"1.0\" encoding=\"utf-8\"?>\n<Extra.Group>\n  <Pair>-5,7</Pair>\n  <Bytes>1,2,3,255</Bytes>\n  <Mode>On</Mode>\n  <Label>Hi</Label>\n  <Curve>ab</Curve>\n  <Color>{00000000-0000-0000-0000-000000000001},9,8,7,6</Color>\n  <Trail>4000000000</Trail>\n</Extra.Group>\n"
    );
}

#[test]
fn float_pins_follow_the_value_size() {
    let bank = bank();
    // FLOAT4 stored as an input pin of 28 bytes: GUID and three floats.
    let mut body = Spb::default();
    body.i32(2).guid("0000002b-0000-0000-0000-000000000000").f32(1.0).f32(-2.0).f32(0.25);
    body.i32(3).f32(1.0).f32(2.0).f32(3.0).f32(4.0);
    let body = body.bytes;
    let mut all = Spb::default();
    all.i32(1).i32(body.len() as i32).raw(&body);
    let data = stream(&[(0x2d, -1), (0x2b, 28), (0x2b, 16)], &all.bytes);
    let root = parse(&data, &bank, &table()).unwrap();
    assert_eq!(root.children.len(), 2);
    assert_eq!(
        value_text(root.children[0].value.as_ref().unwrap()),
        "{0000002B-0000-0000-0000-000000000000},1.000,-2.000,0.250"
    );
    assert_eq!(value_text(root.children[1].value.as_ref().unwrap()), "1.000,2.000,3.000,4.000");
}

#[test]
fn keeps_raw_angles_and_positions() {
    let bank = bank();
    let mut body = Spb::default();
    body.i32(2).u32(0x4000_0000).u32(0).u32(0x8000_0000).i32(99);
    body.i32(3).i64(-5).i64(6).u32(7).i32(-8);
    let body = body.bytes;
    let mut all = Spb::default();
    all.i32(1).i32(body.len() as i32).raw(&body);
    let data = stream(&[(0x2d, -1), (0x29, 16), (0x2a, 24)], &all.bytes);
    let root = parse(&data, &bank, &table()).unwrap();
    assert_eq!(
        root.children[0].value,
        Some(vec![Scalar::Angle(0x4000_0000), Scalar::Angle(0), Scalar::Angle(0x8000_0000)])
    );
    assert_eq!(root.children[1].value, Some(vec![Scalar::Position(-5, 6, 7, -8)]));
    assert_eq!(value_text(root.children[0].value.as_ref().unwrap()), "90.000,0.000,180.000");
}

#[test]
fn absent_elements_and_nested_context() {
    let bank = bank();
    let mut inner = Spb::default();
    inner.i32(0).i32(2).i32(1).i32(2);
    let inner = inner.bytes;
    let mut body = Spb::default();
    body.i32(0).i32(1).i32(inner.len() as i32).raw(&inner);
    let body = body.bytes;
    let mut all = Spb::default();
    all.i32(1).i32(body.len() as i32).raw(&body);
    let data = stream(&[(0x2d, -1), (0x21, 8)], &all.bytes);
    assert_eq!(
        convert(&data, &bank).unwrap(),
        "<?xml version=\"1.0\" encoding=\"utf-8\"?>\n<Extra.Group>\n  <Group>\n    <Pair>1,2</Pair>\n  </Group>\n</Extra.Group>\n"
    );
}

#[test]
fn reports_header_errors() {
    let bank = bank();
    assert_eq!(error(&[], &bank), "unexpected end of SPB data");
    assert_eq!(error(&[1, 2, 3], &bank), "not an SPB file: bad file id");
    assert_eq!(error(&60332u16.to_le_bytes(), &bank), "unexpected end of SPB data");
    let mut spb = Spb::default();
    spb.u16(60332);
    for _ in 0..12 {
        spb.i32(0);
    }
    assert_eq!(error(&spb.bytes, &bank), "invalid SPB tag count: 0");
    let data = stream(&[(0x77, 4)], &[]);
    assert_eq!(
        error(&data, &bank),
        "unbound property GUID: {00000077-0000-0000-0000-000000000000}"
    );
}

#[test]
fn reports_body_errors() {
    let bank = bank();
    let no_root = stream(&[(0x2d, -1)], &0i32.to_le_bytes());
    assert_eq!(error(&no_root, &bank), "expected exactly one root element, found 0");
    let bad_index = stream(&[(0x2d, -1)], &5i32.to_le_bytes());
    assert_eq!(error(&bad_index, &bank), "invalid tag index 4");
    let type_tag = stream(&[(0x20, 4)], &1i32.to_le_bytes());
    assert_eq!(error(&type_tag, &bank), "unexpected type tag 'Kinds'");
    let mut neg = Spb::default();
    neg.i32(1).i32(-1);
    assert_eq!(error(&stream(&[(0x2d, -1)], &neg.bytes), &bank), "negative set length for 'Group'");
    let mut over = Spb::default();
    over.i32(1).i32(6).i32(2).i32(1).i32(2);
    assert_eq!(
        error(&stream(&[(0x2d, -1), (0x21, 8)], &over.bytes), &bank),
        "set 'Group' overran its declared length"
    );
    let mut en = Spb::default();
    en.i32(1).i32(2);
    assert_eq!(
        error(&stream(&[(0x23, 4)], &en.bytes), &bank),
        "enum index 2 out of range for 'Mode'"
    );
    let mut odd = Spb::default();
    odd.i32(1).i32(0);
    assert_eq!(
        error(&stream(&[(0x24, 12)], &odd.bytes), &bank),
        "unsupported value type 'Matrix' (size 12)"
    );
    let mut negative_text = Spb::default();
    negative_text.i32(1).i32(-3);
    assert_eq!(error(&stream(&[(0x25, -1)], &negative_text.bytes), &bank), "negative length -3");
    let mut short = Spb::default();
    short.i32(1).i32(9);
    assert_eq!(error(&stream(&[(0x21, 8)], &short.bytes), &bank), "unexpected end of SPB data");
}

#[test]
fn root_property_and_trailing_whitespace_in_names() {
    let bank = bank();
    let mut body = Spb::default();
    body.i32(1).u32(12);
    let root = parse(&stream(&[(0x2c, 4)], &body.bytes), &bank, &table()).unwrap();
    assert_eq!(root.name, "Extra.Trail");
    assert_eq!(root.value, Some(vec![Scalar::Text("12".to_string())]));
}

#[test]
fn joins_fields_with_commas() {
    assert_eq!(join_fields(&vec![]), "");
    assert_eq!(join_fields(&vec!["a".to_string()]), "a");
    assert_eq!(join_fields(&vec!["a".to_string(), "".to_string(), "c".to_string()]), "a,,c");
}

#[test]
fn curves_replace_invalid_utf8() {
    let bank = bank();
    let mut body = Spb::default();
    body.i32(1).i32(4).raw(&[b'a', 0xFF, b'b', 0]);
    let root = parse(&stream(&[(0x26, -1)], &body.bytes), &bank, &table()).unwrap();
    assert_eq!(root.value, Some(vec![Scalar::Text("a\u{FFFD}b".to_string())]));
}

#[test]
fn empty_text_value() {
    let bank = bank();
    let mut body = Spb::default();
    body.i32(1).i32(0);
    let root = parse(&stream(&[(0x25, -1)], &body.bytes), &bank, &table()).unwrap();
    assert_eq!(root.value, Some(vec![Scalar::Text(String::new())]));
}
