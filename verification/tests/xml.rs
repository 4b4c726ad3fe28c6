use spb2xml24::xml::{high_windows_1252, render, Encoding, Node};

fn leaf(name: &str, text: &str) -> Node {
    let mut n = Node::new(name.to_string());
    n.text = Some(text.to_string());
    n
}

#[test]
fn renders_nested_document() {
    let mut root = Node::new("Root".to_string());
    root.attributes.push(("id".to_string(), "a<b".to_string()));
    root.children.push(leaf("Name", "x & y"));
    let mut inner = Node::new("Inner".to_string());
    inner.children.push(Node::new("Empty".to_string()));
    root.children.push(inner);
    let out = String::from_utf8(render(&root, Encoding::Utf8)).unwrap();
    assert_eq!(
        out,
        "<?xml version=\"1.0\" encoding=\"utf-8\"?>\n<Root id=\"a&lt;b\">\n  <Name>x &amp; y</Name>\n  <Inner>\n    <Empty />\n  </Inner>\n</Root>\n"
    );
}

#[test]
fn empty_text_is_self_closing() {
    let root = leaf("E", "");
    let out = String::from_utf8(render(&root, Encoding::Utf8)).unwrap();
    assert_eq!(out, "<?xml version=\"1.0\" encoding=\"utf-8\"?>\n<E />\n");
}

#[test]
fn escapes_all_special_characters() {
    let root = leaf("T", "&<>\"'");
    let out = String::from_utf8(render(&root, Encoding::Utf8)).unwrap();
    assert!(out.contains("<T>&amp;&lt;&gt;&quot;&apos;</T>"));
}

#[test]
fn windows_1252_output() {
    let root = leaf("T", "é€Ω");
    let out = render(&root, Encoding::Windows1252);
    let expected_decl = b"<?xml version=\"1.0\" encoding=\"Windows-1252\"?>\n<T>";
    assert!(out.starts_with(expected_decl));
    let body = &out[expected_decl.len()..];
    assert_eq!(&body[..3], &[0xE9, 0x80, b'?']);
    assert_eq!(&body[3..], b"</T>\n");
}

#[test]
fn utf8_output_is_lossless() {
    let root = leaf("T", "é€Ω");
    let out = render(&root, Encoding::Utf8);
    assert!(String::from_utf8(out).unwrap().contains("<T>é€Ω</T>"));
}

#[test]
fn ascii_output_agrees_across_encodings() {
    let mut root = Node::new("Root".to_string());
    root.attributes.push(("id".to_string(), "a<b".to_string()));
    root.children.push(leaf("Name", "x & y"));
    root.children.push(Node::new("Empty".to_string()));
    let utf8 = render(&root, Encoding::Utf8);
    let cp1252 = render(&root, Encoding::Windows1252);
    let utf8_decl = b"<?xml version=\"1.0\" encoding=\"utf-8\"?>";
    let cp1252_decl = b"<?xml version=\"1.0\" encoding=\"Windows-1252\"?>";
    assert!(utf8.starts_with(utf8_decl));
    assert!(cp1252.starts_with(cp1252_decl));
    assert_eq!(&utf8[utf8_decl.len()..], &cp1252[cp1252_decl.len()..]);
}

#[test]
fn windows_1252_high_block_table() {
    let table: [(u32, u8); 27] = [
        (0x20AC, 0x80),
        (0x201A, 0x82),
        (0x0192, 0x83),
        (0x201E, 0x84),
        (0x2026, 0x85),
        (0x2020, 0x86),
        (0x2021, 0x87),
        (0x02C6, 0x88),
        (0x2030, 0x89),
        (0x0160, 0x8A),
        (0x2039, 0x8B),
        (0x0152, 0x8C),
        (0x017D, 0x8E),
        (0x2018, 0x91),
        (0x2019, 0x92),
        (0x201C, 0x93),
        (0x201D, 0x94),
        (0x2022, 0x95),
        (0x2013, 0x96),
        (0x2014, 0x97),
        (0x02DC, 0x98),
        (0x2122, 0x99),
        (0x0161, 0x9A),
        (0x203A, 0x9B),
        (0x0153, 0x9C),
        (0x017E, 0x9E),
        (0x0178, 0x9F),
    ];
    for (code, byte) in table {
        assert_eq!(high_windows_1252(code), Some(byte));
    }
    for code in [0x0081u32, 0x008D, 0x00E9, 0x03A9, 0x6F22] {
        assert_eq!(high_windows_1252(code), None);
    }
}
