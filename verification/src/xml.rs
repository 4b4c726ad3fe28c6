//! XML document model and serialiser.
//!
//! The serialiser writes two space indentation, self closing empty elements,
//! and attributes rendered inline.

use vstd::prelude::*;

use crate::text::{push_all, push_str, string_from_chars};

verus! {

/// Output text encoding for the rendered document.
#[derive(Clone, Copy, Debug, PartialEq, Eq, Structural)]
pub enum Encoding {
    /// UTF-8 output. This is the default and is always lossless.
    Utf8,
    /// Windows-1252 output, matching the encoding the simulator's own tools use.
    Windows1252,
}

/// The XML declaration written for an encoding.
pub open spec fn declaration_text(encoding: Encoding) -> Seq<char> {
    match encoding {
        Encoding::Utf8 => "<?xml version=\"1.0\" encoding=\"utf-8\"?>"@,
        Encoding::Windows1252 => "<?xml version=\"1.0\" encoding=\"Windows-1252\"?>"@,
    }
}

/// The Windows-1252 byte of a character in the `0x80..=0x9F` block, where the
/// code page differs from Latin-1.
pub open spec fn high_windows_1252_spec(code: u32) -> Option<u8> {
    if code == 0x20AC { Some(0x80u8) }
    else if code == 0x201A { Some(0x82u8) }
    else if code == 0x0192 { Some(0x83u8) }
    else if code == 0x201E { Some(0x84u8) }
    else if code == 0x2026 { Some(0x85u8) }
    else if code == 0x2020 { Some(0x86u8) }
    else if code == 0x2021 { Some(0x87u8) }
    else if code == 0x02C6 { Some(0x88u8) }
    else if code == 0x2030 { Some(0x89u8) }
    else if code == 0x0160 { Some(0x8Au8) }
    else if code == 0x2039 { Some(0x8Bu8) }
    else if code == 0x0152 { Some(0x8Cu8) }
    else if code == 0x017D { Some(0x8Eu8) }
    else if code == 0x2018 { Some(0x91u8) }
    else if code == 0x2019 { Some(0x92u8) }
    else if code == 0x201C { Some(0x93u8) }
    else if code == 0x201D { Some(0x94u8) }
    else if code == 0x2022 { Some(0x95u8) }
    else if code == 0x2013 { Some(0x96u8) }
    else if code == 0x2014 { Some(0x97u8) }
    else if code == 0x02DC { Some(0x98u8) }
    else if code == 0x2122 { Some(0x99u8) }
    else if code == 0x0161 { Some(0x9Au8) }
    else if code == 0x203A { Some(0x9Bu8) }
    else if code == 0x0153 { Some(0x9Cu8) }
    else if code == 0x017E { Some(0x9Eu8) }
    else if code == 0x0178 { Some(0x9Fu8) }
    else { None }
}

/// The Windows-1252 byte written for one character: its code when below
/// 0x100, the code page's byte for the characters it places in `0x80..=0x9F`,
/// and `?` otherwise.
pub open spec fn windows_1252_byte(c: char) -> u8 {
    if (c as u32) <= 0xFF {
        (c as u32) as u8
    } else {
        match high_windows_1252_spec(c as u32) {
            Some(b) => b,
            None => 63u8,
        }
    }
}

/// Windows-1252 bytes of a text, one byte per character.
pub open spec fn windows_1252_bytes(s: Seq<char>) -> Seq<u8> {
    s.map_values(|c: char| windows_1252_byte(c))
}

/// Bytes of a text in an encoding.
pub open spec fn encoded_bytes(encoding: Encoding, s: Seq<char>) -> Seq<u8> {
    match encoding {
        Encoding::Utf8 => vstd::utf8::encode_utf8(s),
        Encoding::Windows1252 => windows_1252_bytes(s),
    }
}

impl Encoding {
    fn declaration(self) -> (s: &'static str)
        ensures
            s@ == declaration_text(self),
    {
        match self {
            Encoding::Utf8 => "<?xml version=\"1.0\" encoding=\"utf-8\"?>",
            Encoding::Windows1252 => "<?xml version=\"1.0\" encoding=\"Windows-1252\"?>",
        }
    }

    fn encode(self, text: &Vec<char>) -> (bytes: Vec<u8>)
        ensures
            bytes@ == encoded_bytes(self, text@),
    {
        match self {
            Encoding::Utf8 => {
                let s = string_from_chars(text);
                vstd::slice::slice_to_vec(s.as_str().as_bytes())
            },
            Encoding::Windows1252 => encode_windows_1252(text),
        }
    }
}

/// A single XML element with optional attributes, child elements and text.
pub struct Node {
    pub name: String,
    pub attributes: Vec<(String, String)>,
    pub children: Vec<Node>,
    pub text: Option<String>,
}

impl Node {
    /// An element with the given name and nothing else.
    pub fn new(name: String) -> (n: Node)
        ensures
            n.name@ == name@,
            n.attributes@.len() == 0,
            n.children@.len() == 0,
            n.text is None,
    {
        Node { name, attributes: Vec::new(), children: Vec::new(), text: None }
    }
}

/// The escaped form of one character.
pub open spec fn escape_char(c: char) -> Seq<char> {
    if c == '&' {
        "&amp;"@
    } else if c == '<' {
        "&lt;"@
    } else if c == '>' {
        "&gt;"@
    } else if c == '"' {
        "&quot;"@
    } else if c == '\'' {
        "&apos;"@
    } else {
        seq![c]
    }
}

/// A text with the five XML special characters replaced by entities.
pub open spec fn escaped(s: Seq<char>) -> Seq<char>
    decreases s.len(),
{
    if s.len() == 0 {
        Seq::empty()
    } else {
        escaped(s.drop_last()) + escape_char(s.last())
    }
}

/// The attribute list of an element: ` name="value"` for each attribute.
pub open spec fn attributes_text(attrs: Seq<(String, String)>) -> Seq<char>
    decreases attrs.len(),
{
    if attrs.len() == 0 {
        Seq::empty()
    } else {
        attributes_text(attrs.drop_last()) + seq![' '] + attrs.last().0@ + "=\""@ + escaped(
            attrs.last().1@,
        ) + seq!['"']
    }
}

/// The text of a node: empty when it has none.
pub open spec fn node_text(node: Node) -> Seq<char> {
    match node.text {
        Some(t) => t@,
        None => Seq::empty(),
    }
}

/// The rendering of an element at an indentation.
pub open spec fn rendered(node: Node, indent: Seq<char>) -> Seq<char>
    decreases node, 0int,
{
    let open = indent + seq!['<'] + node.name@ + attributes_text(node.attributes@);
    if node.children@.len() == 0 && node_text(node).len() == 0 {
        open + " />"@
    } else if node.children@.len() == 0 {
        open + seq!['>'] + escaped(node_text(node)) + "</"@ + node.name@ + seq!['>']
    } else {
        open + seq!['>'] + rendered_children(node.children@, indent + "  "@, node.children@.len() as int)
            + seq!['\n'] + indent + "</"@ + node.name@ + seq!['>']
    }
}

/// The first `n` children, each on a new line at the given indentation.
pub open spec fn rendered_children(children: Seq<Node>, indent: Seq<char>, n: int) -> Seq<char>
    decreases children, n,
{
    if 0 < n <= children.len() {
        rendered_children(children, indent, n - 1) + seq!['\n'] + rendered(children[n - 1], indent)
    } else {
        Seq::empty()
    }
}

/// The text of a whole document: declaration, root element, final newline.
pub open spec fn document_text(root: Node, encoding: Encoding) -> Seq<char> {
    declaration_text(encoding) + seq!['\n'] + rendered(root, Seq::empty()) + seq!['\n']
}

/// Serialise a document rooted at `root` into bytes using `encoding`.
pub fn render(root: &Node, encoding: Encoding) -> (bytes: Vec<u8>)
    ensures
        bytes@ == encoded_bytes(encoding, document_text(*root, encoding)),
{
    let mut doc: Vec<char> = Vec::new();
    push_str(&mut doc, encoding.declaration());
    doc.push('\n');
    let indent: Vec<char> = Vec::new();
    render_node(root, &indent, &mut doc);
    doc.push('\n');
    assert(doc@ =~= document_text(*root, encoding));
    encoding.encode(&doc)
}

fn render_attributes(attrs: &Vec<(String, String)>, out: &mut Vec<char>)
    ensures
        final(out)@ == old(out)@ + attributes_text(attrs@),
{
    let mut i: usize = 0;
    while i < attrs.len()
        invariant
            i <= attrs.len(),
            out@ == old(out)@ + attributes_text(attrs@.take(i as int)),
        decreases attrs.len() - i,
    {
        let ghost before = out@;
        out.push(' ');
        push_str(out, attrs[i].0.as_str());
        push_str(out, "=\"");
        escape_into(attrs[i].1.as_str(), out);
        out.push('"');
        i = i + 1;
        assert(attrs@.take(i as int).drop_last() =~= attrs@.take(i - 1));
        assert(out@ =~= old(out)@ + attributes_text(attrs@.take(i as int)));
    }
    assert(attrs@.take(i as int) =~= attrs@);
}

fn render_node(node: &Node, indent: &Vec<char>, out: &mut Vec<char>)
    ensures
        final(out)@ == old(out)@ + rendered(*node, indent@),
    decreases node,
{
    push_all(out, indent);
    out.push('<');
    push_str(out, node.name.as_str());
    render_attributes(&node.attributes, out);
    let text_is_empty = match &node.text {
        Some(t) => t.as_str().is_empty(),
        None => true,
    };
    if node.children.len() == 0 && text_is_empty {
        push_str(out, " />");
        assert(final(out)@ =~= old(out)@ + rendered(*node, indent@));
        return;
    }
    if node.children.len() == 0 {
        out.push('>');
        match &node.text {
            Some(t) => escape_into(t.as_str(), out),
            None => {},
        }
        push_str(out, "</");
        push_str(out, node.name.as_str());
        out.push('>');
        assert(final(out)@ =~= old(out)@ + rendered(*node, indent@));
        return;
    }
    out.push('>');
    let mut child_indent: Vec<char> = Vec::new();
    push_all(&mut child_indent, indent);
    push_str(&mut child_indent, "  ");
    let ghost mid = out@;
    let mut i: usize = 0;
    while i < node.children.len()
        invariant
            i <= node.children.len(),
            child_indent@ == indent@ + "  "@,
            out@ == mid + rendered_children(node.children@, child_indent@, i as int),
        decreases node.children.len() - i,
    {
        out.push('\n');
        render_node(&node.children[i], &child_indent, out);
        i = i + 1;
        assert(out@ =~= mid + rendered_children(node.children@, child_indent@, i as int));
    }
    out.push('\n');
    push_all(out, indent);
    push_str(out, "</");
    push_str(out, node.name.as_str());
    out.push('>');
    assert(final(out)@ =~= old(out)@ + rendered(*node, indent@));
}

/// Append the escaped form of `value` to `out`.
fn escape_into(value: &str, out: &mut Vec<char>)
    ensures
        final(out)@ == old(out)@ + escaped(value@),
{
    let chars = crate::text::chars_of(value);
    let mut i: usize = 0;
    while i < chars.len()
        invariant
            i <= chars.len(),
            chars@ == value@,
            out@ == old(out)@ + escaped(chars@.take(i as int)),
        decreases chars.len() - i,
    {
        let ch = chars[i];
        if ch == '&' {
            push_str(out, "&amp;");
        } else if ch == '<' {
            push_str(out, "&lt;");
        } else if ch == '>' {
            push_str(out, "&gt;");
        } else if ch == '"' {
            push_str(out, "&quot;");
        } else if ch == '\'' {
            push_str(out, "&apos;");
        } else {
            out.push(ch);
        }
        i = i + 1;
        assert(chars@.take(i as int).drop_last() =~= chars@.take(i - 1));
        assert(out@ =~= old(out)@ + escaped(chars@.take(i as int)));
    }
    assert(chars@.take(i as int) =~= chars@);
}

fn encode_windows_1252(text: &Vec<char>) -> (out: Vec<u8>)
    ensures
        out@ == windows_1252_bytes(text@),
{
    let mut out: Vec<u8> = Vec::new();
    let mut i: usize = 0;
    while i < text.len()
        invariant
            i <= text.len(),
            out@ == windows_1252_bytes(text@.take(i as int)),
        decreases text.len() - i,
    {
        let code = text[i] as u32;
        if code <= 0xFF {
            out.push(code as u8);
        } else {
            out.push(
                match high_windows_1252(code) {
                    Some(b) => b,
                    None => 63u8,
                },
            );
        }
        i = i + 1;
        assert(out@ =~= windows_1252_bytes(text@.take(i as int)));
    }
    assert(text@.take(i as int) =~= text@);
    out
}

/// Reverse mapping for the printable characters Windows-1252 places in the
/// `0x80..=0x9F` range, which differ from Latin-1.
pub fn high_windows_1252(code: u32) -> (r: Option<u8>)
    ensures
        r == high_windows_1252_spec(code),
{
    match code {
        0x20AC => Some(0x80),
        0x201A => Some(0x82),
        0x0192 => Some(0x83),
        0x201E => Some(0x84),
        0x2026 => Some(0x85),
        0x2020 => Some(0x86),
        0x2021 => Some(0x87),
        0x02C6 => Some(0x88),
        0x2030 => Some(0x89),
        0x0160 => Some(0x8A),
        0x2039 => Some(0x8B),
        0x0152 => Some(0x8C),
        0x017D => Some(0x8E),
        0x2018 => Some(0x91),
        0x2019 => Some(0x92),
        0x201C => Some(0x93),
        0x201D => Some(0x94),
        0x2022 => Some(0x95),
        0x2013 => Some(0x96),
        0x2014 => Some(0x97),
        0x02DC => Some(0x98),
        0x2122 => Some(0x99),
        0x0161 => Some(0x9A),
        0x203A => Some(0x9B),
        0x0153 => Some(0x9C),
        0x017E => Some(0x9E),
        0x0178 => Some(0x9F),
        _ => None,
    }
}

} // verus!

verus! {

/// Every element name, attribute name, attribute value and text of a tree is
/// ASCII.
pub open spec fn ascii_tree(node: Node) -> bool
    decreases node,
{
    &&& vstd::utf8::is_ascii_chars(node.name@)
    &&& forall|i: int|
        0 <= i < node.attributes@.len() ==> vstd::utf8::is_ascii_chars((#[trigger] node.attributes@[i]).0@)
            && vstd::utf8::is_ascii_chars(node.attributes@[i].1@)
    &&& vstd::utf8::is_ascii_chars(node_text(node))
    &&& forall|i: int| 0 <= i < node.children@.len() ==> ascii_tree(#[trigger] node.children@[i])
}

proof fn lemma_ascii_join(a: Seq<char>, b: Seq<char>)
    requires
        vstd::utf8::is_ascii_chars(a),
        vstd::utf8::is_ascii_chars(b),
    ensures
        vstd::utf8::is_ascii_chars(a + b),
{
    vstd::utf8::is_ascii_chars_concat(a + b, a, b);
}

proof fn lemma_escaped_ascii(s: Seq<char>)
    requires
        vstd::utf8::is_ascii_chars(s),
    ensures
        vstd::utf8::is_ascii_chars(escaped(s)),
    decreases s.len(),
{
    if s.len() > 0 {
        assert(vstd::utf8::is_ascii_chars(s.drop_last())) by {
            assert forall|i: int| 0 <= i < s.drop_last().len() implies '\0' <= #[trigger] s.drop_last()[i]
                <= '\u{7f}' by {
                assert(s.drop_last()[i] == s[i]);
            }
        }
        lemma_escaped_ascii(s.drop_last());
        let c = s.last();
        assert('\0' <= s[s.len() - 1] <= '\u{7f}');
        reveal_strlit("&amp;");
        reveal_strlit("&lt;");
        reveal_strlit("&gt;");
        reveal_strlit("&quot;");
        reveal_strlit("&apos;");
        assert(vstd::utf8::is_ascii_chars(escape_char(c)));
        lemma_ascii_join(escaped(s.drop_last()), escape_char(c));
    }
}

proof fn lemma_attributes_ascii(attrs: Seq<(String, String)>)
    requires
        forall|i: int|
            0 <= i < attrs.len() ==> vstd::utf8::is_ascii_chars((#[trigger] attrs[i]).0@)
                && vstd::utf8::is_ascii_chars(attrs[i].1@),
    ensures
        vstd::utf8::is_ascii_chars(attributes_text(attrs)),
    decreases attrs.len(),
{
    if attrs.len() > 0 {
        let rest = attrs.drop_last();
        assert forall|i: int| 0 <= i < rest.len() implies vstd::utf8::is_ascii_chars((#[trigger] rest[i]).0@)
            && vstd::utf8::is_ascii_chars(rest[i].1@) by {
            assert(rest[i] == attrs[i]);
        }
        lemma_attributes_ascii(rest);
        let last = attrs[attrs.len() - 1];
        assert(attrs.last() == last);
        lemma_escaped_ascii(last.1@);
        reveal_strlit("=\"");
        let a = attributes_text(rest) + seq![' '];
        lemma_ascii_join(attributes_text(rest), seq![' ']);
        lemma_ascii_join(a, last.0@);
        lemma_ascii_join(a + last.0@, "=\""@);
        lemma_ascii_join(a + last.0@ + "=\""@, escaped(last.1@));
        lemma_ascii_join(a + last.0@ + "=\""@ + escaped(last.1@), seq!['"']);
    }
}

proof fn lemma_rendered_ascii(node: Node, indent: Seq<char>)
    requires
        ascii_tree(node),
        vstd::utf8::is_ascii_chars(indent),
    ensures
        vstd::utf8::is_ascii_chars(rendered(node, indent)),
    decreases node, 0int,
{
    let open = indent + seq!['<'] + node.name@ + attributes_text(node.attributes@);
    lemma_attributes_ascii(node.attributes@);
    lemma_ascii_join(indent, seq!['<']);
    lemma_ascii_join(indent + seq!['<'], node.name@);
    lemma_ascii_join(indent + seq!['<'] + node.name@, attributes_text(node.attributes@));
    reveal_strlit(" />");
    reveal_strlit("</");
    reveal_strlit("  ");
    if node.children@.len() == 0 && node_text(node).len() == 0 {
        lemma_ascii_join(open, " />"@);
    } else if node.children@.len() == 0 {
        lemma_escaped_ascii(node_text(node));
        lemma_ascii_join(open, seq!['>']);
        lemma_ascii_join(open + seq!['>'], escaped(node_text(node)));
        lemma_ascii_join(open + seq!['>'] + escaped(node_text(node)), "</"@);
        lemma_ascii_join(open + seq!['>'] + escaped(node_text(node)) + "</"@, node.name@);
        lemma_ascii_join(open + seq!['>'] + escaped(node_text(node)) + "</"@ + node.name@, seq!['>']);
    } else {
        let inner = indent + "  "@;
        lemma_ascii_join(indent, "  "@);
        lemma_children_ascii(node.children@, inner, node.children@.len() as int);
        let c = rendered_children(node.children@, inner, node.children@.len() as int);
        lemma_ascii_join(open, seq!['>']);
        lemma_ascii_join(open + seq!['>'], c);
        lemma_ascii_join(open + seq!['>'] + c, seq!['\n']);
        lemma_ascii_join(open + seq!['>'] + c + seq!['\n'], indent);
        lemma_ascii_join(open + seq!['>'] + c + seq!['\n'] + indent, "</"@);
        lemma_ascii_join(open + seq!['>'] + c + seq!['\n'] + indent + "</"@, node.name@);
        lemma_ascii_join(open + seq!['>'] + c + seq!['\n'] + indent + "</"@ + node.name@, seq!['>']);
    }
}

proof fn lemma_children_ascii(children: Seq<Node>, indent: Seq<char>, n: int)
    requires
        forall|i: int| 0 <= i < children.len() ==> ascii_tree(#[trigger] children[i]),
        vstd::utf8::is_ascii_chars(indent),
    ensures
        vstd::utf8::is_ascii_chars(rendered_children(children, indent, n)),
    decreases children, n,
{
    if 0 < n <= children.len() {
        lemma_children_ascii(children, indent, n - 1);
        lemma_rendered_ascii(children[n - 1], indent);
        let prev = rendered_children(children, indent, n - 1);
        lemma_ascii_join(prev, seq!['\n']);
        lemma_ascii_join(prev + seq!['\n'], rendered(children[n - 1], indent));
    }
}

proof fn lemma_encode_utf8_join(a: Seq<char>, b: Seq<char>)
    ensures
        vstd::utf8::encode_utf8(a + b) == vstd::utf8::encode_utf8(a) + vstd::utf8::encode_utf8(b),
    decreases a.len(),
{
    if a.len() > 0 {
        assert((a + b).drop_first() =~= a.drop_first() + b);
        lemma_encode_utf8_join(a.drop_first(), b);
        assert((a + b)[0] == a[0]);
        assert(vstd::utf8::encode_utf8(a + b) =~= vstd::utf8::encode_utf8(a) + vstd::utf8::encode_utf8(b));
    } else {
        assert(a + b =~= b);
        assert(vstd::utf8::encode_utf8(a) =~= Seq::<u8>::empty());
        assert(vstd::utf8::encode_utf8(a + b) =~= vstd::utf8::encode_utf8(a) + vstd::utf8::encode_utf8(b));
    }
}

/// A document whose names, attribute values and texts are all ASCII is written
/// with the same bytes in Windows-1252 as in UTF-8, apart from the declaration:
/// both outputs are their declaration's bytes followed by one and the same
/// body.
pub proof fn ascii_output_agrees(root: Node)
    requires
        ascii_tree(root),
    ensures
        ({
            let body = seq!['\n'] + rendered(root, Seq::empty()) + seq!['\n'];
            &&& encoded_bytes(Encoding::Windows1252, document_text(root, Encoding::Windows1252))
                == encoded_bytes(Encoding::Windows1252, declaration_text(Encoding::Windows1252))
                + encoded_bytes(Encoding::Utf8, body)
            &&& encoded_bytes(Encoding::Utf8, document_text(root, Encoding::Utf8)) == encoded_bytes(
                Encoding::Utf8,
                declaration_text(Encoding::Utf8),
            ) + encoded_bytes(Encoding::Utf8, body)
        }),
{
    let r = rendered(root, Seq::empty());
    let body = seq!['\n'] + r + seq!['\n'];
    lemma_rendered_ascii(root, Seq::empty());
    lemma_ascii_join(seq!['\n'], r);
    lemma_ascii_join(seq!['\n'] + r, seq!['\n']);
    vstd::utf8::is_ascii_chars_encode_utf8(body);
    let w = declaration_text(Encoding::Windows1252);
    assert(document_text(root, Encoding::Windows1252) =~= w + body);
    assert(windows_1252_bytes(body) =~= vstd::utf8::encode_utf8(body)) by {
        assert forall|i: int| 0 <= i < body.len() implies windows_1252_bytes(body)[i]
            == vstd::utf8::encode_utf8(body)[i] by {
            let c = body[i];
            assert(vstd::utf8::encode_utf8(body)[i] == c as u8);
            assert('\0' <= c <= '\u{7f}');
        }
    }
    assert(windows_1252_bytes(w + body) =~= windows_1252_bytes(w) + windows_1252_bytes(body));
    let u = declaration_text(Encoding::Utf8);
    assert(document_text(root, Encoding::Utf8) =~= u + body);
    lemma_encode_utf8_join(u, body);
}

/// The attribute text of an element is made of one piece per attribute, in
/// order: the text of a list followed by more attributes is the text of the
/// list followed by the text of the others, and one attribute is written as
/// a space, its name, `="`, its escaped value and `"`.
pub proof fn attributes_are_written_in_order(a: Seq<(String, String)>, b: Seq<(String, String)>, x: (String, String))
    ensures
        attributes_text(a + b) == attributes_text(a) + attributes_text(b),
        attributes_text(seq![x]) == seq![' '] + x.0@ + seq!['=', '"'] + escaped(x.1@) + seq!['"'],
    decreases b.len(),
{
    if b.len() == 0 {
        assert(a + b =~= a);
        assert(attributes_text(a) + attributes_text(b) =~= attributes_text(a));
    } else {
        assert((a + b).drop_last() =~= a + b.drop_last());
        assert((a + b).last() == b.last());
        attributes_are_written_in_order(a, b.drop_last(), x);
        let t = b.last();
        let piece = seq![' '] + t.0@ + "=\""@ + escaped(t.1@) + seq!['"'];
        assert(attributes_text(a + b) == attributes_text(a + b.drop_last()) + piece);
        assert(attributes_text(b) == attributes_text(b.drop_last()) + piece);
        assert(attributes_text(a + b) =~= attributes_text(a) + attributes_text(b));
    }
    let one = seq![x];
    assert(one.drop_last() =~= Seq::<(String, String)>::empty());
    reveal_strlit("=\"");
    assert("=\""@ =~= seq!['=', '"']);
    assert(one.last() == x);
    assert(attributes_text(one.drop_last()) =~= Seq::<char>::empty());
    assert(attributes_text(one) =~= seq![' '] + x.0@ + seq!['=', '"'] + escaped(x.1@) + seq!['"']);
}

/// UTF-8 output is lossless: decoding the bytes written for a document gives
/// back exactly the document text.
pub proof fn utf8_output_is_lossless(root: Node)
    ensures
        vstd::utf8::decode_utf8(encoded_bytes(Encoding::Utf8, document_text(root, Encoding::Utf8)))
            == document_text(root, Encoding::Utf8),
{
    vstd::utf8::encode_utf8_decode_utf8(document_text(root, Encoding::Utf8));
}

/// Windows-1252 output writes one byte per character, and a character below
/// U+0100 is written as its own code.
pub proof fn windows_1252_output_is_bytewise(s: Seq<char>)
    ensures
        windows_1252_bytes(s).len() == s.len(),
        forall|i: int|
            0 <= i < s.len() && (s[i] as u32) <= 0xFF ==> #[trigger] windows_1252_bytes(s)[i] as u32
                == s[i] as u32,
{
}

/// Escaped text holds none of `<`, `>`, `"` and `'`, and text without any of
/// the five special characters is left unchanged.
pub proof fn escaping_removes_markup(s: Seq<char>)
    ensures
        forall|i: int|
            0 <= i < escaped(s).len() ==> #[trigger] escaped(s)[i] != '<' && escaped(s)[i] != '>'
                && escaped(s)[i] != '"' && escaped(s)[i] != '\'',
        (forall|i: int|
            0 <= i < s.len() ==> #[trigger] s[i] != '&' && s[i] != '<' && s[i] != '>' && s[i] != '"'
                && s[i] != '\'') ==> escaped(s) == s,
    decreases s.len(),
{
    if s.len() > 0 {
        escaping_removes_markup(s.drop_last());
        let c = s.last();
        reveal_strlit("&amp;");
        reveal_strlit("&lt;");
        reveal_strlit("&gt;");
        reveal_strlit("&quot;");
        reveal_strlit("&apos;");
        let e = escape_char(c);
        assert forall|i: int| 0 <= i < e.len() implies e[i] != '<' && e[i] != '>' && e[i] != '"'
            && e[i] != '\'' by {}
        let p = escaped(s.drop_last());
        assert(escaped(s) == p + e);
        assert forall|i: int| 0 <= i < escaped(s).len() implies #[trigger] escaped(s)[i] != '<'
            && escaped(s)[i] != '>' && escaped(s)[i] != '"' && escaped(s)[i] != '\'' by {
            if i < p.len() {
                assert(escaped(s)[i] == p[i]);
            } else {
                assert(escaped(s)[i] == e[i - p.len()]);
            }
        }
        if forall|i: int|
            0 <= i < s.len() ==> #[trigger] s[i] != '&' && s[i] != '<' && s[i] != '>' && s[i] != '"'
                && s[i] != '\'' {
            assert(s[s.len() - 1] == c);
            assert forall|i: int| 0 <= i < s.drop_last().len() implies #[trigger] s.drop_last()[i]
                != '&' && s.drop_last()[i] != '<' && s.drop_last()[i] != '>' && s.drop_last()[i]
                != '"' && s.drop_last()[i] != '\'' by {
                assert(s.drop_last()[i] == s[i]);
            }
            assert(escaped(s) =~= s);
        }
    }
}

} // verus!
