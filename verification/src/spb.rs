//! Parser for the compiled SPB property stream.
//!
//! Layout: a 16 bit file id, a twelve entry header (entry 6 is the tag count),
//! then `tag_count - 1` tag records. Each tag record is a 16 byte GUID plus a
//! 32 bit value size. The body is a depth first sequence of element tags that
//! reference those definitions by index, forming the document tree.
//!
//! The per tag value size is authoritative for fixed size properties. It
//! distinguishes an "input pin" float, stored as a GUID followed by one or more
//! floats, from a plain float of the same declared type. A size of `-1` marks a
//! variable length value.
//!
//! Floating point values are not converted to text here: they are carried as
//! their raw bit patterns (see [`Scalar`]) and rendered by the caller.

use vstd::prelude::*;

use crate::error::{Error, ErrorView};
use crate::guid::{braced_upper_chars, guid_braced_upper, guid_lower, lower_chars};
use crate::propdefs::{Bank, Def, DefView, Kind};
use crate::reader::{eof_error, eof_message, i32_at, i64_at, u16_at, u32_at, u64_at, Reader};
use crate::text::{
    chars_eq, chars_of, decimal, push_all, push_decimal, push_str, push_unsigned, string_from_chars,
    trim_end_chars, trim_end_seq, upper_chars, upper_seq,
};
use crate::textdecode::TextTable;
use crate::text::{lossy_utf8, utf8_lossy};

verus! {

/// One comma separated field of a property value.
#[derive(Debug, PartialEq)]
pub enum Scalar {
    /// Text ready for output.
    Text(String),
    /// A single precision float, as its IEEE 754 bit pattern.
    Single(u32),
    /// A double precision float, as its IEEE 754 bit pattern.
    Double(u64),
    /// An angle stored as a fraction of a full revolution in units of 2^-32.
    Angle(u32),
    /// A packed position: latitude and longitude as 64 bit fixed point
    /// fractions of a revolution, altitude as a 32.32 fixed point value in
    /// metres (fraction, then whole part).
    Position(i64, i64, u32, i32),
}

/// A [`Scalar`] with its text taken as a character sequence.
pub enum ScalarView {
    Text(Seq<char>),
    Single(u32),
    Double(u64),
    Angle(u32),
    Position(i64, i64, u32, i32),
}

impl View for Scalar {
    type V = ScalarView;

    open spec fn view(&self) -> ScalarView {
        match self {
            Scalar::Text(s) => ScalarView::Text(s@),
            Scalar::Single(b) => ScalarView::Single(*b),
            Scalar::Double(b) => ScalarView::Double(*b),
            Scalar::Angle(a) => ScalarView::Angle(*a),
            Scalar::Position(a, b, c, d) => ScalarView::Position(*a, *b, *c, *d),
        }
    }
}

pub open spec fn scalars_view(s: Seq<Scalar>) -> Seq<ScalarView> {
    s.map_values(|x: Scalar| x@)
}

/// A decoded element: a set, or a property that is written as an element.
#[derive(Debug, PartialEq)]
pub struct Element {
    pub name: String,
    /// Attribute properties: name and value fields.
    pub attributes: Vec<(String, Vec<Scalar>)>,
    pub children: Vec<Element>,
    /// Value fields of a property element; sets have none.
    pub value: Option<Vec<Scalar>>,
}

/// An [`Element`] with its texts taken as character sequences.
pub struct ElementView {
    pub name: Seq<char>,
    pub attributes: Seq<(Seq<char>, Seq<ScalarView>)>,
    pub children: Seq<ElementView>,
    pub value: Option<Seq<ScalarView>>,
}

/// Views of the first `n` elements of `s`.
pub open spec fn elements_view(s: Seq<Element>, n: int) -> Seq<ElementView>
    decreases s, n,
{
    if 0 < n <= s.len() {
        elements_view(s, n - 1).push(s[n - 1].view())
    } else {
        Seq::empty()
    }
}

pub open spec fn attributes_view(a: Seq<(String, Vec<Scalar>)>) -> Seq<(Seq<char>, Seq<ScalarView>)> {
    a.map_values(|x: (String, Vec<Scalar>)| (x.0@, scalars_view(x.1@)))
}

impl View for Element {
    type V = ElementView;

    open spec fn view(&self) -> ElementView
        decreases self, 0int,
    {
        ElementView {
            name: self.name@,
            attributes: attributes_view(self.attributes@),
            children: elements_view(self.children@, self.children@.len() as int),
            value: match self.value {
                Some(v) => Some(scalars_view(v@)),
                None => None,
            },
        }
    }
}

proof fn lemma_elements_view(s: Seq<Element>, n: int)
    requires
        0 <= n <= s.len(),
    ensures
        elements_view(s, n).len() == n,
        forall|i: int| 0 <= i < n ==> #[trigger] elements_view(s, n)[i] == s[i]@,
    decreases n,
{
    if n > 0 {
        lemma_elements_view(s, n - 1);
        assert(elements_view(s, n) == elements_view(s, n - 1).push(s[n - 1]@));
    } else {
        assert(elements_view(s, n) == Seq::<ElementView>::empty());
    }
}

proof fn lemma_elements_view_push(s: Seq<Element>, e: Element)
    ensures
        elements_view(s.push(e), (s.len() + 1) as int) == elements_view(s, s.len() as int).push(e@),
{
    lemma_elements_view(s.push(e), (s.len() + 1) as int);
    lemma_elements_view(s, s.len() as int);
    assert(elements_view(s.push(e), (s.len() + 1) as int) =~= elements_view(s, s.len() as int).push(e@));
}

/// What one body element contributes to its parent.
pub enum Item {
    /// An absent element (tag 0) or a property that produces no output.
    Nothing,
    /// A child element.
    Child(ElementView),
    /// An attribute of the parent.
    Attribute(Seq<char>, Seq<ScalarView>),
}

/// The parent with one more contribution.
pub open spec fn with_item(parent: ElementView, item: Item) -> ElementView {
    match item {
        Item::Nothing => parent,
        Item::Child(c) => ElementView { children: parent.children.push(c), ..parent },
        Item::Attribute(n, v) => ElementView { attributes: parent.attributes.push((n, v)), ..parent },
    }
}

/// A resolved tag: its definition and on-disk value size.
pub struct TagView {
    pub def: DefView,
    pub size: int,
}

struct Tag<'a> {
    def: &'a Def,
    size: i32,
}

spec fn tags_view(tags: Seq<Tag>) -> Seq<TagView> {
    tags.map_values(|t: Tag| TagView { def: t.def@, size: t.size as int })
}

pub const FILE_ID: u16 = 60332;

/// Byte offset of the first tag record: the file id and twelve header entries.
pub open spec fn tags_start() -> int {
    50
}

pub open spec fn bad_id_message() -> Seq<char> {
    "not an SPB file: bad file id"@
}

pub open spec fn tag_count_message(n: int) -> Seq<char> {
    "invalid SPB tag count: "@ + decimal(n)
}

pub open spec fn unbound_message(key: Seq<char>) -> Seq<char> {
    "unbound property GUID: {"@ + key + "}"@
}

pub open spec fn root_message(found: int) -> Seq<char> {
    "expected exactly one root element, found "@ + decimal(found)
}

pub open spec fn tag_index_message(index: int) -> Seq<char> {
    "invalid tag index "@ + decimal(index)
}

pub open spec fn type_tag_message(name: Seq<char>) -> Seq<char> {
    "unexpected type tag '"@ + name + "'"@
}

pub open spec fn negative_set_message(name: Seq<char>) -> Seq<char> {
    "negative set length for '"@ + name + "'"@
}

pub open spec fn overrun_message(name: Seq<char>) -> Seq<char> {
    "set '"@ + name + "' overran its declared length"@
}

pub open spec fn negative_length_message(len: int) -> Seq<char> {
    "negative length "@ + decimal(len)
}

pub open spec fn enum_message(index: int, name: Seq<char>) -> Seq<char> {
    "enum index "@ + decimal(index) + " out of range for '"@ + name + "'"@
}

pub open spec fn unsupported_message(value_type: Seq<char>, size: int) -> Seq<char> {
    "unsupported value type '"@ + value_type + "' (size "@ + decimal(size) + ")"@
}

/// The tag record at `p`: a GUID, resolved against the bank, and a value size.
pub open spec fn tag_record(d: Seq<u8>, bank: Map<Seq<char>, DefView>, p: int) -> Result<
    TagView,
    Seq<char>,
> {
    if p + 20 > d.len() {
        Err(eof_message())
    } else {
        let key = guid_lower(d.subrange(p, p + 16));
        if !bank.contains_key(key) {
            Err(unbound_message(key))
        } else {
            Ok(TagView { def: bank[key], size: i32_at(d, p + 16) })
        }
    }
}

/// The first `n` tag records, resolved against the bank.
pub open spec fn tag_table(d: Seq<u8>, bank: Map<Seq<char>, DefView>, n: int) -> Result<
    Seq<TagView>,
    Seq<char>,
>
    decreases n,
{
    if n <= 0 {
        Ok(Seq::empty())
    } else {
        match tag_table(d, bank, n - 1) {
            Err(m) => Err(m),
            Ok(tags) => match tag_record(d, bank, tags_start() + 20 * (n - 1)) {
                Err(m) => Err(m),
                Ok(tag) => Ok(tags.push(tag)),
            },
        }
    }
}

pub open spec fn text_field(s: Seq<char>) -> ScalarView {
    ScalarView::Text(s)
}

pub open spec fn bool_field(v: int) -> ScalarView {
    if v == 1 {
        ScalarView::Text("true"@)
    } else {
        ScalarView::Text("false"@)
    }
}

pub open spec fn guid_field(d: Seq<u8>, p: int) -> ScalarView {
    ScalarView::Text(guid_braced_upper(d.subrange(p, p + 16)))
}

pub open spec fn single_field(d: Seq<u8>, p: int) -> ScalarView {
    ScalarView::Single(u32_at(d, p) as u32)
}

/// `k` single precision fields stored back to back from `p`.
pub open spec fn singles(d: Seq<u8>, p: int, k: int) -> Seq<ScalarView> {
    Seq::new(k as nat, |i: int| single_field(d, p + 4 * i))
}

/// A value of `k` bytes at `p` made of the given fields.
pub open spec fn fixed(d: Seq<u8>, p: int, k: int, fields: Seq<ScalarView>) -> Result<
    (int, Option<Seq<ScalarView>>),
    Seq<char>,
> {
    if p + k > d.len() {
        Err(eof_message())
    } else {
        Ok((p + k, Some(fields)))
    }
}

/// A float vector of `components` floats at `p`, or an input pin when the
/// stored size says so: a size above the plain size, at least a GUID and one
/// float, and a whole number of floats after the GUID.
pub open spec fn float_value(d: Seq<u8>, p: int, components: int, size: int) -> Result<
    (int, Option<Seq<ScalarView>>),
    Seq<char>,
> {
    if size > components * 4 && size >= 20 && (size - 16) % 4 == 0 {
        let count = (size - 16) / 4;
        fixed(d, p, 16 + 4 * count, seq![guid_field(d, p)] + singles(d, p + 16, count))
    } else {
        fixed(d, p, 4 * components, singles(d, p, components))
    }
}

/// How a length prefixed payload turns into text: through the text table, or
/// (for curves) as UTF-8 with trailing nulls removed.
pub open spec fn payload_text(t: TextTable, curve: bool, bytes: Seq<u8>) -> Result<Seq<char>, Seq<char>> {
    if curve {
        curve_text(bytes)
    } else {
        t.decoded(bytes)
    }
}

/// A length prefixed value: the `i32` length, then that many bytes.
pub open spec fn sized_text(d: Seq<u8>, p: int, t: TextTable, curve: bool) -> Result<
    (int, Option<Seq<ScalarView>>),
    Seq<char>,
> {
    if p + 4 > d.len() {
        Err(eof_message())
    } else {
        let len = i32_at(d, p);
        if len < 0 {
            Err(negative_length_message(len))
        } else if len == 0 {
            Ok((p + 4, Some(seq![text_field(Seq::empty())])))
        } else if p + 4 + len > d.len() {
            Err(eof_message())
        } else {
            match payload_text(t, curve, d.subrange(p + 4, p + 4 + len)) {
                Err(m) => Err(m),
                Ok(s) => Ok((p + 4 + len, Some(seq![text_field(s)]))),
            }
        }
    }
}

/// A text without its trailing null characters.
pub open spec fn trim_nul_seq(s: Seq<char>) -> Seq<char>
    decreases s.len(),
{
    if s.len() > 0 && s.last() == '\0' {
        trim_nul_seq(s.drop_last())
    } else {
        s
    }
}

/// Remove trailing null characters.
pub fn trim_trailing_nul(s: &str) -> (r: Vec<char>)
    ensures
        r@ == trim_nul_seq(s@),
{
    let mut v = chars_of(s);
    while v.len() > 0 && v[v.len() - 1] == '\0'
        invariant
            trim_nul_seq(v@) == trim_nul_seq(s@),
        decreases v.len(),
    {
        let ghost before = v@;
        v.pop();
        assert(v@ =~= before.drop_last());
    }
    v
}

/// Decoding of a `BEZIERCURVE` payload.
pub open spec fn curve_text(bytes: Seq<u8>) -> Result<Seq<char>, Seq<char>> {
    Ok(trim_nul_seq(lossy_utf8(bytes)))
}

pub open spec fn decimal_field(n: int) -> ScalarView {
    ScalarView::Text(decimal(n))
}

/// One fixed size field of a property value.
#[derive(Clone, Copy, PartialEq, Eq, Structural)]
pub enum Field {
    /// A byte, written in decimal.
    U8Dec,
    /// An unsigned 32 bit integer, written in decimal.
    U32Dec,
    /// A signed 32 bit integer, written in decimal.
    I32Dec,
    /// A 32 bit flag: `true` when it is 1, `false` otherwise.
    Bool,
    /// A 16 byte GUID, written braced and uppercase.
    Guid,
    /// A single precision float.
    Single,
    /// A double precision float.
    Double,
    /// A 32 bit angle.
    Angle,
    /// A 24 byte latitude, longitude and altitude.
    Position,
    /// Four bytes that are read and not written.
    Skip4,
}

/// Bytes a field occupies.
pub open spec fn field_size(f: Field) -> int {
    match f {
        Field::U8Dec => 1,
        Field::Guid => 16,
        Field::Double => 8,
        Field::Position => 24,
        _ => 4,
    }
}

/// The value fields a field at `p` contributes.
pub open spec fn field_scalars(d: Seq<u8>, p: int, f: Field) -> Seq<ScalarView> {
    match f {
        Field::U8Dec => seq![decimal_field(d[p] as int)],
        Field::U32Dec => seq![decimal_field(u32_at(d, p))],
        Field::I32Dec => seq![decimal_field(i32_at(d, p))],
        Field::Bool => seq![bool_field(i32_at(d, p))],
        Field::Guid => seq![guid_field(d, p)],
        Field::Single => seq![single_field(d, p)],
        Field::Double => seq![ScalarView::Double(u64_at(d, p) as u64)],
        Field::Angle => seq![ScalarView::Angle(u32_at(d, p) as u32)],
        Field::Position => seq![
            ScalarView::Position(
                i64_at(d, p) as i64,
                i64_at(d, p + 8) as i64,
                u32_at(d, p + 16) as u32,
                i32_at(d, p + 20) as i32,
            ),
        ],
        Field::Skip4 => Seq::empty(),
    }
}

/// Total size of a layout.
pub open spec fn layout_size(fs: Seq<Field>) -> int
    decreases fs.len(),
{
    if fs.len() == 0 {
        0
    } else {
        layout_size(fs.drop_last()) + field_size(fs.last())
    }
}

/// The value fields of a layout stored back to back from `p`.
pub open spec fn layout_scalars(d: Seq<u8>, p: int, fs: Seq<Field>) -> Seq<ScalarView>
    decreases fs.len(),
{
    if fs.len() == 0 {
        Seq::empty()
    } else {
        layout_scalars(d, p, fs.drop_last()) + field_scalars(
            d,
            p + layout_size(fs.drop_last()),
            fs.last(),
        )
    }
}

/// The layout of each fixed size value type.
pub open spec fn layout_of(vt: Seq<char>) -> Option<Seq<Field>> {
    if vt == "ULONG"@ {
        Some(seq![Field::U32Dec])
    } else if vt == "LONG"@ {
        Some(seq![Field::I32Dec])
    } else if vt == "LONG2"@ {
        Some(seq![Field::I32Dec, Field::I32Dec])
    } else if vt == "LONG4"@ {
        Some(seq![Field::I32Dec, Field::I32Dec, Field::I32Dec, Field::I32Dec])
    } else if vt == "BOOL"@ {
        Some(seq![Field::Bool])
    } else if vt == "DOUBLE"@ {
        Some(seq![Field::Double])
    } else if vt == "BYTE4"@ {
        Some(seq![Field::U8Dec, Field::U8Dec, Field::U8Dec, Field::U8Dec])
    } else if vt == "GUID"@ || vt == "OUTPUTVALUE"@ {
        Some(seq![Field::Guid])
    } else if vt == "INPUTBOOL"@ {
        Some(seq![Field::Guid, Field::Bool])
    } else if vt == "INPUTLONG"@ {
        Some(seq![Field::Guid, Field::I32Dec])
    } else if vt == "INPUTULONG"@ {
        Some(seq![Field::Guid, Field::U32Dec])
    } else if vt == "INPUTVARIANT"@ || vt == "INPUTFLOAT"@ {
        Some(seq![Field::Guid, Field::Single])
    } else if vt == "INPUTFLOAT2"@ {
        Some(seq![Field::Guid, Field::Single, Field::Single])
    } else if vt == "INPUTFLOAT3"@ {
        Some(seq![Field::Guid, Field::Single, Field::Single, Field::Single])
    } else if vt == "INPUTCOLOR"@ {
        Some(seq![Field::Guid, Field::U8Dec, Field::U8Dec, Field::U8Dec, Field::U8Dec])
    } else if vt == "PBH"@ || vt == "PBH32"@ {
        Some(seq![Field::Angle, Field::Angle, Field::Angle, Field::Skip4])
    } else if vt == "LLA"@ {
        Some(seq![Field::Position])
    } else {
        None
    }
}

/// The value fields of a property whose definition is `def` and whose stored
/// value size is `size`, read from `p`. Value type names are matched without
/// regard to ASCII case. `None` marks a property that produces no output.
pub open spec fn property_value(
    d: Seq<u8>,
    t: TextTable,
    p: int,
    def: DefView,
    size: int,
) -> Result<(int, Option<Seq<ScalarView>>), Seq<char>> {
    let vt = upper_seq(def.value_type);
    if vt == "TEXT"@ || vt == "MLTEXT"@ {
        sized_text(d, p, t, false)
    } else if vt == "BEZIERCURVE"@ {
        sized_text(d, p, t, true)
    } else if vt == "FLOAT"@ {
        float_value(d, p, 1, size)
    } else if vt == "FLOAT2"@ {
        float_value(d, p, 2, size)
    } else if vt == "FLOAT3"@ {
        float_value(d, p, 3, size)
    } else if vt == "FLOAT4"@ {
        float_value(d, p, 4, size)
    } else if vt == "ENUM"@ {
        if p + 4 > d.len() {
            Err(eof_message())
        } else {
            let index = i32_at(d, p);
            if 0 <= index < def.enum_values.len() {
                Ok((p + 4, Some(seq![text_field(def.enum_values[index])])))
            } else {
                Err(enum_message(index, def.name))
            }
        }
    } else if vt == "FILETIME"@ {
        if p + 8 > d.len() {
            Err(eof_message())
        } else {
            Ok((p + 8, None))
        }
    } else {
        match layout_of(vt) {
            Some(fs) => fixed(d, p, layout_size(fs), layout_scalars(d, p, fs)),
            None => Err(unsupported_message(def.value_type, size)),
        }
    }
}

/// Whether the element name must be qualified with the owning symbol.
pub open spec fn needs_prefix(current: Option<Seq<char>>, symbol: Seq<char>) -> bool {
    current != Some(symbol)
}

/// The name `symbol.name`.
pub open spec fn qualified(symbol: Seq<char>, name: Seq<char>) -> Seq<char> {
    symbol + seq!['.'] + name
}

/// Where a property's value goes: an attribute of the parent when the
/// definition says so, otherwise a child element named after the property
/// (trailing white space removed), qualified with its symbol when that is not
/// empty and differs from the current context.
pub open spec fn property_item(current: Option<Seq<char>>, def: DefView, value: Seq<ScalarView>) -> Item {
    if def.is_attribute {
        Item::Attribute(def.name, value)
    } else {
        let leaf = trim_end_seq(def.name);
        let name = if def.symbol.len() != 0 && needs_prefix(current, def.symbol) {
            qualified(def.symbol, leaf)
        } else {
            leaf
        };
        Item::Child(
            ElementView {
                name,
                attributes: Seq::empty(),
                children: Seq::empty(),
                value: Some(value),
            },
        )
    }
}

/// The element name of a set.
pub open spec fn set_name(current: Option<Seq<char>>, def: DefView) -> Seq<char> {
    if needs_prefix(current, def.symbol) {
        qualified(def.symbol, def.name)
    } else {
        def.name
    }
}

/// The tag index an element tag value refers to (tag value minus one,
/// wrapping at the bottom of the `i32` range).
pub open spec fn tag_index(raw: int) -> int {
    if raw == i32::MIN {
        i32::MAX as int
    } else {
        raw - 1
    }
}

/// The body element at `p` within context `current`: the position after it
/// and what it contributes to its parent.
pub open spec fn element_item(
    d: Seq<u8>,
    tags: Seq<TagView>,
    t: TextTable,
    p: int,
    current: Option<Seq<char>>,
) -> Result<(int, Item), Seq<char>>
    decreases d.len() - p, 0int,
{
    if p < 0 || p + 4 > d.len() {
        Err(eof_message())
    } else {
        let index = tag_index(i32_at(d, p));
        if index == -1 {
            Ok((p + 4, Item::Nothing))
        } else if index < 0 || index >= tags.len() {
            Err(tag_index_message(index))
        } else {
            let tag = tags[index];
            match tag.def.kind {
                Kind::Type => Err(type_tag_message(tag.def.name)),
                Kind::Property => match property_value(d, t, p + 4, tag.def, tag.size) {
                    Err(m) => Err(m),
                    Ok((q, None)) => Ok((q, Item::Nothing)),
                    Ok((q, Some(v))) => Ok((q, property_item(current, tag.def, v))),
                },
                Kind::PropertySet => set_item(d, tags, t, p + 4, current, tag.def),
            }
        }
    }
}

/// A set element whose tag has been read, its body length at `p`.
pub open spec fn set_item(
    d: Seq<u8>,
    tags: Seq<TagView>,
    t: TextTable,
    p: int,
    current: Option<Seq<char>>,
    def: DefView,
) -> Result<(int, Item), Seq<char>>
    decreases d.len() - p, 0int,
{
    if p < 0 || p + 4 > d.len() {
        Err(eof_message())
    } else {
        let len = i32_at(d, p);
        if len < 0 {
            Err(negative_set_message(def.name))
        } else {
            let start = p + 4;
            let node = ElementView {
                name: set_name(current, def),
                attributes: Seq::empty(),
                children: Seq::empty(),
                value: None,
            };
            match set_children(d, tags, t, start, start + len, def.symbol, node) {
                Err(m) => Err(m),
                Ok((q, node)) => if q != start + len {
                    Err(overrun_message(def.name))
                } else {
                    Ok((q, Item::Child(node)))
                },
            }
        }
    }
}

/// The children of a set read from `q` while the position is below `end`,
/// added to `acc`: the position after them and the completed element.
pub open spec fn set_children(
    d: Seq<u8>,
    tags: Seq<TagView>,
    t: TextTable,
    q: int,
    end: int,
    symbol: Seq<char>,
    acc: ElementView,
) -> Result<(int, ElementView), Seq<char>>
    decreases d.len() - q, 1int,
{
    if q >= end {
        Ok((q, acc))
    } else if q < 0 || q > d.len() {
        Err(eof_message())
    } else {
        match element_item(d, tags, t, q, Some(symbol)) {
            Err(m) => Err(m),
            Ok((q2, item)) => if q2 <= q || q2 > d.len() {
                Err(eof_message())
            } else {
                set_children(d, tags, t, q2, end, symbol, with_item(acc, item))
            },
        }
    }
}

/// The document an SPB byte stream decodes to, or the message of the error
/// that decoding stops at.
pub open spec fn decoded_document(d: Seq<u8>, bank: Map<Seq<char>, DefView>, t: TextTable) -> Result<
    ElementView,
    Seq<char>,
> {
    if d.len() < 2 {
        Err(eof_message())
    } else if u16_at(d, 0) != FILE_ID {
        Err(bad_id_message())
    } else if d.len() < tags_start() {
        Err(eof_message())
    } else {
        let count = i32_at(d, 26int);
        if count <= 0 {
            Err(tag_count_message(count))
        } else {
            match tag_table(d, bank, count - 1) {
                Err(m) => Err(m),
                Ok(tags) => match element_item(d, tags, t, tags_start() + 20 * (count - 1), None) {
                    Err(m) => Err(m),
                    Ok((_, Item::Child(root))) => Ok(root),
                    Ok(_) => Err(root_message(0)),
                },
            }
        }
    }
}

} // verus!

verus! {

/// A value read at `pos` matches what the specification says.
pub open spec fn value_outcome(
    r: Result<Option<Vec<Scalar>>, Error>,
    pos: int,
    s: Result<(int, Option<Seq<ScalarView>>), Seq<char>>,
) -> bool {
    match s {
        Ok((q, v)) => r is Ok && pos == q && match r->Ok_0 {
            Some(x) => v == Some(scalars_view(x@)),
            None => v is None,
        },
        Err(m) => r is Err && r->Err_0@ == ErrorView::Format(m),
    }
}

fn text_scalar(v: &Vec<char>) -> (s: Scalar)
    ensures
        s@ == ScalarView::Text(v@),
{
    Scalar::Text(string_from_chars(v))
}

fn decimal_scalar(n: i64) -> (s: Scalar)
    ensures
        s@ == decimal_field(n as int),
{
    let mut v: Vec<char> = Vec::new();
    push_decimal(n, &mut v);
    assert(v@ =~= decimal(n as int));
    text_scalar(&v)
}

fn bool_scalar(v: i32) -> (s: Scalar)
    ensures
        s@ == bool_field(v as int),
{
    if v == 1 {
        Scalar::Text(String::from_str("true"))
    } else {
        Scalar::Text(String::from_str("false"))
    }
}

fn push_scalar(out: &mut Vec<Scalar>, s: Scalar)
    ensures
        scalars_view(final(out)@) == scalars_view(old(out)@).push(s@),
{
    out.push(s);
    assert(scalars_view(final(out)@) =~= scalars_view(old(out)@).push(s@));
}

proof fn lemma_layout_size_grows(fs: Seq<Field>, k: int)
    requires
        0 <= k <= fs.len(),
    ensures
        layout_size(fs.take(k)) <= layout_size(fs),
        layout_size(fs.take(k)) >= 0,
    decreases fs.len() - k,
{
    if k < fs.len() {
        lemma_layout_size_grows(fs, k + 1);
        assert(fs.take(k + 1).drop_last() =~= fs.take(k));
    } else {
        assert(fs.take(k) =~= fs);
    }
    lemma_layout_size_nonneg(fs.take(k));
}

proof fn lemma_layout_size_nonneg(fs: Seq<Field>)
    ensures
        layout_size(fs) >= 0,
    decreases fs.len(),
{
    if fs.len() > 0 {
        lemma_layout_size_nonneg(fs.drop_last());
    }
}

/// Read one field, appending what it contributes.
fn read_field(reader: &mut Reader, f: Field, out: &mut Vec<Scalar>) -> (r: Result<(), Error>)
    requires
        old(reader).pos <= old(reader).data@.len(),
    ensures
        final(reader).data@ == old(reader).data@,
        final(reader).pos <= final(reader).data@.len(),
        final(reader).pos >= old(reader).pos,
        old(reader).has(field_size(f)) ==> r is Ok && final(reader).pos == old(reader).pos
            + field_size(f) && scalars_view(final(out)@) == scalars_view(old(out)@) + field_scalars(
            old(reader).data@,
            old(reader).pos as int,
            f,
        ),
        !old(reader).has(field_size(f)) ==> r is Err && r->Err_0@ == ErrorView::Format(
            eof_message(),
        ),
{
    let ghost d = reader.data@;
    let ghost p = reader.pos as int;
    match f {
        Field::U8Dec => {
            let v = reader.u8()?;
            push_scalar(out, decimal_scalar(v as i64));
        },
        Field::U32Dec => {
            let v = reader.u32()?;
            push_scalar(out, decimal_scalar(v as i64));
        },
        Field::I32Dec => {
            let v = reader.i32()?;
            push_scalar(out, decimal_scalar(v as i64));
        },
        Field::Bool => {
            let v = reader.i32()?;
            push_scalar(out, bool_scalar(v));
        },
        Field::Guid => {
            let g = reader.guid()?;
            push_scalar(out, text_scalar(&braced_upper_chars(&g)));
        },
        Field::Single => {
            let v = reader.u32()?;
            push_scalar(out, Scalar::Single(v));
        },
        Field::Double => {
            let v = reader.u64()?;
            push_scalar(out, Scalar::Double(v));
        },
        Field::Angle => {
            let v = reader.u32()?;
            push_scalar(out, Scalar::Angle(v));
        },
        Field::Position => {
            if reader.data.len() - reader.pos < 24 {
                return Err(eof_error());
            }
            let lat = reader.i64()?;
            let lon = reader.i64()?;
            let frac = reader.u32()?;
            let whole = reader.i32()?;
            push_scalar(out, Scalar::Position(lat, lon, frac, whole));
        },
        Field::Skip4 => {
            let _ = reader.i32()?;
        },
    }
    assert(scalars_view(final(out)@) =~= scalars_view(old(out)@) + field_scalars(d, p, f));
    Ok(())
}

/// Read the fields of a layout.
fn read_layout(reader: &mut Reader, fs: &Vec<Field>) -> (r: Result<Vec<Scalar>, Error>)
    requires
        old(reader).pos <= old(reader).data@.len(),
    ensures
        final(reader).data@ == old(reader).data@,
        final(reader).pos <= final(reader).data@.len(),
        final(reader).pos >= old(reader).pos,
        old(reader).has(layout_size(fs@)) ==> r is Ok && final(reader).pos == old(reader).pos
            + layout_size(fs@) && scalars_view(r->Ok_0@) == layout_scalars(
            old(reader).data@,
            old(reader).pos as int,
            fs@,
        ),
        !old(reader).has(layout_size(fs@)) ==> r is Err && r->Err_0@ == ErrorView::Format(
            eof_message(),
        ),
{
    let ghost d = reader.data@;
    let ghost p = reader.pos as int;
    let mut out: Vec<Scalar> = Vec::new();
    let mut i: usize = 0;
    while i < fs.len()
        invariant
            i <= fs.len(),
            reader.data@ == d,
            d == old(reader).data@,
            p == old(reader).pos,
            reader.pos == p + layout_size(fs@.take(i as int)),
            reader.pos >= p,
            reader.pos <= d.len(),
            scalars_view(out@) == layout_scalars(d, p, fs@.take(i as int)),
        decreases fs.len() - i,
    {
        let ghost before = out@;
        proof {
            lemma_layout_size_grows(fs@, i + 1);
            assert(fs@.take(i + 1).drop_last() =~= fs@.take(i as int));
        }
        read_field(reader, fs[i], &mut out)?;
        i = i + 1;
    }
    proof {
        assert(fs@.take(i as int) =~= fs@);
    }
    Ok(out)
}

/// Read `k` single precision floats.
fn read_singles(reader: &mut Reader, k: usize, out: &mut Vec<Scalar>) -> (r: Result<(), Error>)
    requires
        old(reader).pos <= old(reader).data@.len(),
    ensures
        final(reader).data@ == old(reader).data@,
        final(reader).pos <= final(reader).data@.len(),
        final(reader).pos >= old(reader).pos,
        old(reader).has(4 * k) ==> r is Ok && final(reader).pos == old(reader).pos + 4 * k
            && scalars_view(final(out)@) == scalars_view(old(out)@) + singles(
            old(reader).data@,
            old(reader).pos as int,
            k as int,
        ),
        !old(reader).has(4 * k) ==> r is Err && r->Err_0@ == ErrorView::Format(eof_message()),
{
    let ghost d = reader.data@;
    let ghost p = reader.pos as int;
    let ghost base = scalars_view(out@);
    let mut i: usize = 0;
    while i < k
        invariant
            i <= k,
            reader.data@ == d,
            d == old(reader).data@,
            p == old(reader).pos,
            base == scalars_view(old(out)@),
            reader.pos == p + 4 * i,
            reader.pos >= p,
            reader.pos <= d.len(),
            scalars_view(out@) == base + singles(d, p, i as int),
        decreases k - i,
    {
        let v = reader.u32()?;
        push_scalar(out, Scalar::Single(v));
        i = i + 1;
        assert(scalars_view(out@) =~= base + singles(d, p, i as int));
    }
    Ok(())
}

fn read_float_value(reader: &mut Reader, components: usize, size: i32) -> (r: Result<
    Option<Vec<Scalar>>,
    Error,
>)
    requires
        old(reader).pos <= old(reader).data@.len(),
        1 <= components <= 4,
    ensures
        final(reader).data@ == old(reader).data@,
        final(reader).pos <= final(reader).data@.len(),
        final(reader).pos >= old(reader).pos,
        value_outcome(
            r,
            final(reader).pos as int,
            float_value(old(reader).data@, old(reader).pos as int, components as int, size as int),
        ),
{
    let ghost d = reader.data@;
    let ghost p = reader.pos as int;
    let plain = (components * 4) as i32;
    let mut parts: Vec<Scalar> = Vec::new();
    if size > plain && size >= 20 && (size - 16) % 4 == 0 {
        let count = ((size - 16) / 4) as usize;
        if reader.data.len() - reader.pos < 16 {
            return Err(eof_error());
        }
        let g = reader.guid()?;
        push_scalar(&mut parts, text_scalar(&braced_upper_chars(&g)));
        read_singles(reader, count, &mut parts)?;
        assert(scalars_view(parts@) =~= seq![guid_field(d, p)] + singles(d, p + 16, count as int));
    } else {
        read_singles(reader, components, &mut parts)?;
        assert(scalars_view(parts@) =~= singles(d, p, components as int));
    }
    Ok(Some(parts))
}

fn read_sized_text(reader: &mut Reader, text: &TextTable, curve: bool) -> (r: Result<
    Option<Vec<Scalar>>,
    Error,
>)
    requires
        old(reader).pos <= old(reader).data@.len(),
    ensures
        final(reader).data@ == old(reader).data@,
        final(reader).pos <= final(reader).data@.len(),
        final(reader).pos >= old(reader).pos,
        value_outcome(
            r,
            final(reader).pos as int,
            sized_text(old(reader).data@, old(reader).pos as int, *text, curve),
        ),
{
    let len = reader.i32()?;
    if len < 0 {
        let mut msg: Vec<char> = Vec::new();
        push_str(&mut msg, "negative length ");
        push_decimal(len as i64, &mut msg);
        assert(msg@ =~= negative_length_message(len as int));
        return Err(Error::Format(string_from_chars(&msg)));
    }
    let mut parts: Vec<Scalar> = Vec::new();
    if len == 0 {
        push_scalar(&mut parts, Scalar::Text(String::new()));
        assert(scalars_view(parts@) =~= seq![text_field(Seq::empty())]);
        return Ok(Some(parts));
    }
    let bytes = reader.bytes(len as usize)?;
    if curve {
        let decoded = utf8_lossy(bytes);
        let trimmed = trim_trailing_nul(decoded.as_str());
        push_scalar(&mut parts, text_scalar(&trimmed));
        assert(scalars_view(parts@) =~= seq![text_field(trimmed@)]);
    } else {
        let decoded = text.decode(bytes)?;
        push_scalar(&mut parts, Scalar::Text(decoded));
        assert(scalars_view(parts@) =~= seq![text_field(decoded@)]);
    }
    Ok(Some(parts))
}

} // verus!

verus! {

/// Whether the characters of `vt` spell `name`.
fn spells(vt: &Vec<char>, name: &str) -> (b: bool)
    ensures
        b == (vt@ == name@),
{
    chars_eq(vt, &chars_of(name))
}

fn layout_for(vt: &Vec<char>) -> (r: Option<Vec<Field>>)
    ensures
        match layout_of(vt@) {
            Some(fs) => r is Some && r->Some_0@ == fs,
            None => r is None,
        },
{
    let r = if spells(vt, "ULONG") {
        Some(vec![Field::U32Dec])
    } else if spells(vt, "LONG") {
        Some(vec![Field::I32Dec])
    } else if spells(vt, "LONG2") {
        Some(vec![Field::I32Dec, Field::I32Dec])
    } else if spells(vt, "LONG4") {
        Some(vec![Field::I32Dec, Field::I32Dec, Field::I32Dec, Field::I32Dec])
    } else if spells(vt, "BOOL") {
        Some(vec![Field::Bool])
    } else if spells(vt, "DOUBLE") {
        Some(vec![Field::Double])
    } else if spells(vt, "BYTE4") {
        Some(vec![Field::U8Dec, Field::U8Dec, Field::U8Dec, Field::U8Dec])
    } else if spells(vt, "GUID") || spells(vt, "OUTPUTVALUE") {
        Some(vec![Field::Guid])
    } else if spells(vt, "INPUTBOOL") {
        Some(vec![Field::Guid, Field::Bool])
    } else if spells(vt, "INPUTLONG") {
        Some(vec![Field::Guid, Field::I32Dec])
    } else if spells(vt, "INPUTULONG") {
        Some(vec![Field::Guid, Field::U32Dec])
    } else if spells(vt, "INPUTVARIANT") || spells(vt, "INPUTFLOAT") {
        Some(vec![Field::Guid, Field::Single])
    } else if spells(vt, "INPUTFLOAT2") {
        Some(vec![Field::Guid, Field::Single, Field::Single])
    } else if spells(vt, "INPUTFLOAT3") {
        Some(vec![Field::Guid, Field::Single, Field::Single, Field::Single])
    } else if spells(vt, "INPUTCOLOR") {
        Some(vec![Field::Guid, Field::U8Dec, Field::U8Dec, Field::U8Dec, Field::U8Dec])
    } else if spells(vt, "PBH") || spells(vt, "PBH32") {
        Some(vec![Field::Angle, Field::Angle, Field::Angle, Field::Skip4])
    } else if spells(vt, "LLA") {
        Some(vec![Field::Position])
    } else {
        None
    };
    proof {
        match layout_of(vt@) {
            Some(fs) => assert(r->Some_0@ =~= fs),
            None => {},
        }
    }
    r
}

fn read_property_value(reader: &mut Reader, def: &Def, size: i32, text: &TextTable) -> (r: Result<
    Option<Vec<Scalar>>,
    Error,
>)
    requires
        old(reader).pos <= old(reader).data@.len(),
    ensures
        final(reader).data@ == old(reader).data@,
        final(reader).pos <= final(reader).data@.len(),
        final(reader).pos >= old(reader).pos,
        value_outcome(
            r,
            final(reader).pos as int,
            property_value(old(reader).data@, *text, old(reader).pos as int, def@, size as int),
        ),
{
    let vt = upper_chars(&chars_of(def.value_type.as_str()));
    if spells(&vt, "TEXT") || spells(&vt, "MLTEXT") {
        read_sized_text(reader, text, false)
    } else if spells(&vt, "BEZIERCURVE") {
        read_sized_text(reader, text, true)
    } else if spells(&vt, "FLOAT") {
        read_float_value(reader, 1, size)
    } else if spells(&vt, "FLOAT2") {
        read_float_value(reader, 2, size)
    } else if spells(&vt, "FLOAT3") {
        read_float_value(reader, 3, size)
    } else if spells(&vt, "FLOAT4") {
        read_float_value(reader, 4, size)
    } else if spells(&vt, "ENUM") {
        let index = reader.i32()?;
        if 0 <= index && (index as usize) < def.enum_values.len() {
            let mut parts: Vec<Scalar> = Vec::new();
            push_scalar(&mut parts, Scalar::Text(def.enum_values[index as usize].clone()));
            assert(scalars_view(parts@) =~= seq![text_field(def@.enum_values[index as int])]);
            Ok(Some(parts))
        } else {
            let mut msg: Vec<char> = Vec::new();
            push_str(&mut msg, "enum index ");
            push_decimal(index as i64, &mut msg);
            push_str(&mut msg, " out of range for '");
            push_str(&mut msg, def.name.as_str());
            push_str(&mut msg, "'");
            assert(msg@ =~= enum_message(index as int, def@.name));
            Err(Error::Format(string_from_chars(&msg)))
        }
    } else if spells(&vt, "FILETIME") {
        let _ = reader.bytes(8)?;
        Ok(None)
    } else {
        match layout_for(&vt) {
            Some(fs) => {
                let parts = read_layout(reader, &fs)?;
                Ok(Some(parts))
            },
            None => {
                let mut msg: Vec<char> = Vec::new();
                push_str(&mut msg, "unsupported value type '");
                push_str(&mut msg, def.value_type.as_str());
                push_str(&mut msg, "' (size ");
                push_decimal(size as i64, &mut msg);
                push_str(&mut msg, ")");
                assert(msg@ =~= unsupported_message(def@.value_type, size as int));
                Err(Error::Format(string_from_chars(&msg)))
            },
        }
    }
}

} // verus!

verus! {

/// The context symbol as a character sequence.
pub open spec fn context_view(current: Option<&str>) -> Option<Seq<char>> {
    match current {
        Some(s) => Some(s@),
        None => None,
    }
}

fn differs(current: Option<&str>, symbol: &str) -> (b: bool)
    ensures
        b == needs_prefix(context_view(current), symbol@),
{
    match current {
        Some(c) => !chars_eq(&chars_of(c), &chars_of(symbol)),
        None => true,
    }
}

fn qualified_name(symbol: &str, name: &Vec<char>) -> (r: Vec<char>)
    ensures
        r@ == qualified(symbol@, name@),
{
    let mut r: Vec<char> = Vec::new();
    push_str(&mut r, symbol);
    r.push('.');
    push_all(&mut r, name);
    r
}

fn empty_element(name: String, value: Option<Vec<Scalar>>) -> (e: Element)
    ensures
        e@ == (ElementView {
            name: name@,
            attributes: Seq::empty(),
            children: Seq::empty(),
            value: match value {
                Some(v) => Some(scalars_view(v@)),
                None => None,
            },
        }),
{
    let e = Element { name, attributes: Vec::new(), children: Vec::new(), value };
    assert(e@.attributes =~= Seq::<(Seq<char>, Seq<ScalarView>)>::empty());
    assert(elements_view(e.children@, 0) == Seq::<ElementView>::empty());
    e
}

fn push_child(parent: &mut Element, child: Element)
    ensures
        final(parent)@ == with_item(old(parent)@, Item::Child(child@)),
{
    proof {
        lemma_elements_view_push(parent.children@, child);
    }
    parent.children.push(child);
    assert(final(parent)@.children == old(parent)@.children.push(child@));
}

fn push_attribute(parent: &mut Element, name: String, value: Vec<Scalar>)
    ensures
        final(parent)@ == with_item(old(parent)@, Item::Attribute(name@, scalars_view(value@))),
{
    let ghost n = name@;
    let ghost v = scalars_view(value@);
    parent.attributes.push((name, value));
    assert(final(parent)@.attributes =~= old(parent)@.attributes.push((n, v)));
}

fn add_property(current: Option<&str>, prop: &Def, value: Vec<Scalar>, parent: &mut Element)
    ensures
        final(parent)@ == with_item(
            old(parent)@,
            property_item(context_view(current), prop@, scalars_view(value@)),
        ),
{
    if prop.is_attribute {
        push_attribute(parent, prop.name.clone(), value);
        return;
    }
    let leaf = trim_end_chars(&chars_of(prop.name.as_str()));
    let name = if !prop.symbol.as_str().is_empty() && differs(current, prop.symbol.as_str()) {
        qualified_name(prop.symbol.as_str(), &leaf)
    } else {
        leaf
    };
    let ghost v = scalars_view(value@);
    let child = empty_element(string_from_chars(&name), Some(value));
    push_child(parent, child);
}

fn message_with_name(prefix: &str, name: &str, suffix: &str) -> (e: Error)
    ensures
        e@ == ErrorView::Format(prefix@ + name@ + suffix@),
{
    let mut msg: Vec<char> = Vec::new();
    push_str(&mut msg, prefix);
    push_str(&mut msg, name);
    push_str(&mut msg, suffix);
    Error::Format(string_from_chars(&msg))
}

fn parse_element(
    reader: &mut Reader,
    tags: &Vec<Tag>,
    current: Option<&str>,
    parent: &mut Element,
    text: &TextTable,
) -> (r: Result<(), Error>)
    requires
        old(reader).pos <= old(reader).data@.len(),
    ensures
        final(reader).data@ == old(reader).data@,
        final(reader).pos <= final(reader).data@.len(),
        final(reader).pos >= old(reader).pos,
        r is Ok ==> old(reader).pos < final(reader).pos,
        r is Err ==> final(parent)@ == old(parent)@,
        match element_item(
            old(reader).data@,
            tags_view(tags@),
            *text,
            old(reader).pos as int,
            context_view(current),
        ) {
            Ok((q, item)) => r is Ok && final(reader).pos == q && final(parent)@ == with_item(
                old(parent)@,
                item,
            ),
            Err(m) => r is Err && r->Err_0@ == ErrorView::Format(m),
        },
    decreases old(reader).data@.len() - old(reader).pos,
{
    let raw = reader.i32()?;
    let index = if raw == i32::MIN {
        i32::MAX
    } else {
        raw - 1
    };
    if index == -1 {
        return Ok(());
    }
    if index < 0 || index as usize >= tags.len() {
        let mut msg: Vec<char> = Vec::new();
        push_str(&mut msg, "invalid tag index ");
        push_decimal(index as i64, &mut msg);
        assert(msg@ =~= tag_index_message(index as int));
        return Err(Error::Format(string_from_chars(&msg)));
    }
    let tag = &tags[index as usize];
    assert(tags_view(tags@)[index as int] == TagView { def: tag.def@, size: tag.size as int });
    match tag.def.kind {
        Kind::PropertySet => parse_set(reader, tags, current, tag.def, parent, text),
        Kind::Property => {
            let value = read_property_value(reader, tag.def, tag.size, text)?;
            match value {
                Some(v) => add_property(current, tag.def, v, parent),
                None => {},
            }
            Ok(())
        },
        Kind::Type => Err(message_with_name("unexpected type tag '", tag.def.name.as_str(), "'")),
    }
}

fn parse_set(
    reader: &mut Reader,
    tags: &Vec<Tag>,
    current: Option<&str>,
    set: &Def,
    parent: &mut Element,
    text: &TextTable,
) -> (r: Result<(), Error>)
    requires
        old(reader).pos <= old(reader).data@.len(),
    ensures
        final(reader).data@ == old(reader).data@,
        final(reader).pos <= final(reader).data@.len(),
        final(reader).pos >= old(reader).pos,
        r is Ok ==> old(reader).pos < final(reader).pos,
        r is Err ==> final(parent)@ == old(parent)@,
        match set_item(
            old(reader).data@,
            tags_view(tags@),
            *text,
            old(reader).pos as int,
            context_view(current),
            set@,
        ) {
            Ok((q, item)) => r is Ok && final(reader).pos == q && final(parent)@ == with_item(
                old(parent)@,
                item,
            ),
            Err(m) => r is Err && r->Err_0@ == ErrorView::Format(m),
        },
    decreases old(reader).data@.len() - old(reader).pos,
{
    let ghost d = reader.data@;
    let ghost tv = tags_view(tags@);
    let byte_length = reader.i32()?;
    if byte_length < 0 {
        return Err(message_with_name("negative set length for '", set.name.as_str(), "'"));
    }
    let start = reader.position();
    let name = if differs(current, set.symbol.as_str()) {
        qualified_name(set.symbol.as_str(), &chars_of(set.name.as_str()))
    } else {
        chars_of(set.name.as_str())
    };
    let mut node = empty_element(string_from_chars(&name), None);
    let ghost init = node@;
    assert(init == ElementView {
        name: set_name(context_view(current), set@),
        attributes: Seq::empty(),
        children: Seq::empty(),
        value: None,
    });
    let ghost end = start + byte_length as int;
    let length = byte_length as usize;
    while reader.position() - start < length
        invariant
            reader.data@ == d,
            d == old(reader).data@,
            start <= reader.pos <= d.len(),
            start == old(reader).pos + 4,
            end == start + length,
            length == byte_length,
            byte_length == i32_at(d, old(reader).pos as int),
            old(reader).pos + 4 <= d.len(),
            init == (ElementView {
                name: set_name(context_view(current), set@),
                attributes: Seq::empty(),
                children: Seq::empty(),
                value: None,
            }),
            tv == tags_view(tags@),
            set_children(d, tv, *text, reader.pos as int, end, set@.symbol, node@) == set_children(
                d,
                tv,
                *text,
                start as int,
                end,
                set@.symbol,
                init,
            ),
        decreases d.len() - reader.pos,
    {
        let ghost q = reader.pos as int;
        let ghost acc = node@;
        let step = parse_element(reader, tags, Some(set.symbol.as_str()), &mut node, text);
        if step.is_err() {
            assert(set_children(d, tv, *text, q, end, set@.symbol, acc) == Err::<(int, ElementView), Seq<char>>(
                element_item(d, tv, *text, q, Some(set@.symbol))->Err_0,
            ));
            return step;
        }
    }
    if reader.position() - start != length {
        return Err(message_with_name("set '", set.name.as_str(), "' overran its declared length"));
    }
    push_child(parent, node);
    Ok(())
}

fn read_tag<'b>(reader: &mut Reader, bank: &'b Bank) -> (r: Result<Tag<'b>, Error>)
    requires
        old(reader).pos <= old(reader).data@.len(),
    ensures
        final(reader).data@ == old(reader).data@,
        final(reader).pos <= final(reader).data@.len(),
        match tag_record(old(reader).data@, bank.view(), old(reader).pos as int) {
            Ok(tv) => r is Ok && tv == (TagView { def: r->Ok_0.def@, size: r->Ok_0.size as int })
                && final(reader).pos == old(reader).pos + 20,
            Err(m) => r is Err && r->Err_0@ == ErrorView::Format(m),
        },
{
    if reader.data.len() - reader.pos < 20 {
        return Err(eof_error());
    }
    let id = reader.guid()?;
    let size = reader.i32()?;
    let key = lower_chars(&id);
    match bank.get_chars(&key) {
        Some(def) => Ok(Tag { def, size }),
        None => {
            let mut msg: Vec<char> = Vec::new();
            push_str(&mut msg, "unbound property GUID: {");
            push_all(&mut msg, &key);
            push_str(&mut msg, "}");
            assert(msg@ =~= unbound_message(key@));
            Err(Error::Format(string_from_chars(&msg)))
        },
    }
}

fn read_tags<'b>(reader: &mut Reader, bank: &'b Bank, tag_count: i32) -> (r: Result<Vec<Tag<'b>>, Error>)
    requires
        old(reader).pos == 50,
        old(reader).pos <= old(reader).data@.len(),
        tag_count > 0,
    ensures
        final(reader).data@ == old(reader).data@,
        final(reader).pos <= final(reader).data@.len(),
        match tag_table(old(reader).data@, bank.view(), tag_count - 1) {
            Ok(tv) => r is Ok && tags_view(r->Ok_0@) == tv && final(reader).pos == 50 + 20 * (
            tag_count - 1),
            Err(m) => r is Err && r->Err_0@ == ErrorView::Format(m),
        },
{
    let ghost d = reader.data@;
    let mut tags: Vec<Tag> = Vec::new();
    assert(tags_view(tags@) =~= Seq::<TagView>::empty());
    let mut k: i32 = 0;
    while k < tag_count - 1
        invariant
            0 <= k <= tag_count - 1,
            reader.data@ == d,
            d == old(reader).data@,
            reader.pos == 50 + 20 * k,
            reader.pos <= d.len(),
            tag_table(d, bank.view(), k as int) == Ok::<Seq<TagView>, Seq<char>>(tags_view(tags@)),
        decreases tag_count - 1 - k,
    {
        let tag = match read_tag(reader, bank) {
            Ok(tag) => tag,
            Err(e) => {
                proof {
                    lemma_tag_table_error(d, bank.view(), k as int + 1, tag_count - 1);
                }
                return Err(e);
            },
        };
        let ghost before = tags@;
        tags.push(tag);
        assert(tags_view(tags@) =~= tags_view(before).push(TagView { def: tag.def@, size: tag.size as int }));
        k = k + 1;
    }
    Ok(tags)
}

/// Skip the twelve header entries, returning the tag count (entry 6).
fn read_header(reader: &mut Reader) -> (count: i32)
    requires
        old(reader).pos == 2,
        old(reader).data@.len() >= 50,
    ensures
        final(reader).data@ == old(reader).data@,
        final(reader).pos == 50,
        count == i32_at(old(reader).data@, 26),
{
    let ghost d = reader.data@;
    let mut tag_count: i32 = 0;
    let mut entry: usize = 0;
    while entry < 12
        invariant
            entry <= 12,
            reader.data@ == d,
            d == old(reader).data@,
            d.len() >= 50,
            reader.pos == 2 + 4 * entry,
            entry > 6 ==> tag_count == i32_at(d, 26),
        decreases 12 - entry,
    {
        let v = match reader.i32() {
            Ok(v) => v,
            Err(_) => 0,
        };
        if entry == 6 {
            tag_count = v;
        }
        entry = entry + 1;
    }
    tag_count
}

/// Decode an SPB byte stream into an element tree.
pub fn parse(data: &[u8], bank: &Bank, text: &TextTable) -> (r: Result<Element, Error>)
    ensures
        match decoded_document(data@, bank.view(), *text) {
            Ok(e) => r is Ok && r->Ok_0@ == e,
            Err(m) => r is Err && r->Err_0@ == ErrorView::Format(m),
        },
{
    let ghost d = data@;
    let mut reader = Reader::new(data);
    if reader.u16()? != FILE_ID {
        return Err(Error::Format(String::from_str("not an SPB file: bad file id")));
    }
    if data.len() < 50 {
        return Err(eof_error());
    }
    let tag_count = read_header(&mut reader);
    if tag_count <= 0 {
        let mut msg: Vec<char> = Vec::new();
        push_str(&mut msg, "invalid SPB tag count: ");
        push_decimal(tag_count as i64, &mut msg);
        assert(msg@ =~= tag_count_message(tag_count as int));
        return Err(Error::Format(string_from_chars(&msg)));
    }
    let tags = read_tags(&mut reader, bank, tag_count)?;
    let mut document = empty_element(String::from_str("#document"), None);
    parse_element(&mut reader, &tags, None, &mut document, text)?;
    proof {
        lemma_elements_view(document.children@, document.children@.len() as int);
    }
    if document.children.len() != 1 {
        let mut msg: Vec<char> = Vec::new();
        push_str(&mut msg, "expected exactly one root element, found ");
        push_unsigned(document.children.len() as u64, &mut msg);
        assert(msg@ =~= root_message(document.children@.len() as int));
        return Err(Error::Format(string_from_chars(&msg)));
    }
    let ghost before = document.children@;
    let ghost docv = document@;
    let root = document.children.pop().unwrap();
    assert(root == before[0]);
    assert(root@ == docv.children[0]);
    Ok(root)
}

proof fn lemma_tag_table_error(d: Seq<u8>, bank: Map<Seq<char>, DefView>, k: int, n: int)
    requires
        0 < k,
        tag_table(d, bank, k) is Err,
    ensures
        k <= n ==> tag_table(d, bank, n) == tag_table(d, bank, k),
    decreases n - k,
{
    if k < n {
        lemma_tag_table_error(d, bank, k, n - 1);
    }
}

} // verus!

verus! {

/// The float value size rule: a stored size of exactly `components * 4`
/// bytes is a plain float vector; a larger size of a GUID plus a whole number
/// of floats is an input pin, a source GUID followed by `(size - 16) / 4`
/// floats.
pub proof fn float_size_rule(d: Seq<u8>, p: int, components: int, size: int)
    requires
        1 <= components <= 4,
    ensures
        size == components * 4 ==> float_value(d, p, components, size) == fixed(
            d,
            p,
            4 * components,
            singles(d, p, components),
        ),
        size > components * 4 && size >= 20 && (size - 16) % 4 == 0 ==> float_value(
            d,
            p,
            components,
            size,
        ) == fixed(
            d,
            p,
            size,
            seq![guid_field(d, p)] + singles(d, p + 16, (size - 16) / 4),
        ),
{
}

/// Value type names are matched without regard to ASCII case: two
/// definitions that differ only in the case of their value type decode the
/// same bytes the same way, unless the type is unknown, in which case both
/// are refused, each quoting its own spelling.
pub proof fn value_types_ignore_case(d: Seq<u8>, t: TextTable, p: int, def1: DefView, def2: DefView, size: int)
    requires
        upper_seq(def1.value_type) == upper_seq(def2.value_type),
        def1.kind == def2.kind,
        def1.name == def2.name,
        def1.symbol == def2.symbol,
        def1.enum_values == def2.enum_values,
        def1.is_attribute == def2.is_attribute,
    ensures
        property_value(d, t, p, def1, size) == property_value(d, t, p, def2, size) || (
        property_value(d, t, p, def1, size) == Err::<(int, Option<Seq<ScalarView>>), Seq<char>>(
            unsupported_message(def1.value_type, size),
        ) && property_value(d, t, p, def2, size) == Err::<
            (int, Option<Seq<ScalarView>>),
            Seq<char>,
        >(unsupported_message(def2.value_type, size))),
{
}

/// A tag value of 0 marks an absent element: it contributes nothing and
/// takes four bytes.
pub proof fn absent_element(
    d: Seq<u8>,
    tags: Seq<TagView>,
    t: TextTable,
    p: int,
    current: Option<Seq<char>>,
)
    requires
        0 <= p,
        p + 4 <= d.len(),
        i32_at(d, p) == 0,
    ensures
        element_item(d, tags, t, p, current) == Ok::<(int, Item), Seq<char>>((p + 4, Item::Nothing)),
{
}

/// A set's children take exactly its declared body length: a set decoded
/// from a body length at `p` ends exactly that many bytes after the length.
pub proof fn set_takes_declared_length(
    d: Seq<u8>,
    tags: Seq<TagView>,
    t: TextTable,
    p: int,
    current: Option<Seq<char>>,
    def: DefView,
)
    ensures
        set_item(d, tags, t, p, current, def) matches Ok((q, _)) ==> q == p + 4 + i32_at(d, p),
{
}

proof fn lemma_set_children_keep_name(
    d: Seq<u8>,
    tags: Seq<TagView>,
    t: TextTable,
    q: int,
    end: int,
    symbol: Seq<char>,
    acc: ElementView,
)
    ensures
        set_children(d, tags, t, q, end, symbol, acc) matches Ok((_, e)) ==> e.name == acc.name
            && e.value == acc.value,
    decreases d.len() - q,
{
    if q < end && 0 <= q <= d.len() {
        match element_item(d, tags, t, q, Some(symbol)) {
            Err(_) => {},
            Ok((q2, item)) => {
                if q < q2 <= d.len() {
                    lemma_set_children_keep_name(d, tags, t, q2, end, symbol, with_item(acc, item));
                }
            },
        }
    }
}

/// Element names carry the symbol that declares them whenever it is not the
/// symbol of the context they are decoded in: a set is named `symbol.name`
/// unless the context symbol is its own symbol, in which case it is named
/// `name`; a property element is named after its property (trailing white
/// space removed), with the `symbol.` prefix on the same condition when its
/// symbol is not empty. A set holds no value of its own.
pub proof fn element_names_carry_foreign_symbols(
    d: Seq<u8>,
    tags: Seq<TagView>,
    t: TextTable,
    p: int,
    current: Option<Seq<char>>,
    def: DefView,
    value: Seq<ScalarView>,
)
    ensures
        set_item(d, tags, t, p, current, def) matches Ok((_, item)) ==> (item matches Item::Child(e)
            && e.value is None && e.name == if current == Some(def.symbol) {
            def.name
        } else {
            def.symbol + seq!['.'] + def.name
        }),
        !def.is_attribute ==> (property_item(current, def, value) matches Item::Child(e) && e.name
            == if def.symbol.len() != 0 && current != Some(def.symbol) {
            def.symbol + seq!['.'] + trim_end_seq(def.name)
        } else {
            trim_end_seq(def.name)
        }),
{
    if 0 <= p && p + 4 <= d.len() && i32_at(d, p) >= 0 {
        let start = p + 4;
        let node = ElementView {
            name: set_name(current, def),
            attributes: Seq::empty(),
            children: Seq::empty(),
            value: None,
        };
        lemma_set_children_keep_name(d, tags, t, start, start + i32_at(d, p), def.symbol, node);
    }
}

/// A property whose definition marks it as an attribute is attached to the
/// parent as an attribute named after the property; any other property
/// becomes a child element holding the value.
pub proof fn attribute_properties(current: Option<Seq<char>>, def: DefView, value: Seq<ScalarView>)
    ensures
        def.is_attribute ==> property_item(current, def, value) == Item::Attribute(def.name, value),
        !def.is_attribute ==> (property_item(current, def, value) matches Item::Child(e) && e.value
            == Some(value) && e.children.len() == 0),
{
}

} // verus!

verus! {

/// Value fields joined with commas.
pub open spec fn joined(fields: Seq<Seq<char>>) -> Seq<char>
    decreases fields.len(),
{
    if fields.len() == 0 {
        Seq::empty()
    } else if fields.len() == 1 {
        fields[0]
    } else {
        joined(fields.drop_last()) + seq![','] + fields.last()
    }
}

/// The text of a property value: its fields, rendered, joined with commas.
pub fn join_fields(fields: &Vec<String>) -> (s: String)
    ensures
        s@ == joined(fields@.map_values(|f: String| f@)),
{
    let ghost fv = fields@.map_values(|f: String| f@);
    let mut out: Vec<char> = Vec::new();
    let mut i: usize = 0;
    while i < fields.len()
        invariant
            i <= fields@.len(),
            fv == fields@.map_values(|f: String| f@),
            out@ == joined(fv.take(i as int)),
        decreases fields.len() - i,
    {
        let ghost prev = out@;
        if i > 0 {
            out.push(',');
        }
        push_str(&mut out, fields[i].as_str());
        assert(fv.take(i + 1).drop_last() =~= fv.take(i as int));
        assert(fv.take(i + 1).last() == fields@[i as int]@);
        i = i + 1;
        assert(out@ =~= joined(fv.take(i as int)));
    }
    assert(fv.take(i as int) =~= fv);
    string_from_chars(&out)
}

} // verus!
