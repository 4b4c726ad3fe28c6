//! Property, set and type definitions, keyed by GUID.
//!
//! Each compiled SPB tag references a property or set by GUID. The simulator
//! ships the GUID to name mapping as a tree of `propXXX.xml` symbol definition
//! files; [`Bank`] is the flat GUID keyed lookup built from them.

use vstd::prelude::*;

use crate::error::{Error, ErrorView};
use crate::scan::{attr, attr_of, value_of, attrs_from, blocks_from, find_blocks, pairs_view, parse_attrs, strip_comments, uncommented};
use crate::text::{chars_eq, chars_of, is_white_space, lossy_utf8, lower_seq, trim_end_seq, trim_start_seq, upper_seq, utf8_lossy};

verus! {

/// What a GUID resolves to inside an SPB stream.
#[derive(Clone, Copy, Debug, PartialEq, Eq, Structural)]
pub enum Kind {
    Type,
    Property,
    PropertySet,
}

/// A resolved property, set or type definition.
#[derive(Clone, Debug)]
pub struct Def {
    pub kind: Kind,
    pub name: String,
    /// Name of the owning symbol, used to qualify element names.
    pub symbol: String,
    /// Value type for properties, for example `FLOAT` or `TEXT`.
    pub value_type: String,
    pub enum_values: Vec<String>,
    pub is_attribute: bool,
}

/// A definition with its texts taken as character sequences.
pub struct DefView {
    pub kind: Kind,
    pub name: Seq<char>,
    pub symbol: Seq<char>,
    pub value_type: Seq<char>,
    pub enum_values: Seq<Seq<char>>,
    pub is_attribute: bool,
}

impl View for Def {
    type V = DefView;

    open spec fn view(&self) -> DefView {
        DefView {
            kind: self.kind,
            name: self.name@,
            symbol: self.symbol@,
            value_type: self.value_type@,
            enum_values: self.enum_values@.map_values(|s: String| s@),
            is_attribute: self.is_attribute,
        }
    }
}

/// The map that a sequence of (key, definition) entries stands for.
pub open spec fn entries_map(s: Seq<(Seq<char>, DefView)>) -> Map<Seq<char>, DefView>
    decreases s.len(),
{
    if s.len() == 0 {
        Map::empty()
    } else {
        entries_map(s.drop_last()).insert(s.last().0, s.last().1)
    }
}

/// No key occurs twice.
pub open spec fn distinct_keys(s: Seq<(Seq<char>, DefView)>) -> bool {
    forall|i: int, j: int| 0 <= i < j < s.len() ==> s[i].0 != s[j].0
}

proof fn lemma_entries_map(s: Seq<(Seq<char>, DefView)>)
    requires
        distinct_keys(s),
    ensures
        entries_map(s).dom().finite(),
        entries_map(s).dom().len() == s.len(),
        forall|k: Seq<char>| #[trigger]
            entries_map(s).contains_key(k) <==> exists|i: int| 0 <= i < s.len() && s[i].0 == k,
        forall|i: int| 0 <= i < s.len() ==> #[trigger] entries_map(s)[s[i].0] == s[i].1,
    decreases s.len(),
{
    if s.len() > 0 {
        let p = s.drop_last();
        assert(distinct_keys(p));
        lemma_entries_map(p);
        let last = s.last();
        assert(!entries_map(p).contains_key(last.0)) by {
            if entries_map(p).contains_key(last.0) {
                let i = choose|i: int| 0 <= i < p.len() && p[i].0 == last.0;
                assert(s[i].0 == s[s.len() - 1].0);
            }
        }
        assert forall|k: Seq<char>| #[trigger]
            entries_map(s).contains_key(k) <==> exists|i: int| 0 <= i < s.len() && s[i].0 == k by {
            if entries_map(s).contains_key(k) && k != last.0 {
                let i = choose|i: int| 0 <= i < p.len() && p[i].0 == k;
                assert(s[i].0 == k);
            }
            if exists|i: int| 0 <= i < s.len() && s[i].0 == k {
                let i = choose|i: int| 0 <= i < s.len() && s[i].0 == k;
                if i < s.len() - 1 {
                    assert(p[i].0 == k);
                }
            }
        }
        assert forall|i: int| 0 <= i < s.len() implies #[trigger] entries_map(s)[s[i].0] == s[i].1 by {
            if i < s.len() - 1 {
                assert(p[i] == s[i]);
                assert(s[i].0 != last.0);
            }
        }
    }
}

/// GUID keyed dictionary of every definition found under a propdefs directory.
pub struct Bank {
    entries: Vec<(Vec<char>, Def)>,
}

impl Bank {
    /// The entries, taken as character sequences and definition views.
    pub closed spec fn entry_views(&self) -> Seq<(Seq<char>, DefView)> {
        self.entries@.map_values(|e: (Vec<char>, Def)| (e.0@, e.1@))
    }

    #[verifier::type_invariant]
    closed spec fn keys_distinct(&self) -> bool {
        distinct_keys(self.entry_views())
    }

    /// A bank with no definitions.
    pub fn new() -> (b: Bank)
        ensures
            b.view() == Map::<Seq<char>, DefView>::empty(),
    {
        Bank { entries: Vec::new() }
    }

    /// Look up a definition by its normalised (brace free, lowercase) GUID.
    pub fn get(&self, guid: &str) -> (r: Option<&Def>)
        ensures
            r is Some <==> self.view().contains_key(guid@),
            r matches Some(d) ==> d@ == self.view()[guid@],
    {
        let key = chars_of(guid);
        self.get_chars(&key)
    }

    /// Look up a definition by GUID text given as characters.
    pub fn get_chars(&self, key: &Vec<char>) -> (r: Option<&Def>)
        ensures
            r is Some <==> self.view().contains_key(key@),
            r matches Some(d) ==> d@ == self.view()[key@],
    {
        proof {
            use_type_invariant(self);
            lemma_entries_map(self.entry_views());
        }
        let mut i: usize = 0;
        while i < self.entries.len()
            invariant
                i <= self.entries.len(),
                forall|j: int| 0 <= j < i ==> self.entry_views()[j].0 != key@,
            decreases self.entries.len() - i,
        {
            if chars_eq(&self.entries[i].0, key) {
                proof {
                    use_type_invariant(self);
                    lemma_entries_map(self.entry_views());
                    assert(self.entry_views()[i as int].0 == key@);
                }
                return Some(&self.entries[i].1);
            }
            assert(self.entry_views()[i as int].0 != key@);
            i = i + 1;
        }
        proof {
            if self.view().contains_key(key@) {
                let j = choose|j: int| 0 <= j < self.entry_views().len() && self.entry_views()[j].0 == key@;
                assert(false);
            }
        }
        None
    }

    /// Number of distinct GUIDs.
    pub fn len(&self) -> (n: usize)
        ensures
            n == self.view().dom().len(),
    {
        proof {
            use_type_invariant(self);
            lemma_entries_map(self.entry_views());
        }
        self.entries.len()
    }

    pub fn is_empty(&self) -> (b: bool)
        ensures
            b <==> self.view().dom().len() == 0,
    {
        self.len() == 0
    }

    /// Add a definition under `key` unless the key is already bound, in which
    /// case the first definition is kept.
    pub fn insert(&mut self, key: Vec<char>, def: Def)
        ensures
            old(self).view().contains_key(key@) ==> final(self).view() == old(self).view(),
            !old(self).view().contains_key(key@) ==> final(self).view() == old(self).view().insert(
                key@,
                def@,
            ),
    {
        if self.get_chars(&key).is_some() {
            return;
        }
        proof {
            use_type_invariant(&*self);
            lemma_entries_map(self.entry_views());
        }
        let ghost before = self.entry_views();
        let ghost kv = key@;
        let ghost dv = def@;
        let mut entries = Vec::new();
        std::mem::swap(&mut entries, &mut self.entries);
        entries.push((key, def));
        let ghost after = entries@.map_values(|e: (Vec<char>, Def)| (e.0@, e.1@));
        assert(after =~= before.push((kv, dv)));
        assert(after.drop_last() =~= before);
        assert(distinct_keys(after)) by {
            assert forall|i: int, j: int| 0 <= i < j < after.len() implies after[i].0 != after[j].0 by {
                if j == after.len() - 1 {
                    assert(after[i] == before[i]);
                    if after[i].0 == kv {
                        assert(entries_map(before).contains_key(kv));
                    }
                } else {
                    assert(after[i] == before[i]);
                    assert(after[j] == before[j]);
                }
            }
        }
        self.entries = entries;
    }
}

impl View for Bank {
    type V = Map<Seq<char>, DefView>;

    /// The definitions, keyed by normalised (brace free, lowercase) GUID text.
    closed spec fn view(&self) -> Map<Seq<char>, DefView> {
        entries_map(self.entry_views())
    }
}

} // verus!

verus! {

pub open spec fn name_keys() -> Seq<Seq<char>> {
    seq!["name"@, "Name"@]
}

pub open spec fn id_keys() -> Seq<Seq<char>> {
    seq!["id"@, "ID"@, "Id"@]
}

pub open spec fn type_keys() -> Seq<Seq<char>> {
    seq!["type"@, "Type"@]
}

pub open spec fn io_keys() -> Seq<Seq<char>> {
    seq!["xml_io"@]
}

pub open spec fn enum_name_keys() -> Seq<Seq<char>> {
    seq!["xml_name"@, "name"@, "Name"@]
}

/// A text without its leading `c` characters.
pub open spec fn strip_leading(s: Seq<char>, c: char) -> Seq<char>
    decreases s.len(),
{
    if s.len() > 0 && s[0] == c {
        strip_leading(s.drop_first(), c)
    } else {
        s
    }
}

/// A text without its trailing `c` characters.
pub open spec fn strip_trailing(s: Seq<char>, c: char) -> Seq<char>
    decreases s.len(),
{
    if s.len() > 0 && s.last() == c {
        strip_trailing(s.drop_last(), c)
    } else {
        s
    }
}

/// The key a GUID attribute is stored under: white space trimmed, braces
/// removed, ASCII lower case.
pub open spec fn normalized_guid(id: Seq<char>) -> Seq<char> {
    lower_seq(strip_trailing(strip_leading(trim_start_seq(trim_end_seq(id)), '{'), '}'))
}

/// The attributes of a block.
pub open spec fn block_attrs(block: (Seq<char>, Seq<char>)) -> Seq<(Seq<char>, Seq<char>)> {
    attrs_from(block.0, 0)
}

/// The `type` of the first `binding` inside a type definition body.
pub open spec fn binding_type(body: Seq<char>) -> Option<Seq<char>> {
    let bindings = blocks_from(body, "binding"@, 0);
    if bindings.len() == 0 {
        None
    } else {
        attr_of(block_attrs(bindings[0]), type_keys(), 0)
    }
}

/// Whether a text equals `attribute` ignoring ASCII case.
pub open spec fn is_attribute_io(v: Seq<char>) -> bool {
    lower_seq(v) == lower_seq("attribute"@)
}

/// The enumerator names listed in a property definition body.
pub open spec fn enum_names(blocks: Seq<(Seq<char>, Seq<char>)>) -> Seq<Seq<char>>
    decreases blocks.len(),
{
    if blocks.len() == 0 {
        Seq::empty()
    } else {
        enum_names(blocks.drop_last()).push(
            match attr_of(block_attrs(blocks.last()), enum_name_keys(), 0) {
                Some(n) => n,
                None => Seq::empty(),
            },
        )
    }
}

/// The definition a `TypeDef`, `PropertyDef` or `SetDef` block declares,
/// keyed by its normalised GUID, when it has both a name and an id.
pub open spec fn block_entry(kind: Kind, block: (Seq<char>, Seq<char>), symbol: Seq<char>) -> Option<
    (Seq<char>, DefView),
> {
    let attrs = block_attrs(block);
    match (attr_of(attrs, name_keys(), 0), attr_of(attrs, id_keys(), 0)) {
        (Some(name), Some(id)) => Some(
            (
                normalized_guid(id),
                match kind {
                    Kind::Type => DefView {
                        kind: Kind::Type,
                        name,
                        symbol,
                        value_type: match binding_type(block.1) {
                            Some(t) => t,
                            None => name,
                        },
                        enum_values: Seq::empty(),
                        is_attribute: false,
                    },
                    Kind::Property => DefView {
                        kind: Kind::Property,
                        name,
                        symbol,
                        value_type: match attr_of(attrs, type_keys(), 0) {
                            Some(t) => t,
                            None => Seq::empty(),
                        },
                        enum_values: enum_names(blocks_from(block.1, "EnumVal"@, 0)),
                        is_attribute: match attr_of(attrs, io_keys(), 0) {
                            Some(v) => is_attribute_io(v),
                            None => false,
                        },
                    },
                    Kind::PropertySet => DefView {
                        kind: Kind::PropertySet,
                        name,
                        symbol,
                        value_type: Seq::empty(),
                        enum_values: Seq::empty(),
                        is_attribute: false,
                    },
                },
            ),
        ),
        _ => None,
    }
}

/// The definitions declared by a sequence of blocks of one kind, in order.
pub open spec fn kind_entries(kind: Kind, blocks: Seq<(Seq<char>, Seq<char>)>, symbol: Seq<char>) -> Seq<
    (Seq<char>, DefView),
>
    decreases blocks.len(),
{
    if blocks.len() == 0 {
        Seq::empty()
    } else {
        kind_entries(kind, blocks.drop_last(), symbol) + match block_entry(
            kind,
            blocks.last(),
            symbol,
        ) {
            Some(e) => seq![e],
            None => Seq::empty(),
        }
    }
}

/// The tag name of the definition blocks of a kind.
pub open spec fn kind_tag(kind: Kind) -> Seq<char> {
    match kind {
        Kind::Type => "TypeDef"@,
        Kind::Property => "PropertyDef"@,
        Kind::PropertySet => "SetDef"@,
    }
}

/// The symbol name of a `SymbolDef` block, or the fallback.
pub open spec fn symbol_name(block: (Seq<char>, Seq<char>), fallback: Seq<char>) -> Seq<char> {
    match attr_of(block_attrs(block), name_keys(), 0) {
        Some(n) => n,
        None => fallback,
    }
}

/// The definitions of one `SymbolDef` block: its types, then its properties,
/// then its sets.
pub open spec fn symbol_entries(block: (Seq<char>, Seq<char>), fallback: Seq<char>) -> Seq<
    (Seq<char>, DefView),
> {
    let symbol = symbol_name(block, fallback);
    kind_entries(Kind::Type, blocks_from(block.1, kind_tag(Kind::Type), 0), symbol)
        + kind_entries(Kind::Property, blocks_from(block.1, kind_tag(Kind::Property), 0), symbol)
        + kind_entries(Kind::PropertySet, blocks_from(block.1, kind_tag(Kind::PropertySet), 0), symbol)
}

/// The definitions of a sequence of `SymbolDef` blocks, in order.
pub open spec fn symbols_entries(blocks: Seq<(Seq<char>, Seq<char>)>, fallback: Seq<char>) -> Seq<
    (Seq<char>, DefView),
>
    decreases blocks.len(),
{
    if blocks.len() == 0 {
        Seq::empty()
    } else {
        symbols_entries(blocks.drop_last(), fallback) + symbol_entries(blocks.last(), fallback)
    }
}

/// The definitions a definition file declares, in order. `fallback` names
/// the symbol of blocks without a name (the file's stem).
pub open spec fn file_entries(text: Seq<char>, fallback: Seq<char>) -> Seq<(Seq<char>, DefView)> {
    symbols_entries(blocks_from(text, "SymbolDef"@, 0), fallback)
}

/// `m` with the entries added in order, each key keeping its first
/// definition.
pub open spec fn insert_all(m: Map<Seq<char>, DefView>, es: Seq<(Seq<char>, DefView)>) -> Map<
    Seq<char>,
    DefView,
>
    decreases es.len(),
{
    if es.len() == 0 {
        m
    } else {
        let before = insert_all(m, es.drop_last());
        if before.contains_key(es.last().0) {
            before
        } else {
            before.insert(es.last().0, es.last().1)
        }
    }
}

} // verus!

verus! {

proof fn lemma_strip_leading_step(s: Seq<char>, c: char, k: int)
    requires
        0 <= k <= s.len(),
        forall|j: int| 0 <= j < k ==> #[trigger] s[j] == c,
    ensures
        strip_leading(s, c) == strip_leading(s.skip(k), c),
    decreases k,
{
    if k > 0 {
        assert(s.drop_first().skip(k - 1) =~= s.skip(k));
        lemma_strip_leading_step(s.drop_first(), c, k - 1);
    } else {
        assert(s.skip(0) =~= s);
    }
}

proof fn lemma_strip_trailing_step(s: Seq<char>, c: char, k: int)
    requires
        0 <= k <= s.len(),
        forall|j: int| k <= j < s.len() ==> #[trigger] s[j] == c,
    ensures
        strip_trailing(s, c) == strip_trailing(s.take(k), c),
    decreases s.len() - k,
{
    if k < s.len() {
        assert(s.drop_last() =~= s.take(s.len() - 1));
        assert(s.take(s.len() - 1).take(k) =~= s.take(k));
        lemma_strip_trailing_step(s.drop_last(), c, k);
    } else {
        assert(s.take(k) =~= s);
    }
}

/// The key a GUID attribute is stored under: white space trimmed, braces
/// removed, ASCII lower case.
pub fn normalize_guid(id: &Vec<char>) -> (r: Vec<char>)
    ensures
        r@ == normalized_guid(id@),
{
    let t = crate::text::trim_chars(id);
    let mut k: usize = 0;
    while k < t.len() && t[k] == '{'
        invariant
            k <= t.len(),
            forall|j: int| 0 <= j < k ==> #[trigger] t@[j] == '{',
        decreases t.len() - k,
    {
        k = k + 1;
    }
    proof {
        lemma_strip_leading_step(t@, '{', k as int);
    }
    let u = crate::scan::subrange_chars(&t, k, t.len());
    assert(u@ =~= t@.skip(k as int));
    let mut e: usize = u.len();
    while e > 0 && u[e - 1] == '}'
        invariant
            e <= u.len(),
            forall|j: int| e <= j < u@.len() ==> #[trigger] u@[j] == '}',
        decreases e,
    {
        e = e - 1;
    }
    proof {
        lemma_strip_trailing_step(u@, '}', e as int);
    }
    let v = crate::scan::subrange_chars(&u, 0, e);
    assert(v@ =~= u@.take(e as int));
    crate::text::lower_chars(&v)
}

fn binding_type_of(body: &Vec<char>) -> (r: Option<Vec<char>>)
    ensures
        match binding_type(body@) {
            Some(t) => r is Some && r->Some_0@ == t,
            None => r is None,
        },
{
    let bindings = find_blocks(body, "binding");
    if bindings.len() == 0 {
        return None;
    }
    let attrs = parse_attrs(&bindings[0].0);
    let names = ["type", "Type"];
    assert(crate::scan::names_view(names@) =~= type_keys());
    attr(&attrs, &names)
}

fn enum_names_of(blocks: &Vec<(Vec<char>, Vec<char>)>) -> (r: Vec<String>)
    ensures
        r@.map_values(|s: String| s@) == enum_names(pairs_view(blocks@)),
{
    let names = ["xml_name", "name", "Name"];
    assert(crate::scan::names_view(names@) =~= enum_name_keys());
    let mut out: Vec<String> = Vec::new();
    let mut i: usize = 0;
    while i < blocks.len()
        invariant
            i <= blocks.len(),
            crate::scan::names_view(names@) == enum_name_keys(),
            out@.map_values(|s: String| s@) == enum_names(pairs_view(blocks@).take(i as int)),
        decreases blocks.len() - i,
    {
        let attrs = parse_attrs(&blocks[i].0);
        let name = match attr(&attrs, &names) {
            Some(n) => n,
            None => Vec::new(),
        };
        let ghost prev = out@.map_values(|s: String| s@);
        out.push(crate::text::string_from_chars(&name));
        assert(pairs_view(blocks@).take(i + 1).drop_last() =~= pairs_view(blocks@).take(i as int));
        i = i + 1;
        assert(out@.map_values(|s: String| s@) =~= enum_names(pairs_view(blocks@).take(i as int)));
    }
    assert(pairs_view(blocks@).take(i as int) =~= pairs_view(blocks@));
    out
}

fn entry_of(kind: Kind, block: &(Vec<char>, Vec<char>), symbol: &Vec<char>) -> (r: Option<
    (Vec<char>, Def),
>)
    ensures
        match block_entry(kind, (block.0@, block.1@), symbol@) {
            Some(e) => r is Some && r->Some_0.0@ == e.0 && r->Some_0.1@ == e.1,
            None => r is None,
        },
{
    let attrs = parse_attrs(&block.0);
    let name_names = ["name", "Name"];
    assert(crate::scan::names_view(name_names@) =~= name_keys());
    let id_names = ["id", "ID", "Id"];
    assert(crate::scan::names_view(id_names@) =~= id_keys());
    let name = match attr(&attrs, &name_names) {
        Some(n) => n,
        None => return None,
    };
    let id = match attr(&attrs, &id_names) {
        Some(i) => i,
        None => return None,
    };
    let key = normalize_guid(&id);
    let name_text = crate::text::string_from_chars(&name);
    let symbol_text = crate::text::string_from_chars(symbol);
    let def = match kind {
        Kind::Type => {
            let value_type = match binding_type_of(&block.1) {
                Some(t) => t,
                None => {
                    let copy = crate::scan::subrange_chars(&name, 0, name.len());
                    assert(copy@ =~= name@);
                    copy
                },
            };
            let d = Def {
                kind: Kind::Type,
                name: name_text,
                symbol: symbol_text,
                value_type: crate::text::string_from_chars(&value_type),
                enum_values: Vec::new(),
                is_attribute: false,
            };
            assert(d@.enum_values =~= Seq::<Seq<char>>::empty());
            d
        },
        Kind::Property => {
            let type_names = ["type", "Type"];
            assert(crate::scan::names_view(type_names@) =~= type_keys());
            let io_names = ["xml_io"];
            assert(crate::scan::names_view(io_names@) =~= io_keys());
            let value_type = match attr(&attrs, &type_names) {
                Some(t) => t,
                None => Vec::new(),
            };
            let is_attribute = match attr(&attrs, &io_names) {
                Some(v) => {
                    let attribute = crate::text::lower_chars(&chars_of("attribute"));
                    chars_eq(&crate::text::lower_chars(&v), &attribute)
                },
                None => false,
            };
            let enum_blocks = find_blocks(&block.1, "EnumVal");
            Def {
                kind: Kind::Property,
                name: name_text,
                symbol: symbol_text,
                value_type: crate::text::string_from_chars(&value_type),
                enum_values: enum_names_of(&enum_blocks),
                is_attribute,
            }
        },
        Kind::PropertySet => {
            let d = Def {
                kind: Kind::PropertySet,
                name: name_text,
                symbol: symbol_text,
                value_type: String::new(),
                enum_values: Vec::new(),
                is_attribute: false,
            };
            assert(d@.enum_values =~= Seq::<Seq<char>>::empty());
            d
        },
    };
    assert(block_entry(kind, (block.0@, block.1@), symbol@) == Some((key@, def@)));
    Some((key, def))
}

proof fn lemma_insert_all_concat(
    m: Map<Seq<char>, DefView>,
    a: Seq<(Seq<char>, DefView)>,
    b: Seq<(Seq<char>, DefView)>,
)
    ensures
        insert_all(m, a + b) == insert_all(insert_all(m, a), b),
    decreases b.len(),
{
    if b.len() == 0 {
        assert(a + b =~= a);
    } else {
        assert((a + b).drop_last() =~= a + b.drop_last());
        lemma_insert_all_concat(m, a, b.drop_last());
    }
}

impl Bank {
    fn scan_kind(&mut self, kind: Kind, blocks: &Vec<(Vec<char>, Vec<char>)>, symbol: &Vec<char>)
        ensures
            final(self).view() == insert_all(
                old(self).view(),
                kind_entries(kind, pairs_view(blocks@), symbol@),
            ),
    {
        let ghost m0 = self.view();
        let mut i: usize = 0;
        while i < blocks.len()
            invariant
                i <= blocks.len(),
                m0 == old(self).view(),
                self.view() == insert_all(m0, kind_entries(kind, pairs_view(blocks@).take(i as int), symbol@)),
            decreases blocks.len() - i,
        {
            let ghost bs = pairs_view(blocks@);
            assert(bs.take(i + 1).drop_last() =~= bs.take(i as int));
            assert(bs.take(i + 1).last() == bs[i as int]);
            let ghost before = kind_entries(kind, bs.take(i as int), symbol@);
            match entry_of(kind, &blocks[i], symbol) {
                Some(e) => {
                    let ghost ev = (e.0@, e.1@);
                    self.insert(e.0, e.1);
                    assert(before.push(ev) =~= before + seq![ev]);
                    assert((before + seq![ev]).drop_last() =~= before);
                },
                None => {
                    assert(before + Seq::<(Seq<char>, DefView)>::empty() =~= before);
                },
            }
            i = i + 1;
        }
        assert(pairs_view(blocks@).take(i as int) =~= pairs_view(blocks@));
    }

    fn scan_symbol(&mut self, block: &(Vec<char>, Vec<char>), fallback: &Vec<char>)
        ensures
            final(self).view() == insert_all(
                old(self).view(),
                symbol_entries((block.0@, block.1@), fallback@),
            ),
    {
        let attrs = parse_attrs(&block.0);
        let name_names = ["name", "Name"];
        assert(crate::scan::names_view(name_names@) =~= name_keys());
        let symbol = match attr(&attrs, &name_names) {
            Some(n) => n,
            None => {
                let copy = crate::scan::subrange_chars(fallback, 0, fallback.len());
                assert(copy@ =~= fallback@);
                copy
            },
        };
        assert(symbol@ == symbol_name((block.0@, block.1@), fallback@));
        let ghost m0 = self.view();
        let types = find_blocks(&block.1, "TypeDef");
        self.scan_kind(Kind::Type, &types, &symbol);
        let props = find_blocks(&block.1, "PropertyDef");
        self.scan_kind(Kind::Property, &props, &symbol);
        let sets = find_blocks(&block.1, "SetDef");
        self.scan_kind(Kind::PropertySet, &sets, &symbol);
        proof {
            let a = kind_entries(Kind::Type, pairs_view(types@), symbol@);
            let b = kind_entries(Kind::Property, pairs_view(props@), symbol@);
            let c = kind_entries(Kind::PropertySet, pairs_view(sets@), symbol@);
            lemma_insert_all_concat(m0, a, b);
            lemma_insert_all_concat(m0, a + b, c);
        }
    }

    /// Add the definitions of one definition file, whose comments have been
    /// removed. `fallback` names the symbol of blocks without a name.
    pub fn scan_file(&mut self, text: &Vec<char>, fallback: &Vec<char>)
        ensures
            final(self).view() == insert_all(old(self).view(), file_entries(text@, fallback@)),
    {
        let symbols = find_blocks(text, "SymbolDef");
        let ghost m0 = self.view();
        let mut s: usize = 0;
        while s < symbols.len()
            invariant
                s <= symbols.len(),
                m0 == old(self).view(),
                self.view() == insert_all(m0, symbols_entries(pairs_view(symbols@).take(s as int), fallback@)),
            decreases symbols.len() - s,
        {
            let ghost bs = pairs_view(symbols@);
            assert(bs.take(s + 1).drop_last() =~= bs.take(s as int));
            assert(bs.take(s + 1).last() == bs[s as int]);
            proof {
                lemma_insert_all_concat(
                    m0,
                    symbols_entries(bs.take(s as int), fallback@),
                    symbol_entries(bs[s as int], fallback@),
                );
            }
            self.scan_symbol(&symbols[s], fallback);
            s = s + 1;
        }
        assert(pairs_view(symbols@).take(s as int) =~= pairs_view(symbols@));
    }
}

} // verus!

verus! {

/// The definitions of a sequence of definition files, each given as its raw
/// bytes and the symbol name used for blocks without one, in order. The bytes
/// are read as UTF-8 with invalid sequences replaced, and comments are
/// removed before scanning.
pub open spec fn sources_entries(files: Seq<(Seq<u8>, Seq<char>)>) -> Seq<(Seq<char>, DefView)>
    decreases files.len(),
{
    if files.len() == 0 {
        Seq::empty()
    } else {
        sources_entries(files.drop_last()) + file_entries(
            uncommented(lossy_utf8(files.last().0), 0),
            files.last().1,
        )
    }
}

/// The bank the definition files make: every definition they declare, each
/// GUID bound to the first definition that declares it.
pub open spec fn loaded_defs(files: Seq<(Seq<u8>, Seq<char>)>) -> Map<Seq<char>, DefView> {
    insert_all(Map::empty(), sources_entries(files))
}

pub open spec fn files_view(files: Seq<(Vec<u8>, String)>) -> Seq<(Seq<u8>, Seq<char>)> {
    files.map_values(|f: (Vec<u8>, String)| (f.0@, f.1@))
}

pub open spec fn empty_bank_message(dir: Seq<char>) -> Seq<char> {
    "no symbol definitions found under "@ + dir
}

impl Bank {
    /// Build the bank from the contents of the definition files found under
    /// `dir`, each with the stem of its file name as fallback symbol name.
    /// Fails when no definition is found.
    pub fn from_sources(files: &Vec<(Vec<u8>, String)>, dir: &str) -> (r: Result<Bank, Error>)
        ensures
            r is Ok <==> loaded_defs(files_view(files@)).dom().len() > 0,
            r matches Ok(b) ==> b.view() == loaded_defs(files_view(files@)),
            r matches Err(e) ==> e@ == ErrorView::Propdefs(empty_bank_message(dir@)),
    {
        let mut bank = Bank::new();
        let mut i: usize = 0;
        while i < files.len()
            invariant
                i <= files.len(),
                bank.view() == loaded_defs(files_view(files@).take(i as int)),
            decreases files.len() - i,
        {
            let ghost fs = files_view(files@);
            assert(fs.take(i + 1).drop_last() =~= fs.take(i as int));
            assert(fs.take(i + 1).last() == fs[i as int]);
            let text = utf8_lossy(files[i].0.as_slice());
            let stripped = strip_comments(&chars_of(text.as_str()));
            let fallback = chars_of(files[i].1.as_str());
            proof {
                lemma_insert_all_concat(
                    Map::empty(),
                    sources_entries(fs.take(i as int)),
                    file_entries(stripped@, fallback@),
                );
            }
            bank.scan_file(&stripped, &fallback);
            i = i + 1;
        }
        assert(files_view(files@).take(i as int) =~= files_view(files@));
        if bank.is_empty() {
            let mut msg: Vec<char> = Vec::new();
            crate::text::push_str(&mut msg, "no symbol definitions found under ");
            crate::text::push_str(&mut msg, dir);
            return Err(Error::Propdefs(crate::text::string_from_chars(&msg)));
        }
        Ok(bank)
    }
}

} // verus!

verus! {

proof fn lemma_lower_upper_guid(g: Seq<char>)
    requires
        crate::guid::all_guid_chars(g),
    ensures
        lower_seq(upper_seq(g)) == g,
        lower_seq(g) == g,
        forall|i: int| 0 <= i < g.len() ==> #[trigger] upper_seq(g)[i] != '{' && upper_seq(g)[i] != '}'
            && !is_white_space(upper_seq(g)[i]),
{
    assert forall|i: int| 0 <= i < g.len() implies lower_seq(upper_seq(g))[i] == g[i] by {
        assert(crate::guid::guid_char(g[i]));
    }
    assert(lower_seq(upper_seq(g)) =~= g);
    assert forall|i: int| 0 <= i < g.len() implies lower_seq(g)[i] == g[i] by {
        assert(crate::guid::guid_char(g[i]));
    }
    assert(lower_seq(g) =~= g);
    assert forall|i: int| 0 <= i < g.len() implies #[trigger] upper_seq(g)[i] != '{' && upper_seq(g)[i]
        != '}' && !is_white_space(upper_seq(g)[i]) by {
        assert(crate::guid::guid_char(g[i]));
    }
}

/// A GUID written in a definition file the way the simulator writes it
/// (braced, upper case) or in plain lower case is stored under exactly the key
/// that SPB tags are looked up by.
pub proof fn written_guids_match_tag_keys(b: Seq<u8>)
    requires
        b.len() == 16,
    ensures
        normalized_guid(crate::guid::guid_braced_upper(b)) == crate::guid::guid_lower(b),
        normalized_guid(crate::guid::guid_lower(b)) == crate::guid::guid_lower(b),
{
    let g = crate::guid::guid_lower(b);
    crate::guid::guid_text_shape(b);
    lemma_lower_upper_guid(g);
    let u = upper_seq(g);
    assert(crate::guid::guid_char(g[0]));
    assert(crate::guid::guid_char(g[35]));
    // Braced upper case.
    let s = seq!['{'] + u + seq!['}'];
    assert(crate::guid::guid_braced_upper(b) == s);
    assert(s.last() == '}');
    assert(trim_end_seq(s) == s);
    assert(s[0] == '{');
    assert(trim_start_seq(s) == s);
    let inner = u + seq!['}'];
    assert(s.drop_first() =~= inner);
    assert(inner[0] == u[0]);
    assert(strip_leading(inner, '{') == inner);
    assert(strip_leading(s, '{') == inner);
    assert(inner.drop_last() =~= u);
    assert(u.last() == u[35]);
    assert(strip_trailing(u, '}') == u);
    assert(strip_trailing(inner, '}') == u);
    // Plain lower case.
    assert(g.last() == g[35]);
    assert(!is_white_space(g[35]));
    assert(trim_end_seq(g) == g);
    assert(!is_white_space(g[0]));
    assert(trim_start_seq(g) == g);
    assert(strip_leading(g, '{') == g);
    assert(strip_trailing(g, '}') == g);
}

} // verus!

verus! {

/// The name an `EnumVal` block gives its enumerator: the value of its
/// `xml_name` attribute when it has one, else of `name`, else of `Name`,
/// else nothing.
pub open spec fn preferred_enum_name(attrs: Seq<(Seq<char>, Seq<char>)>) -> Seq<char> {
    match value_of(attrs, "xml_name"@, 0) {
        Some(v) => v,
        None => match value_of(attrs, "name"@, 0) {
            Some(v) => v,
            None => match value_of(attrs, "Name"@, 0) {
                Some(v) => v,
                None => Seq::empty(),
            },
        },
    }
}

proof fn lemma_enum_names(blocks: Seq<(Seq<char>, Seq<char>)>)
    ensures
        enum_names(blocks).len() == blocks.len(),
        forall|i: int|
            0 <= i < blocks.len() ==> #[trigger] enum_names(blocks)[i] == preferred_enum_name(
                block_attrs(blocks[i]),
            ),
    decreases blocks.len(),
{
    if blocks.len() > 0 {
        let p = blocks.drop_last();
        lemma_enum_names(p);
        let attrs = block_attrs(blocks.last());
        let keys = enum_name_keys();
        assert(keys[0] == "xml_name"@ && keys[1] == "name"@ && keys[2] == "Name"@ && keys.len() == 3);
        assert(attr_of(attrs, keys, 3) is None);
        assert(attr_of(attrs, keys, 0) == match value_of(attrs, "xml_name"@, 0) {
            Some(v) => Some(v),
            None => attr_of(attrs, keys, 1),
        });
        assert(attr_of(attrs, keys, 1) == match value_of(attrs, "name"@, 0) {
            Some(v) => Some(v),
            None => attr_of(attrs, keys, 2),
        });
        assert(attr_of(attrs, keys, 2) == match value_of(attrs, "Name"@, 0) {
            Some(v) => Some(v),
            None => attr_of(attrs, keys, 3),
        });
        assert forall|i: int| 0 <= i < blocks.len() implies #[trigger] enum_names(blocks)[i]
            == preferred_enum_name(block_attrs(blocks[i])) by {
            if i < blocks.len() - 1 {
                assert(enum_names(blocks)[i] == enum_names(p)[i]);
                assert(p[i] == blocks[i]);
            }
        }
    }
}

/// A property definition lists one enumerator per `EnumVal` block of its
/// body, in order, each named by the block's `xml_name` attribute when it
/// has one, whatever `name` or `Name` it also carries; failing that by its
/// `name`, then its `Name`.
pub proof fn enum_values_prefer_xml_name(block: (Seq<char>, Seq<char>), symbol: Seq<char>)
    ensures
        block_entry(Kind::Property, block, symbol) matches Some((_, def)) ==> {
            let evs = blocks_from(block.1, "EnumVal"@, 0);
            &&& def.enum_values.len() == evs.len()
            &&& forall|i: int|
                0 <= i < evs.len() ==> (#[trigger] def.enum_values[i] == preferred_enum_name(
                    block_attrs(evs[i]),
                ))
            &&& forall|i: int|
                0 <= i < evs.len() && value_of(block_attrs(evs[i]), "xml_name"@, 0) is Some
                    ==> def.enum_values[i] == value_of(block_attrs(evs[i]), "xml_name"@, 0)->Some_0
        },
{
    lemma_enum_names(blocks_from(block.1, "EnumVal"@, 0));
}

#[verifier::rlimit(40)]
#[verifier::spinoff_prover]
/// The first definition of a GUID wins: adding definitions in order to a bank
/// keeps every binding it already holds, and binds each other GUID that some
/// definition declares to the earliest definition that declares it; no other
/// GUID is bound.
pub proof fn first_definition_wins(m: Map<Seq<char>, DefView>, es: Seq<(Seq<char>, DefView)>, k: Seq<char>)
    ensures
        insert_all(m, es).contains_key(k) <==> m.contains_key(k) || exists|i: int|
            0 <= i < es.len() && #[trigger] es[i].0 == k,
        m.contains_key(k) ==> insert_all(m, es)[k] == m[k],
        forall|i: int|
            0 <= i < es.len() && #[trigger] es[i].0 == k && !m.contains_key(k) && (forall|j: int|
                0 <= j < i ==> es[j].0 != k) ==> insert_all(m, es)[k] == es[i].1,
    decreases es.len(),
{
    if es.len() > 0 {
        let p = es.drop_last();
        first_definition_wins(m, p, k);
        let last = es.last();
        if exists|i: int| 0 <= i < p.len() && #[trigger] p[i].0 == k {
            let i = choose|i: int| 0 <= i < p.len() && #[trigger] p[i].0 == k;
            assert(es[i].0 == k);
        }
        if exists|i: int| 0 <= i < es.len() && #[trigger] es[i].0 == k {
            let i = choose|i: int| 0 <= i < es.len() && #[trigger] es[i].0 == k;
            if i < es.len() - 1 {
                assert(p[i].0 == k);
            }
        }
        assert forall|i: int|
            0 <= i < es.len() && #[trigger] es[i].0 == k && !m.contains_key(k) && (forall|j: int|
                0 <= j < i ==> es[j].0 != k) implies insert_all(m, es)[k] == es[i].1 by {
            if i < es.len() - 1 {
                assert(p[i] == es[i]);
                assert(forall|j: int| 0 <= j < i ==> p[j].0 != k) by {
                    assert forall|j: int| 0 <= j < i implies p[j].0 != k by {
                        assert(p[j] == es[j]);
                    }
                }
            } else {
                assert forall|j: int| 0 <= j < p.len() implies #[trigger] p[j].0 != k by {
                    assert(p[j] == es[j]);
                }
            }
        }
    }
}

} // verus!
