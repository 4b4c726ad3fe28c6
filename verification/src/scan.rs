//! A tolerant tag scanner for the property definition files.
//!
//! The definition files embed `cpptext` blocks containing raw C++ that is not
//! always well formed XML, so a streaming tag scanner is used rather than a
//! strict parser. All positions are character positions.

use vstd::prelude::*;

use crate::text::{chars_of, is_white_space, char_is_white_space, trim_end_seq, trim_end_chars};

verus! {

/// `pat` occurs in `s` at position `i`.
pub open spec fn occurs_at(s: Seq<char>, pat: Seq<char>, i: int) -> bool {
    0 <= i && i + pat.len() <= s.len() && s.subrange(i, i + pat.len()) == pat
}

/// The first position at or after `from` where `pat` occurs in `s`.
pub open spec fn find_from(s: Seq<char>, pat: Seq<char>, from: int) -> Option<int>
    decreases s.len() + 1 - from,
{
    if from < 0 || from + pat.len() > s.len() {
        None
    } else if occurs_at(s, pat, from) {
        Some(from)
    } else {
        find_from(s, pat, from + 1)
    }
}

pub proof fn lemma_find_from(s: Seq<char>, pat: Seq<char>, from: int)
    ensures
        find_from(s, pat, from) matches Some(i) ==> from <= i && occurs_at(s, pat, i) && forall|
            j: int,
        | from <= j < i ==> !occurs_at(s, pat, j),
        find_from(s, pat, from) is None ==> forall|j: int|
            0 <= from <= j ==> !occurs_at(s, pat, j),
    decreases s.len() + 1 - from,
{
    if from < 0 || from + pat.len() > s.len() {
    } else if occurs_at(s, pat, from) {
    } else {
        lemma_find_from(s, pat, from + 1);
    }
}

/// Optional position as an integer.
pub open spec fn position(r: Option<usize>) -> Option<int> {
    match r {
        Some(i) => Some(i as int),
        None => None,
    }
}

fn occurs_here(s: &Vec<char>, pat: &Vec<char>, i: usize) -> (b: bool)
    requires
        i + pat@.len() <= s@.len(),
    ensures
        b == occurs_at(s@, pat@, i as int),
{
    let mut k: usize = 0;
    while k < pat.len()
        invariant
            k <= pat.len(),
            i + pat.len() <= s.len(),
            forall|j: int| 0 <= j < k ==> s@[i + j] == pat@[j],
        decreases pat.len() - k,
    {
        if s[i + k] != pat[k] {
            assert(s@.subrange(i as int, i + pat@.len())[k as int] != pat@[k as int]);
            return false;
        }
        k = k + 1;
    }
    assert(s@.subrange(i as int, i + pat@.len()) =~= pat@);
    true
}

/// First position at or after `from` where `pat` occurs.
pub fn find_chars(s: &Vec<char>, pat: &Vec<char>, from: usize) -> (r: Option<usize>)
    ensures
        position(r) == find_from(s@, pat@, from as int),
{
    if from > s.len() || pat.len() > s.len() - from {
        return None;
    }
    if pat.len() == 0 {
        assert(occurs_at(s@, pat@, from as int)) by {
            assert(s@.subrange(from as int, from as int) =~= pat@);
        }
        return Some(from);
    }
    let mut i = from;
    while i <= s.len() - pat.len()
        invariant
            from <= i,
            1 <= pat.len() <= s.len(),
            find_from(s@, pat@, from as int) == find_from(s@, pat@, i as int),
        decreases s.len() - i,
    {
        if occurs_here(s, pat, i) {
            return Some(i);
        }
        i = i + 1;
    }
    None
}

/// First position at or after `from` holding `c`.
pub fn find_char(s: &Vec<char>, c: char, from: usize) -> (r: Option<usize>)
    ensures
        position(r) == find_from(s@, seq![c], from as int),
{
    let mut pat: Vec<char> = Vec::new();
    pat.push(c);
    find_chars(s, &pat, from)
}

/// Whether `c` is alphanumeric in the Unicode sense (`char::is_alphanumeric`).
pub uninterp spec fn unicode_alphanumeric(c: char) -> bool;

/// `char::is_alphanumeric`: true for characters that are alphabetic or
/// numeric in Unicode. Among ASCII characters those are exactly the letters
/// and digits.
#[verifier::external_body]
fn char_is_alphanumeric(c: char) -> (b: bool)
    ensures
        b == unicode_alphanumeric(c),
        (c as u32) < 128 ==> (b <==> ('a' <= c <= 'z' || 'A' <= c <= 'Z' || '0' <= c <= '9')),
{
    c.is_alphanumeric()
}

/// The character continues a name, so a token ending before it is part of a
/// longer name.
pub open spec fn continues_name(c: char) -> bool {
    unicode_alphanumeric(c) || c == '_'
}

/// The first occurrence of `token` at or after `from` that is not followed by
/// a character continuing a name (so `<TypeDef` does not match `<TypeDefs`).
pub open spec fn find_token(s: Seq<char>, token: Seq<char>, from: int) -> Option<int>
    decreases s.len() - from,
{
    match find_from(s, token, from) {
        None => None,
        Some(at) => {
            let after = at + token.len();
            if token.len() > 0 && from <= at && after < s.len() && continues_name(s[after]) {
                find_token(s, token, after)
            } else {
                Some(at)
            }
        },
    }
}

pub fn find_token_chars(s: &Vec<char>, token: &Vec<char>, from: usize) -> (r: Option<usize>)
    ensures
        position(r) == find_token(s@, token@, from as int),
{
    let mut search = from;
    loop
        invariant
            from <= search,
            find_token(s@, token@, from as int) == find_token(s@, token@, search as int),
        decreases s@.len() - search,
    {
        let found = find_chars(s, token, search);
        match found {
            None => return None,
            Some(at) => {
                proof {
                    lemma_find_from(s@, token@, search as int);
                    assert(find_from(s@, token@, search as int) == Some(at as int));
                    assert(occurs_at(s@, token@, at as int));
                }
                let n = s.len();
                let tl = token.len();
                assert(at + tl <= n);
                let after = at + tl;
                if tl > 0 && after < n && (char_is_alphanumeric(s[after]) || s[after]
                    == '_') {
                    search = after;
                } else {
                    return Some(at);
                }
            },
        }
    }
}

} // verus!

verus! {

pub open spec fn comment_open() -> Seq<char> {
    "<!--"@
}

pub open spec fn comment_close() -> Seq<char> {
    "-->"@
}

/// `s` from `from` on with every `<!-- ... -->` comment removed; an
/// unterminated comment removes everything after its start.
pub open spec fn uncommented(s: Seq<char>, from: int) -> Seq<char>
    decreases s.len() + 1 - from,
{
    if from < 0 || from > s.len() {
        Seq::empty()
    } else {
        match find_from(s, comment_open(), from) {
            None => s.subrange(from, s.len() as int),
            Some(st) => s.subrange(from, st) + match find_from(
                s,
                comment_close(),
                st + comment_open().len(),
            ) {
                None => Seq::empty(),
                Some(e) => if from < e + comment_close().len() <= s.len() {
                    uncommented(s, e + comment_close().len())
                } else {
                    Seq::empty()
                },
            },
        }
    }
}

fn push_range(out: &mut Vec<char>, s: &Vec<char>, from: usize, to: usize)
    requires
        from <= to <= s@.len(),
    ensures
        final(out)@ == old(out)@ + s@.subrange(from as int, to as int),
{
    let mut i = from;
    while i < to
        invariant
            from <= i <= to <= s@.len(),
            out@ == old(out)@ + s@.subrange(from as int, i as int),
        decreases to - i,
    {
        out.push(s[i]);
        i = i + 1;
        assert(out@ =~= old(out)@ + s@.subrange(from as int, i as int));
    }
}

/// Characters `from..to` of `s`.
pub fn subrange_chars(s: &Vec<char>, from: usize, to: usize) -> (r: Vec<char>)
    requires
        from <= to <= s@.len(),
    ensures
        r@ == s@.subrange(from as int, to as int),
{
    let mut r: Vec<char> = Vec::new();
    push_range(&mut r, s, from, to);
    assert(r@ =~= s@.subrange(from as int, to as int));
    r
}

/// Remove every `<!-- ... -->` comment.
pub fn strip_comments(input: &Vec<char>) -> (r: Vec<char>)
    ensures
        r@ == uncommented(input@, 0),
{
    let open = chars_of("<!--");
    let close = chars_of("-->");
    proof {
        reveal_strlit("<!--");
        reveal_strlit("-->");
    }
    let mut out: Vec<char> = Vec::new();
    let mut rest: usize = 0;
    let n = input.len();
    loop
        invariant
            rest <= input@.len(),
            n == input@.len(),
            open@ == comment_open(),
            close@ == comment_close(),
            open@.len() == 4,
            close@.len() == 3,
            out@ + uncommented(input@, rest as int) == uncommented(input@, 0),
        decreases input@.len() - rest,
    {
        let found = find_chars(input, &open, rest);
        proof {
            lemma_find_from(input@, open@, rest as int);
        }
        match found {
            None => {
                push_range(&mut out, input, rest, input.len());
                return out;
            },
            Some(start) => {
                assert(occurs_at(input@, open@, start as int));
                push_range(&mut out, input, rest, start);
                assert(start + open.len() <= n);
                let after = start + open.len();
                let end_found = find_chars(input, &close, after);
                proof {
                    lemma_find_from(input@, close@, after as int);
                }
                match end_found {
                    Some(end) => {
                        assert(occurs_at(input@, close@, end as int));
                        assert(end + close.len() <= n);
                        let ghost before = out@;
                        rest = end + close.len();
                        assert(before + uncommented(input@, rest as int) =~= uncommented(input@, 0));
                    },
                    None => {
                        assert(out@ =~= uncommented(input@, 0));
                        return out;
                    },
                }
            },
        }
    }
}

} // verus!

verus! {

pub proof fn lemma_find_token(s: Seq<char>, token: Seq<char>, from: int)
    ensures
        find_token(s, token, from) matches Some(at) ==> from <= at && occurs_at(s, token, at),
    decreases s.len() - from,
{
    lemma_find_from(s, token, from);
    match find_from(s, token, from) {
        None => {},
        Some(at) => {
            let after = at + token.len();
            if token.len() > 0 && from <= at && after < s.len() && continues_name(s[after]) {
                lemma_find_token(s, token, after);
            }
        },
    }
}

/// A text without its trailing `/` characters.
pub open spec fn trim_slashes(s: Seq<char>) -> Seq<char>
    decreases s.len(),
{
    if s.len() > 0 && s.last() == '/' {
        trim_slashes(s.drop_last())
    } else {
        s
    }
}

/// A pair of character vectors as character sequences.
pub open spec fn pairs_view(v: Seq<(Vec<char>, Vec<char>)>) -> Seq<(Seq<char>, Seq<char>)> {
    v.map_values(|p: (Vec<char>, Vec<char>)| (p.0@, p.1@))
}

/// Every `<tag ...>...</tag>` (or self closing `<tag ... />`) found from
/// `from` on, at any depth, as its attribute text and inner body. Tags are not
/// assumed to nest within themselves. An element whose opening tag is never
/// closed by `>` ends the search; one whose closing tag is missing takes the
/// rest of the text as its body and ends the search.
pub open spec fn blocks_from(text: Seq<char>, tag: Seq<char>, from: int) -> Seq<(Seq<char>, Seq<char>)>
    decreases text.len() + 1 - from,
{
    let open = seq!['<'] + tag;
    let close = seq!['<', '/'] + tag;
    if from < 0 || from > text.len() {
        Seq::empty()
    } else {
        match find_token(text, open, from) {
            None => Seq::empty(),
            Some(start) => {
                let after_name = start + open.len();
                match find_from(text, seq!['>'], after_name) {
                    None => Seq::empty(),
                    Some(tag_end) => {
                        let trimmed = trim_end_seq(text.subrange(after_name, tag_end));
                        if trimmed.len() > 0 && trimmed.last() == '/' {
                            seq![(trim_slashes(trimmed), Seq::empty())] + if from < tag_end + 1
                                <= text.len() {
                                blocks_from(text, tag, tag_end + 1)
                            } else {
                                Seq::empty()
                            }
                        } else {
                            let body_start = tag_end + 1;
                            match find_token(text, close, body_start) {
                                Some(close_at) => {
                                    let next = match find_from(text, seq!['>'], close_at) {
                                        Some(g) => g + 1,
                                        None => close_at + close.len(),
                                    };
                                    seq![(trimmed, text.subrange(body_start, close_at))] + if from
                                        < next <= text.len() {
                                        blocks_from(text, tag, next)
                                    } else {
                                        Seq::empty()
                                    }
                                },
                                None => seq![(trimmed, text.subrange(body_start, text.len() as int))],
                            }
                        }
                    },
                }
            },
        }
    }
}

fn trim_trailing_slashes(s: &Vec<char>) -> (r: Vec<char>)
    ensures
        r@ == trim_slashes(s@),
{
    let mut v = subrange_chars(s, 0, s.len());
    assert(v@ =~= s@);
    while v.len() > 0 && v[v.len() - 1] == '/'
        invariant
            trim_slashes(v@) == trim_slashes(s@),
        decreases v.len(),
    {
        let ghost before = v@;
        v.pop();
        assert(v@ =~= before.drop_last());
    }
    v
}

/// Find every `<tag ...>...</tag>` (or self closing `<tag ... />`) at any
/// depth, returning the attribute text and inner body of each.
pub fn find_blocks(text: &Vec<char>, tag: &str) -> (r: Vec<(Vec<char>, Vec<char>)>)
    ensures
        pairs_view(r@) == blocks_from(text@, tag@, 0),
{
    let mut open: Vec<char> = Vec::new();
    open.push('<');
    crate::text::push_str(&mut open, tag);
    let mut close: Vec<char> = Vec::new();
    close.push('<');
    close.push('/');
    crate::text::push_str(&mut close, tag);
    assert(open@ =~= seq!['<'] + tag@);
    assert(close@ =~= seq!['<', '/'] + tag@);
    let mut gt: Vec<char> = Vec::new();
    gt.push('>');
    assert(gt@ =~= seq!['>']);
    let n = text.len();
    let mut blocks: Vec<(Vec<char>, Vec<char>)> = Vec::new();
    let mut from: usize = 0;
    assert(pairs_view(blocks@) =~= Seq::<(Seq<char>, Seq<char>)>::empty());
    loop
        invariant
            from <= n,
            n == text@.len(),
            open@ == seq!['<'] + tag@,
            close@ == seq!['<', '/'] + tag@,
            gt@ == seq!['>'],
            pairs_view(blocks@) + blocks_from(text@, tag@, from as int) == blocks_from(text@, tag@, 0),
        decreases n - from,
    {
        let ghost prev = pairs_view(blocks@);
        let found = find_token_chars(text, &open, from);
        proof {
            lemma_find_token(text@, open@, from as int);
        }
        let start = match found {
            None => {
                assert(pairs_view(blocks@) =~= blocks_from(text@, tag@, 0));
                return blocks;
            },
            Some(start) => start,
        };
        assert(occurs_at(text@, open@, start as int));
        assert(start + open.len() <= n);
        let after_name = start + open.len();
        let gt_found = find_chars(text, &gt, after_name);
        proof {
            lemma_find_from(text@, gt@, after_name as int);
        }
        let tag_end = match gt_found {
            None => {
                assert(pairs_view(blocks@) =~= blocks_from(text@, tag@, 0));
                return blocks;
            },
            Some(tag_end) => tag_end,
        };
        assert(occurs_at(text@, gt@, tag_end as int));
        let raw_attrs = subrange_chars(text, after_name, tag_end);
        let trimmed = trim_end_chars(&raw_attrs);
        if trimmed.len() > 0 && trimmed[trimmed.len() - 1] == '/' {
            let attrs = trim_trailing_slashes(&trimmed);
            blocks.push((attrs, Vec::new()));
            from = tag_end + 1;
            assert(pairs_view(blocks@) =~= prev.push((trim_slashes(trimmed@), Seq::empty())));
            assert(pairs_view(blocks@) + blocks_from(text@, tag@, from as int) =~= blocks_from(
                text@,
                tag@,
                0,
            ));
        } else {
            let body_start = tag_end + 1;
            let close_found = find_token_chars(text, &close, body_start);
            proof {
                lemma_find_token(text@, close@, body_start as int);
            }
            match close_found {
                Some(close_at) => {
                    assert(occurs_at(text@, close@, close_at as int));
                    let body = subrange_chars(text, body_start, close_at);
                    let ghost tv = trimmed@;
                    let ghost bv = body@;
                    blocks.push((trimmed, body));
                    let g_found = find_chars(text, &gt, close_at);
                    proof {
                        lemma_find_from(text@, gt@, close_at as int);
                    }
                    from = match g_found {
                        Some(g) => {
                            assert(occurs_at(text@, gt@, g as int));
                            g + 1
                        },
                        None => close_at + close.len(),
                    };
                    assert(pairs_view(blocks@) =~= prev.push((tv, bv)));
                    assert(pairs_view(blocks@) + blocks_from(text@, tag@, from as int) =~= blocks_from(
                        text@,
                        tag@,
                        0,
                    ));
                },
                None => {
                    let body = subrange_chars(text, body_start, n);
                    let ghost tv = trimmed@;
                    let ghost bv = body@;
                    blocks.push((trimmed, body));
                    assert(pairs_view(blocks@) =~= prev.push((tv, bv)));
                    assert(pairs_view(blocks@) =~= blocks_from(text@, tag@, 0));
                    return blocks;
                },
            }
        }
    }
}

} // verus!

verus! {

pub open spec fn is_ascii_letter(c: char) -> bool {
    ('a' <= c && c <= 'z') || ('A' <= c && c <= 'Z')
}

pub open spec fn is_ascii_digit(c: char) -> bool {
    '0' <= c && c <= '9'
}

/// A character that can start an attribute name.
pub open spec fn is_name_start(c: char) -> bool {
    is_ascii_letter(c) || c == '_'
}

/// A character that can continue an attribute name.
pub open spec fn is_name_part(c: char) -> bool {
    is_ascii_letter(c) || is_ascii_digit(c) || c == '_' || c == ':' || c == '.' || c == '-'
}

/// End of the run of name characters starting at `i`.
pub open spec fn name_end(cs: Seq<char>, i: int) -> int
    decreases cs.len() - i,
{
    if 0 <= i < cs.len() && is_name_part(cs[i]) {
        name_end(cs, i + 1)
    } else {
        i
    }
}

/// End of the run of white space starting at `i`.
pub open spec fn space_end(cs: Seq<char>, i: int) -> int
    decreases cs.len() - i,
{
    if 0 <= i < cs.len() && is_white_space(cs[i]) {
        space_end(cs, i + 1)
    } else {
        i
    }
}

/// First position at or after `i` holding `q`, or the end.
pub open spec fn quote_end(cs: Seq<char>, q: char, i: int) -> int
    decreases cs.len() - i,
{
    if 0 <= i < cs.len() && cs[i] != q {
        quote_end(cs, q, i + 1)
    } else {
        i
    }
}

/// The `name="value"` (or `name='value'`) pairs of an attribute text read from
/// position `i`, in order. Text that does not form such a pair is skipped; an
/// unterminated value runs to the end.
pub open spec fn attrs_from(cs: Seq<char>, i: int) -> Seq<(Seq<char>, Seq<char>)>
    decreases cs.len() - i,
{
    if i < 0 || i >= cs.len() {
        Seq::empty()
    } else if !is_name_start(cs[i]) {
        attrs_from(cs, i + 1)
    } else {
        let e = name_end(cs, i + 1);
        let j = space_end(cs, e);
        if !(i < j <= cs.len()) {
            Seq::empty()
        } else if j >= cs.len() || cs[j] != '=' {
            attrs_from(cs, j)
        } else {
            let k = space_end(cs, j + 1);
            if !(i < k <= cs.len()) {
                Seq::empty()
            } else if k >= cs.len() || (cs[k] != '"' && cs[k] != '\'') {
                attrs_from(cs, k)
            } else {
                let ve = quote_end(cs, cs[k], k + 1);
                let next = if ve < cs.len() {
                    ve + 1
                } else {
                    ve
                };
                seq![(cs.subrange(i, e), cs.subrange(k + 1, ve))] + if i < next <= cs.len() {
                    attrs_from(cs, next)
                } else {
                    Seq::empty()
                }
            }
        }
    }
}

fn is_name_start_char(c: char) -> (b: bool)
    ensures
        b == is_name_start(c),
{
    ('a' <= c && c <= 'z') || ('A' <= c && c <= 'Z') || c == '_'
}

fn is_name_part_char(c: char) -> (b: bool)
    ensures
        b == is_name_part(c),
{
    ('a' <= c && c <= 'z') || ('A' <= c && c <= 'Z') || ('0' <= c && c <= '9') || c == '_' || c
        == ':' || c == '.' || c == '-'
}

/// Parse the attribute pairs of an attribute text.
pub fn parse_attrs(input: &Vec<char>) -> (r: Vec<(Vec<char>, Vec<char>)>)
    ensures
        pairs_view(r@) == attrs_from(input@, 0),
{
    let chars = input;
    let n = chars.len();
    let mut attrs: Vec<(Vec<char>, Vec<char>)> = Vec::new();
    let mut i: usize = 0;
    assert(pairs_view(attrs@) =~= Seq::<(Seq<char>, Seq<char>)>::empty());
    while i < n
        invariant
            i <= n,
            n == chars@.len(),
            pairs_view(attrs@) + attrs_from(chars@, i as int) == attrs_from(chars@, 0),
        decreases n - i,
    {
        let ghost cs = chars@;
        let ghost i0 = i as int;
        let ghost prev = pairs_view(attrs@);
        if !is_name_start_char(chars[i]) {
            i = i + 1;
            continue;
        }
        let start = i;
        i = i + 1;
        while i < n && is_name_part_char(chars[i])
            invariant
                start < i <= n,
                n == cs.len(),
                cs == chars@,
                name_end(cs, start + 1) == name_end(cs, i as int),
            decreases n - i,
        {
            i = i + 1;
        }
        let name = subrange_chars(chars, start, i);
        let ghost e = i as int;
        while i < n && char_is_white_space(chars[i])
            invariant
                e <= i <= n,
                n == cs.len(),
                cs == chars@,
                space_end(cs, e) == space_end(cs, i as int),
            decreases n - i,
        {
            i = i + 1;
        }
        if i >= n || chars[i] != '=' {
            continue;
        }
        i = i + 1;
        let ghost j1 = i as int;
        while i < n && char_is_white_space(chars[i])
            invariant
                j1 <= i <= n,
                n == cs.len(),
                cs == chars@,
                space_end(cs, j1) == space_end(cs, i as int),
            decreases n - i,
        {
            i = i + 1;
        }
        if i >= n || (chars[i] != '"' && chars[i] != '\'') {
            continue;
        }
        let quote = chars[i];
        i = i + 1;
        let value_start = i;
        while i < n && chars[i] != quote
            invariant
                value_start <= i <= n,
                n == cs.len(),
                cs == chars@,
                quote_end(cs, quote, value_start as int) == quote_end(cs, quote, i as int),
            decreases n - i,
        {
            i = i + 1;
        }
        let value = subrange_chars(chars, value_start, i);
        if i < n {
            i = i + 1;
        }
        let ghost nv = name@;
        let ghost vv = value@;
        attrs.push((name, value));
        assert(pairs_view(attrs@) =~= prev.push((nv, vv)));
        assert(pairs_view(attrs@) + attrs_from(chars@, i as int) =~= attrs_from(chars@, 0));
    }
    assert(pairs_view(attrs@) =~= attrs_from(chars@, 0));
    attrs
}

} // verus!

verus! {

/// The value of the first attribute named `key`, searching from index `i`.
pub open spec fn value_of(attrs: Seq<(Seq<char>, Seq<char>)>, key: Seq<char>, i: int) -> Option<
    Seq<char>,
>
    decreases attrs.len() - i,
{
    if i < 0 || i >= attrs.len() {
        None
    } else if attrs[i].0 == key {
        Some(attrs[i].1)
    } else {
        value_of(attrs, key, i + 1)
    }
}

/// The value of the first of `names` (tried in order, from index `j`) that
/// some attribute carries.
pub open spec fn attr_of(attrs: Seq<(Seq<char>, Seq<char>)>, names: Seq<Seq<char>>, j: int) -> Option<
    Seq<char>,
>
    decreases names.len() - j,
{
    if j < 0 || j >= names.len() {
        None
    } else {
        match value_of(attrs, names[j], 0) {
            Some(v) => Some(v),
            None => attr_of(attrs, names, j + 1),
        }
    }
}

/// Names given as string slices, as character sequences.
pub open spec fn names_view(names: Seq<&str>) -> Seq<Seq<char>> {
    names.map_values(|s: &str| s@)
}

fn value_for(attrs: &Vec<(Vec<char>, Vec<char>)>, key: &Vec<char>) -> (r: Option<Vec<char>>)
    ensures
        match value_of(pairs_view(attrs@), key@, 0) {
            Some(v) => r is Some && r->Some_0@ == v,
            None => r is None,
        },
{
    let mut i: usize = 0;
    while i < attrs.len()
        invariant
            i <= attrs.len(),
            value_of(pairs_view(attrs@), key@, 0) == value_of(pairs_view(attrs@), key@, i as int),
        decreases attrs.len() - i,
    {
        if crate::text::chars_eq(&attrs[i].0, key) {
            let v = subrange_chars(&attrs[i].1, 0, attrs[i].1.len());
            assert(v@ =~= attrs[i as int].1@);
            return Some(v);
        }
        i = i + 1;
    }
    None
}

/// The value of the first of `names` that some attribute carries.
pub fn attr(attrs: &Vec<(Vec<char>, Vec<char>)>, names: &[&str]) -> (r: Option<Vec<char>>)
    ensures
        match attr_of(pairs_view(attrs@), names_view(names@), 0) {
            Some(v) => r is Some && r->Some_0@ == v,
            None => r is None,
        },
{
    let mut j: usize = 0;
    while j < names.len()
        invariant
            j <= names@.len(),
            attr_of(pairs_view(attrs@), names_view(names@), 0) == attr_of(
                pairs_view(attrs@),
                names_view(names@),
                j as int,
            ),
        decreases names.len() - j,
    {
        let key = chars_of(names[j]);
        match value_for(attrs, &key) {
            Some(v) => return Some(v),
            None => {},
        }
        j = j + 1;
    }
    None
}

} // verus!
