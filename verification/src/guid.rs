//! GUID formatting that matches the .NET `Guid(byte[16])` byte order.
//!
//! The first three fields are stored little endian, the remaining eight bytes
//! in order. This mirrors how the simulator serialises GUIDs so the rendered
//! text matches the authored XML.

use vstd::prelude::*;

use crate::text::{string_from_chars, upper_seq, upper_chars};

verus! {

/// Lowercase hexadecimal digit for a value below 16.
pub open spec fn hex_digit(n: int) -> char {
    if n < 10 {
        (48 + n) as char
    } else {
        (87 + n) as char
    }
}

/// The two lowercase hexadecimal digits of a byte.
pub open spec fn hex_byte(b: u8) -> Seq<char> {
    seq![hex_digit(b as int / 16), hex_digit(b as int % 16)]
}

/// Lowercase hyphenated text of a GUID stored in the .NET byte layout: the
/// first field is the little endian `u32` of bytes 0..4, the second and third
/// are little endian `u16`s of bytes 4..6 and 6..8, and the last eight bytes
/// follow in order.
pub open spec fn guid_lower(b: Seq<u8>) -> Seq<char> {
    hex_byte(b[3]) + hex_byte(b[2]) + hex_byte(b[1]) + hex_byte(b[0]) + seq!['-']
        + hex_byte(b[5]) + hex_byte(b[4]) + seq!['-']
        + hex_byte(b[7]) + hex_byte(b[6]) + seq!['-']
        + hex_byte(b[8]) + hex_byte(b[9]) + seq!['-']
        + hex_byte(b[10]) + hex_byte(b[11]) + hex_byte(b[12]) + hex_byte(b[13])
        + hex_byte(b[14]) + hex_byte(b[15])
}

/// Braced uppercase text of a GUID, as the simulator writes it in XML.
pub open spec fn guid_braced_upper(b: Seq<u8>) -> Seq<char> {
    seq!['{'] + upper_seq(guid_lower(b)) + seq!['}']
}

fn hex_char(n: u8) -> (c: char)
    requires
        n < 16,
    ensures
        c == hex_digit(n as int),
{
    if n < 10 {
        (48u8 + n) as char
    } else {
        (87u8 + n) as char
    }
}

fn push_hex(out: &mut Vec<char>, b: u8)
    ensures
        final(out)@ == old(out)@ + hex_byte(b),
{
    out.push(hex_char(b / 16));
    out.push(hex_char(b % 16));
    assert(final(out)@ =~= old(out)@ + hex_byte(b));
}

/// Lowercase hyphenated GUID text as characters.
pub fn lower_chars(bytes: &[u8; 16]) -> (r: Vec<char>)
    ensures
        r@ == guid_lower(bytes@),
{
    let mut out: Vec<char> = Vec::new();
    push_hex(&mut out, bytes[3]);
    push_hex(&mut out, bytes[2]);
    push_hex(&mut out, bytes[1]);
    push_hex(&mut out, bytes[0]);
    out.push('-');
    push_hex(&mut out, bytes[5]);
    push_hex(&mut out, bytes[4]);
    out.push('-');
    push_hex(&mut out, bytes[7]);
    push_hex(&mut out, bytes[6]);
    out.push('-');
    push_hex(&mut out, bytes[8]);
    push_hex(&mut out, bytes[9]);
    out.push('-');
    push_hex(&mut out, bytes[10]);
    push_hex(&mut out, bytes[11]);
    push_hex(&mut out, bytes[12]);
    push_hex(&mut out, bytes[13]);
    push_hex(&mut out, bytes[14]);
    push_hex(&mut out, bytes[15]);
    assert(out@ =~= guid_lower(bytes@));
    out
}

/// Format a 16 byte GUID as a lowercase, hyphenated string without braces.
pub fn to_lower(bytes: &[u8; 16]) -> (s: String)
    ensures
        s@ == guid_lower(bytes@),
{
    string_from_chars(&lower_chars(bytes))
}

/// Braced uppercase GUID text as characters.
pub fn braced_upper_chars(bytes: &[u8; 16]) -> (r: Vec<char>)
    ensures
        r@ == guid_braced_upper(bytes@),
{
    let upper = upper_chars(&lower_chars(bytes));
    let mut out: Vec<char> = Vec::new();
    out.push('{');
    crate::text::push_all(&mut out, &upper);
    out.push('}');
    assert(out@ =~= guid_braced_upper(bytes@));
    out
}

/// Format a GUID the way the simulator writes it in XML: braces, uppercase.
pub fn to_braced_upper(bytes: &[u8; 16]) -> (s: String)
    ensures
        s@ == guid_braced_upper(bytes@),
{
    string_from_chars(&braced_upper_chars(bytes))
}

} // verus!

verus! {

/// A lowercase hexadecimal digit or a hyphen.
pub open spec fn guid_char(c: char) -> bool {
    ('0' <= c && c <= '9') || ('a' <= c && c <= 'f') || c == '-'
}

pub open spec fn all_guid_chars(s: Seq<char>) -> bool {
    forall|i: int| 0 <= i < s.len() ==> guid_char(#[trigger] s[i])
}

proof fn lemma_concat(a: Seq<char>, b: Seq<char>)
    requires
        all_guid_chars(a),
        all_guid_chars(b),
    ensures
        all_guid_chars(a + b),
{
    assert forall|i: int| 0 <= i < (a + b).len() implies guid_char(#[trigger] (a + b)[i]) by {
        if i < a.len() {
            assert((a + b)[i] == a[i]);
        } else {
            assert((a + b)[i] == b[i - a.len()]);
        }
    }
}

proof fn lemma_hex_byte(b: u8)
    ensures
        all_guid_chars(hex_byte(b)),
        hex_byte(b).len() == 2,
{
    let h = hex_byte(b);
    assert(guid_char(h[0]) && guid_char(h[1]));
}

/// GUID text is 36 characters, each a lowercase hexadecimal digit or a
/// hyphen, starting and ending with a digit.
pub proof fn guid_text_shape(b: Seq<u8>)
    requires
        b.len() == 16,
    ensures
        guid_lower(b).len() == 36,
        all_guid_chars(guid_lower(b)),
        guid_lower(b)[0] != '-',
        guid_lower(b)[35] != '-',
{
    let dash = seq!['-'];
    assert(all_guid_chars(dash));
    lemma_hex_byte(b[0]);
    lemma_hex_byte(b[1]);
    lemma_hex_byte(b[2]);
    lemma_hex_byte(b[3]);
    lemma_hex_byte(b[4]);
    lemma_hex_byte(b[5]);
    lemma_hex_byte(b[6]);
    lemma_hex_byte(b[7]);
    lemma_hex_byte(b[8]);
    lemma_hex_byte(b[9]);
    lemma_hex_byte(b[10]);
    lemma_hex_byte(b[11]);
    lemma_hex_byte(b[12]);
    lemma_hex_byte(b[13]);
    lemma_hex_byte(b[14]);
    lemma_hex_byte(b[15]);
    let s1 = hex_byte(b[3]) + hex_byte(b[2]);
    lemma_concat(hex_byte(b[3]), hex_byte(b[2]));
    let s2 = s1 + hex_byte(b[1]);
    lemma_concat(s1, hex_byte(b[1]));
    let s3 = s2 + hex_byte(b[0]);
    lemma_concat(s2, hex_byte(b[0]));
    let s4 = s3 + dash;
    lemma_concat(s3, dash);
    let s5 = s4 + hex_byte(b[5]);
    lemma_concat(s4, hex_byte(b[5]));
    let s6 = s5 + hex_byte(b[4]);
    lemma_concat(s5, hex_byte(b[4]));
    let s7 = s6 + dash;
    lemma_concat(s6, dash);
    let s8 = s7 + hex_byte(b[7]);
    lemma_concat(s7, hex_byte(b[7]));
    let s9 = s8 + hex_byte(b[6]);
    lemma_concat(s8, hex_byte(b[6]));
    let s10 = s9 + dash;
    lemma_concat(s9, dash);
    let s11 = s10 + hex_byte(b[8]);
    lemma_concat(s10, hex_byte(b[8]));
    let s12 = s11 + hex_byte(b[9]);
    lemma_concat(s11, hex_byte(b[9]));
    let s13 = s12 + dash;
    lemma_concat(s12, dash);
    let s14 = s13 + hex_byte(b[10]);
    lemma_concat(s13, hex_byte(b[10]));
    let s15 = s14 + hex_byte(b[11]);
    lemma_concat(s14, hex_byte(b[11]));
    let s16 = s15 + hex_byte(b[12]);
    lemma_concat(s15, hex_byte(b[12]));
    let s17 = s16 + hex_byte(b[13]);
    lemma_concat(s16, hex_byte(b[13]));
    let s18 = s17 + hex_byte(b[14]);
    lemma_concat(s17, hex_byte(b[14]));
    let s19 = s18 + hex_byte(b[15]);
    lemma_concat(s18, hex_byte(b[15]));
    assert(guid_lower(b) == s19);
    assert(s19[0] == hex_byte(b[3])[0]);
    assert(s19[35] == hex_byte(b[15])[1]);
}

} // verus!
