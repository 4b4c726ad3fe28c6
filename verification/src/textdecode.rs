//! Decoder for the simulator's position dependent text encoding.
//!
//! Compiled `TEXT` and `MLTEXT` values are stored with a substitution table
//! where the cipher byte depends on both the source character and its position
//! in the string (the position wraps every 250 characters). The table comes as
//! 256 records, one per source character code, each a little endian `u16`
//! length followed by that many cipher bytes; record `c` lists, for each
//! position, the cipher byte that stands for code `c` there.

use vstd::prelude::*;

use crate::error::{Error, ErrorView};
use crate::reader::u16_at;
use crate::text::{decimal, push_str, push_unsigned, string_from_chars};

verus! {

/// Positions after which the cipher wraps around.
pub const PERIOD: usize = 250;

/// Number of source character codes.
pub const CODES: usize = 256;

/// Offset of record `c` in a raw table.
pub open spec fn row_start(raw: Seq<u8>, c: int) -> int
    decreases c,
{
    if c <= 0 {
        0
    } else {
        row_start(raw, c - 1) + 2 + u16_at(raw, row_start(raw, c - 1))
    }
}

/// Declared length of record `c`.
pub open spec fn row_len(raw: Seq<u8>, c: int) -> int {
    u16_at(raw, row_start(raw, c))
}

/// Record `c` lies inside the raw table and lists at most one byte per position.
pub open spec fn row_ok(raw: Seq<u8>, c: int) -> bool {
    &&& row_start(raw, c) + 2 <= raw.len()
    &&& row_start(raw, c) + 2 + row_len(raw, c) <= raw.len()
    &&& row_len(raw, c) <= PERIOD
}

/// Every record of the raw table is well formed.
pub open spec fn table_ok(raw: Seq<u8>) -> bool {
    forall|c: int| 0 <= c < CODES ==> #[trigger] row_ok(raw, c)
}

/// The cipher byte of code `c` at position `pos`, when record `c` lists one.
pub open spec fn lists(raw: Seq<u8>, c: int, b: int, pos: int) -> bool {
    0 <= pos < row_len(raw, c) && raw[row_start(raw, c) + 2 + pos] == b
}

/// The code that cipher byte `b` at position `pos` decodes to among the first
/// `n` codes: the last code whose record lists `b` at `pos`, or `-1`.
pub open spec fn code_among(raw: Seq<u8>, b: int, pos: int, n: int) -> int
    decreases n,
{
    if n <= 0 {
        -1
    } else if lists(raw, n - 1, b, pos) {
        n - 1
    } else {
        code_among(raw, b, pos, n - 1)
    }
}

/// Message of the error for an undecodable byte at index `i`.
pub open spec fn decode_failed_message(i: int) -> Seq<char> {
    "text decode failed at byte "@ + decimal(i)
}

pub open spec fn terminator_message() -> Seq<char> {
    "text decode terminator mismatch"@
}

pub open spec fn malformed_table_message() -> Seq<char> {
    "malformed text decoding table"@
}

/// Reverse lookup mapping `(cipher byte, position)` back to a character code.
/// `-1` marks an unused cell.
pub struct TextTable {
    map: Vec<i16>,
}

impl TextTable {
    #[verifier::type_invariant]
    closed spec fn cells_ok(&self) -> bool {
        &&& self.map@.len() == CODES * PERIOD
        &&& forall|i: int| 0 <= i < self.map@.len() ==> -1 <= #[trigger] self.map@[i] < 256
    }

    /// The code that cipher byte `b` at position `pos` decodes to, or `-1`.
    pub closed spec fn code(&self, b: int, pos: int) -> int {
        self.map@[b * PERIOD + pos] as int
    }

    /// The decoded prefix of the first `n` bytes of a cipher text, excluding
    /// the terminator, or the message of the first failure.
    pub open spec fn decode_prefix(&self, enc: Seq<u8>, n: int) -> Result<Seq<char>, Seq<char>>
        decreases n,
    {
        if n <= 0 {
            Ok(Seq::empty())
        } else {
            match self.decode_prefix(enc, n - 1) {
                Err(m) => Err(m),
                Ok(s) => {
                    let code = self.code(enc[n - 1] as int, (n - 1) % (PERIOD as int));
                    if code < 0 {
                        Err(decode_failed_message(n - 1))
                    } else {
                        Ok(s.push((code as u8) as char))
                    }
                },
            }
        }
    }

    proof fn lemma_prefix_error(&self, enc: Seq<u8>, k: int, n: int)
        requires
            0 < k <= n,
            self.decode_prefix(enc, k) is Err,
        ensures
            self.decode_prefix(enc, n) == self.decode_prefix(enc, k),
        decreases n - k,
    {
        if k < n {
            self.lemma_prefix_error(enc, k, n - 1);
        }
    }

    /// What decoding `enc` yields: the characters before the final byte, which
    /// must itself decode to the null character.
    pub open spec fn decoded(&self, enc: Seq<u8>) -> Result<Seq<char>, Seq<char>> {
        if enc.len() == 0 {
            Ok(Seq::empty())
        } else {
            match self.decode_prefix(enc, enc.len() - 1) {
                Err(m) => Err(m),
                Ok(s) => {
                    let last = enc.len() - 1;
                    if self.code(enc[last] as int, last % (PERIOD as int)) != 0 {
                        Err(terminator_message())
                    } else {
                        Ok(s)
                    }
                },
            }
        }
    }

    /// Build the decoder from a raw table in the record layout described in
    /// the module documentation.
    pub fn from_table(raw: &[u8]) -> (r: Result<TextTable, Error>)
        ensures
            r is Ok <==> table_ok(raw@),
            r matches Ok(t) ==> forall|b: int, pos: int|
                0 <= b < CODES && 0 <= pos < PERIOD ==> #[trigger] t.code(b, pos) == code_among(
                    raw@,
                    b,
                    pos,
                    CODES as int,
                ),
            r matches Err(e) ==> e@ == ErrorView::Format(malformed_table_message()),
    {
        let mut map: Vec<i16> = vec![-1i16; CODES * PERIOD];
        assert forall|i: int| 0 <= i < map@.len() implies map@[i] == -1 by {
            assert(cloned(-1i16, map@[i]));
        }
        let mut offset: usize = 0;
        let mut code: usize = 0;
        while code < CODES
            invariant
                code <= CODES,
                offset == row_start(raw@, code as int),
                offset <= raw@.len(),
                map@.len() == CODES * PERIOD,
                forall|c: int| 0 <= c < code ==> #[trigger] row_ok(raw@, c),
                forall|i: int| 0 <= i < map@.len() ==> -1 <= #[trigger] map@[i] < 256,
                forall|b: int, pos: int|
                    0 <= b < CODES && 0 <= pos < PERIOD ==> #[trigger] map@[b * PERIOD + pos]
                        == code_among(raw@, b, pos, code as int),
            decreases CODES - code,
        {
            if raw.len() - offset < 2 {
                assert(!row_ok(raw@, code as int));
                return Err(Error::Format(String::from_str("malformed text decoding table")));
            }
            let len: usize = raw[offset] as usize + (raw[offset + 1] as usize) * 256;
            assert(len == row_len(raw@, code as int));
            if len > PERIOD || raw.len() - offset - 2 < len {
                assert(!row_ok(raw@, code as int));
                return Err(Error::Format(String::from_str("malformed text decoding table")));
            }
            let start = offset + 2;
            let ghost before = map@;
            let mut pos: usize = 0;
            while pos < len
                invariant
                    pos <= len <= PERIOD,
                    code < CODES,
                    start == row_start(raw@, code as int) + 2,
                    len == row_len(raw@, code as int),
                    start + len <= raw.len(),
                    map@.len() == CODES * PERIOD,
                    forall|i: int| 0 <= i < map@.len() ==> -1 <= #[trigger] map@[i] < 256,
                    forall|b: int, p: int|
                        0 <= b < CODES && 0 <= p < PERIOD ==> #[trigger] map@[b * PERIOD + p] == if p
                            < pos && raw@[start + p] == b {
                            code as int
                        } else {
                            before[b * PERIOD + p] as int
                        },
                before.len() == CODES * PERIOD,
                decreases len - pos,
            {
                let cipher = raw[start + pos] as usize;
                let ghost old_map = map@;
                assert(cipher * PERIOD + pos < CODES * PERIOD) by (nonlinear_arith)
                    requires
                        cipher < 256,
                        pos < 250,
                ;
                map.set(cipher * PERIOD + pos, code as i16);
                proof {
                    assert forall|b: int, p: int|
                        0 <= b < CODES && 0 <= p < PERIOD implies #[trigger] map@[b * PERIOD + p] == if p
                            < pos + 1 && raw@[start + p] == b {
                            code as int
                        } else {
                            before[b * PERIOD + p] as int
                        } by {
                        if b * PERIOD + p == cipher * PERIOD + pos {
                            assert(b == cipher && p == pos) by (nonlinear_arith)
                                requires
                                    b * 250 + p == cipher * 250 + pos,
                                    0 <= p < 250,
                                    0 <= pos < 250,
                            ;
                        } else {
                            assert(old_map[b * PERIOD + p] == map@[b * PERIOD + p]);
                            if p == pos && raw@[start + p] == b {
                                assert(b == cipher);
                            }
                        }
                    }
                }
                pos = pos + 1;
            }
            proof {
                assert(row_ok(raw@, code as int));
                assert forall|b: int, p: int|
                    0 <= b < CODES && 0 <= p < PERIOD implies #[trigger] map@[b * PERIOD + p]
                        == code_among(raw@, b, p, code + 1) by {
                    assert(lists(raw@, code as int, b, p) == (p < len && raw@[start + p] == b));
                }
            }
            offset = start + len;
            code = code + 1;
        }
        let t = TextTable { map };
        proof {
            assert forall|b: int, pos: int|
                0 <= b < CODES && 0 <= pos < PERIOD implies #[trigger] t.code(b, pos) == code_among(
                raw@,
                b,
                pos,
                CODES as int,
            ) by {
                assert(t.map@[b * PERIOD + pos] == code_among(raw@, b, pos, CODES as int));
            }
        }
        Ok(t)
    }

    /// Decode a cipher byte slice. The final byte is a terminator that must map
    /// back to the null character.
    pub fn decode(&self, encoded: &[u8]) -> (r: Result<String, Error>)
        ensures
            match self.decoded(encoded@) {
                Ok(s) => r is Ok && r->Ok_0@ == s,
                Err(m) => r is Err && r->Err_0@ == ErrorView::Format(m),
            },
    {
        proof {
            use_type_invariant(self);
        }
        if encoded.len() == 0 {
            return Ok(String::new());
        }
        let mut out: Vec<char> = Vec::new();
        let n = encoded.len() - 1;
        let mut i: usize = 0;
        while i < n
            invariant
                i <= n,
                n == encoded@.len() - 1,
                self.decode_prefix(encoded@, i as int) == Ok::<Seq<char>, Seq<char>>(out@),
            decreases n - i,
        {
            proof {
                use_type_invariant(self);
            }
            let b = encoded[i] as usize;
            let pos = i % PERIOD;
            assert(b * PERIOD + pos < CODES * PERIOD) by (nonlinear_arith)
                requires
                    b < 256,
                    pos < 250,
            ;
            let code = self.map[b * PERIOD + pos];
            if code < 0 {
                let mut msg: Vec<char> = Vec::new();
                push_str(&mut msg, "text decode failed at byte ");
                push_unsigned(i as u64, &mut msg);
                assert(msg@ =~= decode_failed_message(i as int));
                proof {
                    self.lemma_prefix_error(encoded@, i as int + 1, n as int);
                }
                return Err(Error::Format(string_from_chars(&msg)));
            }
            out.push((code as u8) as char);
            i = i + 1;
        }
        let b = encoded[n] as usize;
        let pos = n % PERIOD;
        assert(b * PERIOD + pos < CODES * PERIOD) by (nonlinear_arith)
            requires
                b < 256,
                pos < 250,
        ;
        if self.map[b * PERIOD + pos] != 0 {
            return Err(Error::Format(String::from_str("text decode terminator mismatch")));
        }
        Ok(string_from_chars(&out))
    }
}

} // verus!

verus! {

/// The cipher byte record `c` lists at position `pos`.
pub open spec fn cipher_at(raw: Seq<u8>, c: int, pos: int) -> u8 {
    raw[row_start(raw, c) + 2 + pos]
}

/// At each position, no two codes share a cipher byte.
pub open spec fn columns_distinct(raw: Seq<u8>) -> bool {
    forall|c1: int, c2: int, pos: int|
        0 <= c1 < CODES && 0 <= c2 < CODES && 0 <= pos < row_len(raw, c1) && pos < row_len(raw, c2)
            && #[trigger] cipher_at(raw, c1, pos) == #[trigger] cipher_at(raw, c2, pos) ==> c1 == c2
}

/// Every character of `s` has a code below 256 that the table lists at its
/// position, and the terminator (code 0) is listed at the position after it.
pub open spec fn encipherable(raw: Seq<u8>, s: Seq<char>) -> bool {
    &&& forall|i: int|
        0 <= i < s.len() ==> (#[trigger] s[i] as u32) < 256 && i % (PERIOD as int) < row_len(
            raw,
            s[i] as u32 as int,
        )
    &&& (s.len() as int) % (PERIOD as int) < row_len(raw, 0)
}

/// The cipher text of `s`: the cipher byte of each character at its position
/// (modulo the period), then the terminator.
pub open spec fn enciphered(raw: Seq<u8>, s: Seq<char>) -> Seq<u8> {
    Seq::new(
        (s.len() + 1) as nat,
        |i: int|
            if i < s.len() {
                cipher_at(raw, s[i] as u32 as int, i % (PERIOD as int))
            } else {
                cipher_at(raw, 0, (s.len() as int) % (PERIOD as int))
            },
    )
}

proof fn lemma_code_among_listed(raw: Seq<u8>, c: int, pos: int, n: int)
    requires
        columns_distinct(raw),
        0 <= c < n <= CODES,
        0 <= pos < row_len(raw, c),
    ensures
        code_among(raw, cipher_at(raw, c, pos) as int, pos, n) == c,
    decreases n,
{
    let b = cipher_at(raw, c, pos) as int;
    if n - 1 == c {
        assert(lists(raw, c, b, pos));
    } else {
        if lists(raw, n - 1, b, pos) {
            assert(cipher_at(raw, n - 1, pos) == cipher_at(raw, c, pos));
        }
        lemma_code_among_listed(raw, c, pos, n - 1);
    }
}

/// Decoding inverts the cipher: for a table whose columns are distinct, the
/// decoder built from it turns the cipher text of any text it can encipher
/// back into that text.
pub proof fn decoding_inverts_the_cipher(raw: Seq<u8>, t: TextTable, s: Seq<char>)
    requires
        table_ok(raw),
        forall|b: int, pos: int|
            0 <= b < CODES && 0 <= pos < PERIOD ==> #[trigger] t.code(b, pos) == code_among(
                raw,
                b,
                pos,
                CODES as int,
            ),
        columns_distinct(raw),
        encipherable(raw, s),
    ensures
        t.decoded(enciphered(raw, s)) == Ok::<Seq<char>, Seq<char>>(s),
{
    let enc = enciphered(raw, s);
    assert forall|k: int| 0 <= k <= s.len() implies t.decode_prefix(enc, k) == Ok::<
        Seq<char>,
        Seq<char>,
    >(s.take(k)) by {
        lemma_prefix_decodes(raw, t, s, k);
    }
    let last = s.len() as int;
    let pos = last % (PERIOD as int);
    assert(row_ok(raw, 0));
    assert(cipher_at(raw, 0, pos) < 256);
    lemma_code_among_listed(raw, 0, pos, CODES as int);
    assert(t.code(enc[last] as int, pos) == 0);
    assert(s.take(last) =~= s);
}

proof fn lemma_prefix_decodes(raw: Seq<u8>, t: TextTable, s: Seq<char>, k: int)
    requires
        table_ok(raw),
        forall|b: int, pos: int|
            0 <= b < CODES && 0 <= pos < PERIOD ==> #[trigger] t.code(b, pos) == code_among(
                raw,
                b,
                pos,
                CODES as int,
            ),
        columns_distinct(raw),
        encipherable(raw, s),
        0 <= k <= s.len(),
    ensures
        t.decode_prefix(enciphered(raw, s), k) == Ok::<Seq<char>, Seq<char>>(s.take(k)),
    decreases k,
{
    let enc = enciphered(raw, s);
    if k == 0 {
        assert(s.take(0) =~= Seq::<char>::empty());
    } else {
        lemma_prefix_decodes(raw, t, s, k - 1);
        let i = k - 1;
        let c = s[i] as u32 as int;
        let pos = i % (PERIOD as int);
        assert((s[i] as u32) < 256);
        lemma_code_among_listed(raw, c, pos, CODES as int);
        assert(enc[i] == cipher_at(raw, c, pos));
        assert(t.code(enc[i] as int, pos) == c);
        vstd::utf8::char_u32_cast(s[i], s[i] as u32);
        assert((c as u8) as u32 == s[i] as u32);
        assert(((c as u8) as char) == ((s[i] as u32) as char));
        assert(((c as u8) as char) == s[i]);
        assert(s.take(k) =~= s.take(k - 1).push(s[i]));
    }
}

} // verus!
