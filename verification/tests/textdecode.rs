use spb2xml24::textdecode::TextTable;
use spb2xml24::Error;

const PERIOD: usize = 250;
const CODES: usize = 256;

/// Cipher byte of `code` at `pos` in the synthetic table below.
fn cipher(code: u32, pos: usize) -> u8 {
    ((code as usize + pos) % CODES) as u8
}

/// A complete table in the record layout: for every code, one cipher byte per
/// position, distinct per position.
fn synthetic_table() -> Vec<u8> {
    let mut raw = Vec::new();
    for code in 0..CODES {
        raw.extend_from_slice(&(PERIOD as u16).to_le_bytes());
        for pos in 0..PERIOD {
            raw.push(cipher(code as u32, pos));
        }
    }
    raw
}

fn encode(text: &str) -> Vec<u8> {
    let mut out: Vec<u8> = text
        .chars()
        .enumerate()
        .map(|(i, c)| cipher(c as u32, i % PERIOD))
        .collect();
    out.push(cipher(0, text.len() % PERIOD));
    out
}

fn message(err: Error) -> String {
    err.message()
}

#[test]
fn round_trips_ascii() {
    let table = TextTable::from_table(&synthetic_table()).unwrap();
    for sample in ["", "A", "Hello, world!", "Effect_Name 123"] {
        let encoded = encode(sample);
        assert_eq!(table.decode(&encoded).unwrap(), sample);
    }
}

#[test]
fn round_trips_past_the_period() {
    let table = TextTable::from_table(&synthetic_table()).unwrap();
    let long: String = (0..600).map(|i| (b'a' + (i % 26) as u8) as char).collect();
    assert_eq!(table.decode(&encode(&long)).unwrap(), long);
}

#[test]
fn empty_input_decodes_to_empty() {
    let table = TextTable::from_table(&synthetic_table()).unwrap();
    assert_eq!(table.decode(&[]).unwrap(), "");
}

#[test]
fn reports_bad_terminator() {
    let table = TextTable::from_table(&synthetic_table()).unwrap();
    let mut encoded = encode("AB");
    let last = encoded.len() - 1;
    encoded[last] = encoded[last].wrapping_add(1);
    assert_eq!(message(table.decode(&encoded).unwrap_err()), "text decode terminator mismatch");
}

#[test]
fn reports_undecodable_byte() {
    // A table where only code 0 is listed, at every position, as byte 7.
    let mut raw = Vec::new();
    raw.extend_from_slice(&(PERIOD as u16).to_le_bytes());
    raw.extend(std::iter::repeat(7u8).take(PERIOD));
    for _ in 1..CODES {
        raw.extend_from_slice(&0u16.to_le_bytes());
    }
    let table = TextTable::from_table(&raw).unwrap();
    assert_eq!(table.decode(&[7, 7, 9, 7]).unwrap_err().message(), "text decode failed at byte 2");
    assert_eq!(table.decode(&[7, 7, 7]).unwrap(), "\0\0");
}

#[test]
fn later_codes_win_a_shared_cell() {
    let mut raw = Vec::new();
    for code in 0..CODES {
        if code == 65 || code == 66 {
            raw.extend_from_slice(&1u16.to_le_bytes());
            raw.push(40);
        } else if code == 0 {
            raw.extend_from_slice(&2u16.to_le_bytes());
            raw.push(1);
            raw.push(2);
        } else {
            raw.extend_from_slice(&0u16.to_le_bytes());
        }
    }
    let table = TextTable::from_table(&raw).unwrap();
    assert_eq!(table.decode(&[40, 2]).unwrap(), "B");
}

#[test]
fn rejects_malformed_tables() {
    assert!(TextTable::from_table(&[]).is_err());
    let mut short = synthetic_table();
    short.truncate(short.len() - 1);
    assert_eq!(
        TextTable::from_table(&short).err().unwrap().message(),
        "malformed text decoding table"
    );
    let mut long_row = Vec::new();
    long_row.extend_from_slice(&251u16.to_le_bytes());
    long_row.extend(std::iter::repeat(0u8).take(251));
    assert!(TextTable::from_table(&long_row).is_err());
}
