//! Symbol entries.

use ioc_drivers::twincat::ads::defs::AdsType;
use ioc_drivers::twincat::ads::error::AdsError;
use ioc_drivers::twincat::ads::symbol::{decode_symbol_entry, SymbolEntry, SYMBOL_ENTRY_HEADER_LEN};

fn build(e: &SymbolEntry) -> Vec<u8> {
    let (name, ty, comment) = (e.name.as_str(), e.plc_type.as_str(), e.comment.as_str());
    let entry_len =
        (SYMBOL_ENTRY_HEADER_LEN + name.len() + ty.len() + comment.len() + 3) as u32;
    let mut b = Vec::new();
    b.extend_from_slice(&entry_len.to_le_bytes());
    b.extend_from_slice(&e.index_group.to_le_bytes());
    b.extend_from_slice(&e.index_offset.to_le_bytes());
    b.extend_from_slice(&e.size.to_le_bytes());
    b.extend_from_slice(&e.data_type.to_u32().to_le_bytes());
    b.extend_from_slice(&e.flags.to_le_bytes());
    b.extend_from_slice(&(name.len() as u16).to_le_bytes());
    b.extend_from_slice(&(ty.len() as u16).to_le_bytes());
    b.extend_from_slice(&(comment.len() as u16).to_le_bytes());
    b.extend_from_slice(name.as_bytes());
    b.push(0);
    b.extend_from_slice(ty.as_bytes());
    b.push(0);
    b.extend_from_slice(comment.as_bytes());
    b.push(0);
    b
}

fn sym(
    index_group: u32,
    index_offset: u32,
    size: u32,
    data_type: AdsType,
    name: &str,
    plc_type: &str,
) -> SymbolEntry {
    SymbolEntry {
        index_group,
        index_offset,
        size,
        data_type,
        flags: 0,
        name: name.into(),
        plc_type: plc_type.into(),
        comment: String::new(),
    }
}

#[test]
fn header_is_30_bytes() {
    let buf = build(&sym(0x4020, 0, 4, AdsType::Int32, "", ""));
    assert_eq!(buf.len(), SYMBOL_ENTRY_HEADER_LEN + 3);
}

#[test]
fn decodes_scalar_symbol() {
    let mut e = sym(0x4020, 0x1234, 4, AdsType::Real32, "MAIN.fTest", "REAL");
    e.flags = 0x08;
    e.comment = "test var".into();
    let decoded = decode_symbol_entry(&build(&e)).unwrap();
    assert_eq!(decoded, e);
    assert_eq!(decoded.element_count(), Some(1));
}

#[test]
fn element_count_divides_size_by_element_size() {
    let buf = build(&sym(
        0x4020,
        0,
        20,
        AdsType::Int16,
        "MAIN.arr",
        "ARRAY [0..9] OF INT",
    ));
    assert_eq!(decode_symbol_entry(&buf).unwrap().element_count(), Some(10));
}

#[test]
fn element_count_is_none_for_types_without_fixed_element_size() {
    let buf = build(&sym(
        0x4020,
        0,
        64,
        AdsType::BigType,
        "MAIN.stStatus",
        "DUT_AxisStatus",
    ));
    assert_eq!(decode_symbol_entry(&buf).unwrap().element_count(), None);
}

#[test]
fn string_symbol_counts_bytes_as_elements() {
    let buf = build(&sym(
        0x4020,
        0,
        81,
        AdsType::String,
        "MAIN.sName",
        "STRING(80)",
    ));
    assert_eq!(decode_symbol_entry(&buf).unwrap().element_count(), Some(81));
}

#[test]
fn empty_comment_still_consumes_its_nul() {
    let buf = build(&sym(1, 2, 4, AdsType::Int32, "a", "DINT"));
    let s = decode_symbol_entry(&buf).unwrap();
    assert_eq!(s.comment, "");
    assert_eq!(s.name, "a");
    assert_eq!(s.plc_type, "DINT");
}

#[test]
fn truncated_entry_errors() {
    let mut buf = build(&sym(1, 2, 4, AdsType::Int32, "MAIN.x", "DINT"));
    buf.truncate(SYMBOL_ENTRY_HEADER_LEN + 2);
    assert!(matches!(
        decode_symbol_entry(&buf),
        Err(AdsError::ShortFrame { .. })
    ));
}
