//! Decoding of symbol entries: what the PLC says of a symbol by its name.
//!
//! ```text
//! entryLength   u32   (bytes of this entry)
//! group         u32
//! offset        u32
//! size          u32   (bytes that the symbol occupies in the PLC)
//! dataType      u32
//! flags         u32
//! nameLength    u16   (without the NUL)
//! typeLength    u16
//! commentLength u16
//! name    [nameLength]    NUL
//! type    [typeLength]    NUL
//! comment [commentLength] NUL
//! ```

use super::defs::AdsType;
use super::error::AdsError;
use super::frame;
use super::frame::Reader;
use crate::text;
use vstd::prelude::*;

verus! {

/// Length of the part of a symbol entry before its texts.
pub const SYMBOL_ENTRY_HEADER_LEN: usize = 30;

/// A PLC symbol.
#[derive(Debug, Clone, PartialEq, Eq)]
pub struct SymbolEntry {
    pub index_group: u32,
    pub index_offset: u32,
    /// Size of the symbol in bytes, over all its elements.
    pub size: u32,
    pub data_type: AdsType,
    pub flags: u32,
    pub name: String,
    pub plc_type: String,
    pub comment: String,
}

/// A symbol with its texts as characters.
#[verifier::ext_equal]
pub struct SymbolView {
    pub index_group: nat,
    pub index_offset: nat,
    pub size: nat,
    pub data_type: AdsType,
    pub flags: nat,
    pub name: Seq<char>,
    pub plc_type: Seq<char>,
    pub comment: Seq<char>,
}

impl View for SymbolEntry {
    type V = SymbolView;

    open spec fn view(&self) -> SymbolView {
        SymbolView {
            index_group: self.index_group as nat,
            index_offset: self.index_offset as nat,
            size: self.size as nat,
            data_type: self.data_type,
            flags: self.flags as nat,
            name: self.name@,
            plc_type: self.plc_type@,
            comment: self.comment@,
        }
    }
}

impl SymbolEntry {
    /// Number of elements; `None` for a type without a fixed element size.
    pub fn element_count(&self) -> (r: Option<usize>)
        ensures
            match r {
                Some(n) => self.data_type.width() is Some && self.data_type.width()->0 > 0 && n
                    == self.size as nat / self.data_type.width()->0,
                None => self.data_type.width() is None || self.data_type.width()->0 == 0,
            },
    {
        match self.data_type.element_size() {
            Some(n) => {
                if n == 0 {
                    None
                } else {
                    Some(self.size as usize / n)
                }
            },
            None => None,
        }
    }
}

/// The numbers at the head of a symbol entry.
pub struct HeadView {
    pub index_group: nat,
    pub index_offset: nat,
    pub size: nat,
    pub data_type: nat,
    pub flags: nat,
    pub name_len: nat,
    pub type_len: nat,
    pub comment_len: nat,
}

/// The error for the first number that is missing in the head of an entry of
/// `n` bytes, if one is.
pub open spec fn head_gap(n: nat) -> Option<AdsError> {
    if n < 24 {
        Some(frame::short_frame(4, n % 4))
    } else if n < 30 {
        Some(frame::short_frame(2, n % 2))
    } else {
        None
    }
}

/// The numbers at the head of an entry that is long enough for them.
pub open spec fn head_of(b: Seq<u8>) -> HeadView {
    HeadView {
        index_group: crate::bytes::le_value(b.subrange(4, 8)),
        index_offset: crate::bytes::le_value(b.subrange(8, 12)),
        size: crate::bytes::le_value(b.subrange(12, 16)),
        data_type: crate::bytes::le_value(b.subrange(16, 20)),
        flags: crate::bytes::le_value(b.subrange(20, 24)),
        name_len: crate::bytes::le_value(b.subrange(24, 26)),
        type_len: crate::bytes::le_value(b.subrange(26, 28)),
        comment_len: crate::bytes::le_value(b.subrange(28, 30)),
    }
}

/// A text of `len` bytes and its terminator at the front of `b`.
pub open spec fn parse_string(b: Seq<u8>, len: nat) -> Result<(Seq<char>, Seq<u8>), AdsError> {
    if b.len() < len {
        Err(frame::short_frame(len, b.len()))
    } else if b.len() == len {
        Err(frame::short_frame(1, 0))
    } else {
        Ok((text::lossy(b.take(len as int)), b.skip(len as int + 1)))
    }
}

/// The symbol entry at the front of `b`, or the first thing that is missing.
pub open spec fn parse_symbol(b: Seq<u8>) -> Result<SymbolView, AdsError> {
    match head_gap(b.len()) {
        Some(e) => Err(e),
        None => {
            let h = head_of(b);
            match parse_string(b.skip(30), h.name_len) {
                Err(e) => Err(e),
                Ok((name, b)) => match parse_string(b, h.type_len) {
                    Err(e) => Err(e),
                    Ok((plc_type, b)) => match parse_string(b, h.comment_len) {
                        Err(e) => Err(e),
                        Ok((comment, _)) => Ok(
                            SymbolView {
                                index_group: h.index_group,
                                index_offset: h.index_offset,
                                size: h.size,
                                data_type: AdsType::of_id(h.data_type as u32),
                                flags: h.flags,
                                name,
                                plc_type,
                                comment,
                            },
                        ),
                    },
                },
            }
        },
    }
}

proof fn lemma_skip_take(b: Seq<u8>, i: int, n: int)
    requires
        0 <= i,
        0 <= n,
        i + n <= b.len(),
    ensures
        b.skip(i).take(n) == b.subrange(i, i + n),
        b.skip(i).skip(n) == b.skip(i + n),
{
    assert(b.skip(i).take(n) =~= b.subrange(i, i + n));
    assert(b.skip(i).skip(n) =~= b.skip(i + n));
}

fn word<'a>(r: &mut Reader<'a>, Ghost(b): Ghost<Seq<u8>>, Ghost(i): Ghost<int>) -> (res: Result<
    u32,
    AdsError,
>)
    requires
        old(r)@ == b.skip(i),
        0 <= i <= b.len(),
        i < 24,
        i % 4 == 0,
    ensures
        match res {
            Ok(v) => i + 4 <= b.len() && v == crate::bytes::le_value(b.subrange(i, i + 4))
                && final(r)@ == b.skip(i + 4),
            Err(e) => b.len() < i + 4 && head_gap(b.len()) == Some(e),
        },
{
    proof {
        if i + 4 <= b.len() {
            lemma_skip_take(b, i, 4);
        }
    }
    r.u32()
}

fn half<'a>(r: &mut Reader<'a>, Ghost(b): Ghost<Seq<u8>>, Ghost(i): Ghost<int>) -> (res: Result<
    u16,
    AdsError,
>)
    requires
        old(r)@ == b.skip(i),
        24 <= i <= b.len(),
        i < 30,
        i % 2 == 0,
    ensures
        match res {
            Ok(v) => i + 2 <= b.len() && v == crate::bytes::le_value(b.subrange(i, i + 2))
                && final(r)@ == b.skip(i + 2),
            Err(e) => b.len() < i + 2 && head_gap(b.len()) == Some(e),
        },
{
    proof {
        if i + 2 <= b.len() {
            lemma_skip_take(b, i, 2);
        }
    }
    r.u16()
}

/// A text of `len` bytes and the terminator behind it. The announced length
/// decides, not the first zero byte: a comment may hold one.
fn read_string<'a>(r: &mut Reader<'a>, len: usize) -> (res: Result<String, AdsError>)
    ensures
        match res {
            Ok(s) => parse_string(old(r)@, len as nat) == Ok::<(Seq<char>, Seq<u8>), AdsError>(
                (s@, final(r)@),
            ),
            Err(e) => parse_string(old(r)@, len as nat) == Err::<(Seq<char>, Seq<u8>), AdsError>(e),
        },
{
    let ghost b = r@;
    let raw = match r.bytes(len) {
        Ok(v) => v,
        Err(e) => return Err(e),
    };
    let s = text::from_utf8_lossy(raw);
    match r.skip(1) {
        Ok(_) => {
            proof {
                assert(b.skip(len as int).skip(1) =~= b.skip(len + 1));
            }
            Ok(s)
        },
        Err(e) => Err(e),
    }
}

/// Decodes the symbol entry at the start of `buf`.
pub fn decode_symbol_entry(buf: &[u8]) -> (r: Result<SymbolEntry, AdsError>)
    ensures
        match r {
            Ok(s) => parse_symbol(buf@) == Ok::<SymbolView, AdsError>(s@),
            Err(e) => parse_symbol(buf@) == Err::<SymbolView, AdsError>(e),
        },
{
    let ghost b = buf@;
    let mut r = Reader::new(buf);
    proof {
        assert(b.skip(0) =~= b);
    }
    let _ = match word(&mut r, Ghost(b), Ghost(0)) {
        Ok(v) => v,
        Err(e) => return Err(e),
    };
    let index_group = match word(&mut r, Ghost(b), Ghost(4)) {
        Ok(v) => v,
        Err(e) => return Err(e),
    };
    let index_offset = match word(&mut r, Ghost(b), Ghost(8)) {
        Ok(v) => v,
        Err(e) => return Err(e),
    };
    let size = match word(&mut r, Ghost(b), Ghost(12)) {
        Ok(v) => v,
        Err(e) => return Err(e),
    };
    let data_type = match word(&mut r, Ghost(b), Ghost(16)) {
        Ok(v) => v,
        Err(e) => return Err(e),
    };
    let flags = match word(&mut r, Ghost(b), Ghost(20)) {
        Ok(v) => v,
        Err(e) => return Err(e),
    };
    let name_len = match half(&mut r, Ghost(b), Ghost(24)) {
        Ok(v) => v,
        Err(e) => return Err(e),
    };
    let type_len = match half(&mut r, Ghost(b), Ghost(26)) {
        Ok(v) => v,
        Err(e) => return Err(e),
    };
    let comment_len = match half(&mut r, Ghost(b), Ghost(28)) {
        Ok(v) => v,
        Err(e) => return Err(e),
    };
    let name = match read_string(&mut r, name_len as usize) {
        Ok(s) => s,
        Err(e) => return Err(e),
    };
    let plc_type = match read_string(&mut r, type_len as usize) {
        Ok(s) => s,
        Err(e) => return Err(e),
    };
    let comment = match read_string(&mut r, comment_len as usize) {
        Ok(s) => s,
        Err(e) => return Err(e),
    };
    Ok(
        SymbolEntry {
            index_group,
            index_offset,
            size,
            data_type: AdsType::from_u32(data_type),
            flags,
            name,
            plc_type,
            comment,
        },
    )
}

/// A symbol entry reads back: its address, size, type and flags from the head,
/// then the three texts, each with a zero behind it.
pub proof fn law_symbol_entry_reads_back(
    length: u32,
    index_group: u32,
    index_offset: u32,
    size: u32,
    type_id: u32,
    flags: u32,
    name: Seq<u8>,
    plc_type: Seq<u8>,
    comment: Seq<u8>,
    rest: Seq<u8>,
)
    requires
        name.len() < 0x1_0000 && plc_type.len() < 0x1_0000 && comment.len() < 0x1_0000,
    ensures
        parse_symbol(
            crate::bytes::le(length as nat, 4) + crate::bytes::le(index_group as nat, 4)
                + crate::bytes::le(index_offset as nat, 4) + crate::bytes::le(size as nat, 4)
                + crate::bytes::le(type_id as nat, 4) + crate::bytes::le(flags as nat, 4)
                + crate::bytes::le(name.len(), 2) + crate::bytes::le(plc_type.len(), 2)
                + crate::bytes::le(comment.len(), 2) + (name + seq![0u8] + (plc_type + seq![0u8] + (
            comment + seq![0u8] + rest))),
        ) == Ok::<SymbolView, AdsError>(
            SymbolView {
                index_group: index_group as nat,
                index_offset: index_offset as nat,
                size: size as nat,
                data_type: AdsType::of_id(type_id),
                flags: flags as nat,
                name: text::lossy(name),
                plc_type: text::lossy(plc_type),
                comment: text::lossy(comment),
            },
        ),
{
    crate::bytes::lemma_pow256_values();
    crate::bytes::lemma_le_roundtrip(length as nat, 4);
    crate::bytes::lemma_le_roundtrip(index_group as nat, 4);
    crate::bytes::lemma_le_roundtrip(index_offset as nat, 4);
    crate::bytes::lemma_le_roundtrip(size as nat, 4);
    crate::bytes::lemma_le_roundtrip(type_id as nat, 4);
    crate::bytes::lemma_le_roundtrip(flags as nat, 4);
    crate::bytes::lemma_le_roundtrip(name.len(), 2);
    crate::bytes::lemma_le_roundtrip(plc_type.len(), 2);
    crate::bytes::lemma_le_roundtrip(comment.len(), 2);
    let t3 = comment + seq![0u8] + rest;
    let t2 = plc_type + seq![0u8] + t3;
    let t1 = name + seq![0u8] + t2;
    let b = crate::bytes::le(length as nat, 4) + crate::bytes::le(index_group as nat, 4)
        + crate::bytes::le(index_offset as nat, 4) + crate::bytes::le(size as nat, 4)
        + crate::bytes::le(type_id as nat, 4) + crate::bytes::le(flags as nat, 4)
        + crate::bytes::le(name.len(), 2) + crate::bytes::le(plc_type.len(), 2) + crate::bytes::le(
        comment.len(),
        2,
    ) + t1;
    assert(b.subrange(4, 8) =~= crate::bytes::le(index_group as nat, 4));
    assert(b.subrange(8, 12) =~= crate::bytes::le(index_offset as nat, 4));
    assert(b.subrange(12, 16) =~= crate::bytes::le(size as nat, 4));
    assert(b.subrange(16, 20) =~= crate::bytes::le(type_id as nat, 4));
    assert(b.subrange(20, 24) =~= crate::bytes::le(flags as nat, 4));
    assert(b.subrange(24, 26) =~= crate::bytes::le(name.len(), 2));
    assert(b.subrange(26, 28) =~= crate::bytes::le(plc_type.len(), 2));
    assert(b.subrange(28, 30) =~= crate::bytes::le(comment.len(), 2));
    assert(b.skip(30) =~= t1);
    assert(t1.take(name.len() as int) =~= name);
    assert(t1.skip(name.len() as int + 1) =~= t2);
    assert(t2.take(plc_type.len() as int) =~= plc_type);
    assert(t2.skip(plc_type.len() as int + 1) =~= t3);
    assert(t3.take(comment.len() as int) =~= comment);
}

} // verus!
