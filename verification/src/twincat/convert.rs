//! Conversions between PLC types and parameter types. The pairing is narrow: a
//! combination that the table does not list is rejected, never coerced.

use super::ads::defs::AdsType;
use crate::bytes;
use crate::ieee;
use crate::param::{ParamType, ParamValue, ValueView};
use crate::text;
use vstd::arithmetic::div_mod::{
    lemma_basic_div, lemma_div_minus_one, lemma_fundamental_div_mod,
    lemma_fundamental_div_mod_converse, lemma_mod_mod, lemma_small_mod,
};
use vstd::prelude::*;
use vstd::string::*;

verus! {

/// Why a value could not be converted.
#[derive(Debug, Clone, PartialEq, Eq)]
pub enum ConvertError {
    /// The table has no entry for the two types.
    Unsupported { plc: AdsType, asyn: ParamType },
    /// The PLC returned fewer bytes than the type needs.
    ShortData { plc: AdsType, need: usize, got: usize },
}

/// The message of a conversion error.
pub open spec fn convert_error_text(e: ConvertError) -> Seq<char> {
    match e {
        ConvertError::Unsupported { plc, asyn } => "type combination not supported: PLC type = "@
            + plc.name() + ", asyn type = "@ + asyn.name(),
        ConvertError::ShortData { plc, need, got } => plc.name() + " needs "@ + text::decimal(
            need as nat,
        ) + " bytes, PLC returned "@ + text::decimal(got as nat),
    }
}

impl ConvertError {
    /// The message that describes the error.
    pub fn message(&self) -> (r: String)
        ensures
            r@ == convert_error_text(*self),
    {
        match self {
            ConvertError::Unsupported { plc, asyn } => {
                let mut out = "type combination not supported: PLC type = ".to_owned();
                out.append(plc.as_str());
                out.append(", asyn type = ");
                out.append(asyn.as_str());
                out
            },
            ConvertError::ShortData { plc, need, got } => {
                let mut out = plc.as_str().to_owned();
                out.append(" needs ");
                text::push_decimal(&mut out, *need as u64);
                out.append(" bytes, PLC returned ");
                text::push_decimal(&mut out, *got as u64);
                out
            },
        }
    }
}

/// The parameter type that holds a PLC type with no coercion.
pub open spec fn natural(plc: AdsType, is_array: bool) -> Option<ParamType> {
    match plc {
        AdsType::String => Some(ParamType::Octet),
        AdsType::Bit | AdsType::Int8 => if is_array {
            Some(ParamType::Int8Array)
        } else {
            Some(ParamType::Int32)
        },
        AdsType::Int16 | AdsType::UInt8 => if is_array {
            Some(ParamType::Int16Array)
        } else {
            Some(ParamType::Int32)
        },
        AdsType::Int32 | AdsType::UInt16 => if is_array {
            Some(ParamType::Int32Array)
        } else {
            Some(ParamType::Int32)
        },
        AdsType::UInt32 => if is_array {
            Some(ParamType::Int64Array)
        } else {
            Some(ParamType::Int64)
        },
        AdsType::Int64 | AdsType::UInt64 => if is_array {
            None
        } else {
            Some(ParamType::Int64)
        },
        AdsType::Real32 => if is_array {
            Some(ParamType::Float32Array)
        } else {
            Some(ParamType::Float64)
        },
        AdsType::Real64 => if is_array {
            Some(ParamType::Float64Array)
        } else {
            Some(ParamType::Float64)
        },
        _ => None,
    }
}

/// The parameter type that matches a PLC type with no coercion, for a bind
/// that does not pin the type. Arrays take the array flavour of their element
/// type; an unsigned element takes the next signed one that can hold it.
pub fn natural_param_type(plc: AdsType, is_array: bool) -> (r: Option<ParamType>)
    ensures
        r == natural(plc, is_array),
{
    Some(
        match (plc, is_array) {
            (AdsType::String, _) => ParamType::Octet,
            (AdsType::Bit | AdsType::Int8, false) => ParamType::Int32,
            (AdsType::Bit | AdsType::Int8, true) => ParamType::Int8Array,
            (AdsType::Int16, false) => ParamType::Int32,
            (AdsType::Int16, true) => ParamType::Int16Array,
            (AdsType::Int32, false) => ParamType::Int32,
            (AdsType::Int32, true) => ParamType::Int32Array,
            (AdsType::Int64, false) => ParamType::Int64,
            (AdsType::UInt8, false) => ParamType::Int32,
            (AdsType::UInt8, true) => ParamType::Int16Array,
            (AdsType::UInt16, false) => ParamType::Int32,
            (AdsType::UInt16, true) => ParamType::Int32Array,
            (AdsType::UInt32, false) => ParamType::Int64,
            (AdsType::UInt32, true) => ParamType::Int64Array,
            (AdsType::UInt64, false) => ParamType::Int64,
            (AdsType::Real32, false) => ParamType::Float64,
            (AdsType::Real32, true) => ParamType::Float32Array,
            (AdsType::Real64, false) => ParamType::Float64,
            (AdsType::Real64, true) => ParamType::Float64Array,
            _ => return None,
        },
    )
}

/// The two's complement number of `2 * half` values with the bit pattern `w`.
pub open spec fn signed(w: nat, half: nat) -> int {
    if w >= half {
        w - 2 * half
    } else {
        w as int
    }
}

/// `v` brought into the range of a signed number of `2 * half` values, by
/// keeping its low bits.
pub open spec fn wrapped(v: int, half: nat) -> int {
    signed((v % (2 * half as int)) as nat, half)
}

/// A scalar as the PLC holds it.
pub enum Scalar {
    Int(i128),
    /// The bits of a double.
    Float(u64),
}

/// The byte width of a PLC type that can be a scalar.
pub open spec fn scalar_bytes(plc: AdsType) -> Option<nat> {
    match plc {
        AdsType::Int8 | AdsType::UInt8 | AdsType::Bit => Some(1),
        AdsType::Int16 | AdsType::UInt16 => Some(2),
        AdsType::Int32 | AdsType::UInt32 | AdsType::Real32 => Some(4),
        AdsType::Int64 | AdsType::UInt64 | AdsType::Real64 => Some(8),
        _ => None,
    }
}

/// Whether a PLC scalar is a signed integer. A bit is one, eight bits wide.
pub open spec fn is_signed(plc: AdsType) -> bool {
    plc is Int8 || plc is Bit || plc is Int16 || plc is Int32 || plc is Int64
}

/// Half the number of values of `n` bytes.
pub open spec fn half_range(n: nat) -> nat {
    bytes::pow256(n) / 2
}

/// The integer in the bytes `d` of a scalar of the type `plc`.
pub open spec fn scalar_int(plc: AdsType, d: Seq<u8>) -> int {
    if is_signed(plc) {
        signed(bytes::le_value(d), half_range(d.len()))
    } else {
        bytes::le_value(d) as int
    }
}

/// The bits of the double in the bytes `d` of a scalar of the type `plc`.
pub open spec fn scalar_float(plc: AdsType, d: Seq<u8>) -> nat {
    if plc is Real32 {
        ieee::widened(bytes::le_value(d) as u32)
    } else {
        bytes::le_value(d)
    }
}

/// The byte width of a PLC type that can appear as a scalar, or `None` for one
/// that cannot.
fn scalar_width(plc: AdsType) -> (r: Option<usize>)
    ensures
        match r {
            Some(n) => scalar_bytes(plc) == Some(n as nat),
            None => scalar_bytes(plc) is None,
        },
{
    match plc {
        AdsType::String
        | AdsType::WString
        | AdsType::BigType
        | AdsType::Void
        | AdsType::Real80 => None,
        other => match other.element_size() {
            Some(n) => if n > 0 {
                Some(n)
            } else {
                None
            },
            None => None,
        },
    }
}

/// The signed number with the bit pattern `w`.
fn to_signed(w: u64, half: u64) -> (r: i128)
    ensures
        r == signed(w as nat, half as nat),
{
    if w >= half {
        w as i128 - 2 * half as i128
    } else {
        w as i128
    }
}

/// The low 64 bits of `v`.
pub fn low64(v: i128) -> (r: u64)
    ensures
        r == v as int % 0x1_0000_0000_0000_0000,
{
    if v >= 0 {
        (v as u128 % 0x1_0000_0000_0000_0000) as u64
    } else {
        let m: u128 = (-(v + 1)) as u128;
        u64::MAX - (m % 0x1_0000_0000_0000_0000) as u64
    }
}

/// The little-endian number in the first `n` bytes.
fn word(d: &[u8], n: usize) -> (r: u64)
    requires
        n == 1 || n == 2 || n == 4 || n == 8,
        n <= d@.len(),
    ensures
        r == bytes::le_value(d@.take(n as int)),
        r < bytes::pow256(n as nat),
{
    proof {
        bytes::lemma_le_value_bound(d@.take(n as int));
        assert(d@.take(n as int) =~= d@.subrange(0, n as int));
    }
    if n == 1 {
        proof {
            reveal_with_fuel(bytes::le_value, 2);
        }
        d[0] as u64
    } else if n == 2 {
        bytes::le16_at(d, 0) as u64
    } else if n == 4 {
        bytes::le32_at(d, 0) as u64
    } else {
        bytes::le64_at(d, 0)
    }
}

/// The scalar in the first bytes of `data`.
fn read_scalar(plc: AdsType, data: &[u8], need: usize) -> (r: Result<Scalar, ConvertError>)
    requires
        scalar_bytes(plc) == Some(need as nat),
    ensures
        match r {
            Ok(Scalar::Int(v)) => need <= data@.len() && !(plc is Real32 || plc is Real64) && v
                == scalar_int(plc, data@.take(need as int)),
            Ok(Scalar::Float(v)) => need <= data@.len() && (plc is Real32 || plc is Real64) && v
                == scalar_float(plc, data@.take(need as int)),
            Err(e) => need > data@.len() && e == (ConvertError::ShortData {
                plc,
                need,
                got: data@.len() as usize,
            }),
        },
{
    if data.len() < need {
        return Err(ConvertError::ShortData { plc, need, got: data.len() });
    }
    let w: u64 = word(data, need);
    proof {
        bytes::lemma_pow256_values();
    }
    Ok(
        match plc {
            AdsType::Int8 | AdsType::Bit => Scalar::Int(to_signed(w, 0x80)),
            AdsType::Int16 => Scalar::Int(to_signed(w, 0x8000)),
            AdsType::Int32 => Scalar::Int(to_signed(w, 0x8000_0000)),
            AdsType::Int64 => Scalar::Int(to_signed(w, 0x8000_0000_0000_0000)),
            AdsType::Real32 => Scalar::Float(ieee::widen(w as u32)),
            AdsType::Real64 => Scalar::Float(w),
            _ => Scalar::Int(w as i128),
        },
    )
}

/// The integer in the bytes of a scalar that 64 bits hold with their sign.
pub fn small_int(plc: AdsType, d: &[u8]) -> (r: i64)
    requires
        scalar_bytes(plc) == Some(d@.len()),
        !(plc is UInt64 || plc is Real32 || plc is Real64),
    ensures
        r == scalar_int(plc, d@),
{
    let w: u64 = word(d, d.len());
    proof {
        bytes::lemma_pow256_values();
        assert(d@.take(d@.len() as int) =~= d@);
    }
    match plc {
        AdsType::Int8 | AdsType::Bit => to_signed(w, 0x80) as i64,
        AdsType::Int16 => to_signed(w, 0x8000) as i64,
        AdsType::Int32 => to_signed(w, 0x8000_0000) as i64,
        AdsType::Int64 => to_signed(w, 0x8000_0000_0000_0000) as i64,
        _ => w as i64,
    }
}

/// The parameter value that the bytes of a PLC scalar give.
pub open spec fn decoded_scalar(plc: AdsType, data: Seq<u8>, target: ParamType) -> Result<
    ValueView,
    ConvertError,
> {
    if !(target is Int32 || target is Int64 || target is Float64) || scalar_bytes(plc) is None {
        Err(ConvertError::Unsupported { plc, asyn: target })
    } else if data.len() < scalar_bytes(plc)->0 {
        Err(
            ConvertError::ShortData {
                plc,
                need: scalar_bytes(plc)->0 as usize,
                got: data.len() as usize,
            },
        )
    } else {
        let d = data.take(scalar_bytes(plc)->0 as int);
        if plc is Real32 || plc is Real64 {
            let f = scalar_float(plc, d) as u64;
            Ok(
                match target {
                    ParamType::Int32 => ValueView::Int32(
                        ieee::to_int64(f, i32::MIN as int, i32::MAX as int) as i32,
                    ),
                    ParamType::Int64 => ValueView::Int64(
                        ieee::to_int64(f, i64::MIN as int, i64::MAX as int) as i64,
                    ),
                    _ => ValueView::Float64(f),
                },
            )
        } else {
            let v = scalar_int(plc, d);
            Ok(
                match target {
                    ParamType::Int32 => ValueView::Int32(wrapped(v, 0x8000_0000) as i32),
                    ParamType::Int64 => ValueView::Int64(wrapped(v, 0x8000_0000_0000_0000) as i64),
                    _ => ValueView::Float64(ieee::double_of_int(v) as u64),
                },
            )
        }
    }
}

/// The view of a conversion's outcome.
pub open spec fn outcome(r: Result<ParamValue, ConvertError>) -> Result<ValueView, ConvertError> {
    match r {
        Ok(v) => Ok(v@),
        Err(e) => Err(e),
    }
}

/// `v` as a 32-bit number, by keeping its low bits.
fn wrap32(v: i128) -> (r: i32)
    ensures
        r == wrapped(v as int, 0x8000_0000),
{
    let w: u64 = low64(v) % 0x1_0000_0000;
    proof {
        lemma_mod_mod(v as int, 0x1_0000_0000, 0x1_0000_0000);
    }
    to_signed(w, 0x8000_0000) as i32
}

/// `v` as a 64-bit number, by keeping its low bits.
fn wrap64(v: i128) -> (r: i64)
    ensures
        r == wrapped(v as int, 0x8000_0000_0000_0000),
{
    to_signed(low64(v), 0x8000_0000_0000_0000) as i64
}

/// PLC bytes to a scalar of the bound record's type.
pub fn decode_scalar(plc: AdsType, data: &[u8], target: ParamType) -> (r: Result<
    ParamValue,
    ConvertError,
>)
    ensures
        outcome(r) == decoded_scalar(plc, data@, target),
{
    match target {
        ParamType::Int32 | ParamType::Int64 | ParamType::Float64 => {},
        _ => {
            return Err(ConvertError::Unsupported { plc, asyn: target });
        },
    }
    let width = match scalar_width(plc) {
        Some(n) => n,
        None => {
            return Err(ConvertError::Unsupported { plc, asyn: target });
        },
    };
    let scalar = match read_scalar(plc, data, width) {
        Ok(s) => s,
        Err(e) => {
            return Err(e);
        },
    };
    proof {
        bytes::lemma_pow256_values();
        bytes::lemma_le_value_bound(data@.take(width as int));
    }
    match scalar {
        Scalar::Int(v) => {
            match target {
                ParamType::Int32 => Ok(ParamValue::Int32(wrap32(v))),
                ParamType::Int64 => Ok(ParamValue::Int64(wrap64(v))),
                _ => Ok(ParamValue::Float64(ieee::from_signed(v))),
            }
        },
        Scalar::Float(f) => {
            match target {
                ParamType::Int32 => Ok(
                    ParamValue::Int32(ieee::to_int(f, i32::MIN as i64, i32::MAX as i64) as i32),
                ),
                ParamType::Int64 => Ok(ParamValue::Int64(ieee::to_int(f, i64::MIN, i64::MAX))),
                _ => Ok(ParamValue::Float64(f)),
            }
        },
    }
}

/// The little-endian words of `w` bytes each that make up `data`. What is left
/// over at the end is no word.
pub open spec fn words(data: Seq<u8>, w: nat) -> Seq<nat>
    decreases data.len(),
{
    if w == 0 || data.len() < w {
        Seq::empty()
    } else {
        seq![bytes::le_value(data.take(w as int))] + words(data.skip(w as int), w)
    }
}

/// An array holds one element for each word of the data, not for each byte.
pub proof fn law_arrays_are_counted_in_elements(data: Seq<u8>, w: nat)
    requires
        w > 0,
    ensures
        words(data, w).len() == data.len() / w,
        forall|i: int|
            0 <= i < words(data, w).len() ==> #[trigger] words(data, w)[i] == bytes::le_value(
                data.subrange(i * w, i * w + w),
            ),
    decreases data.len(),
{
    if data.len() < w {
        lemma_basic_div(data.len() as int, w as int);
    } else {
        let t = data.skip(w as int);
        law_arrays_are_counted_in_elements(t, w);
        lemma_div_minus_one(data.len() as int, w as int);
        assert forall|i: int| 0 <= i < words(data, w).len() implies #[trigger] words(data, w)[i]
            == bytes::le_value(data.subrange(i * w, i * w + w)) by {
            let ws = words(t, w);
            if i == 0 {
                assert(i * w == 0) by (nonlinear_arith)
                    requires
                        i == 0,
                ;
                assert(data.take(w as int) =~= data.subrange(i * w, i * w + w));
            } else {
                assert(words(data, w)[i] == ws[i - 1]);
                assert((i - 1) * w + w == i * w) by (nonlinear_arith);
                assert(i * w + w <= data.len()) by {
                    lemma_fundamental_div_mod(data.len() as int, w as int);
                    let q = data.len() as int / w as int;
                    assert((i + 1) * w <= q * w) by (nonlinear_arith)
                        requires
                            i + 1 <= q,
                            w > 0,
                    ;
                    assert((i + 1) * w == i * w + w) by (nonlinear_arith);
                    assert(q * w == w * q) by (nonlinear_arith);
                }
                assert((i - 1) * w >= 0) by (nonlinear_arith)
                    requires
                        i >= 1,
                ;
                assert(t.subrange((i - 1) * w, (i - 1) * w + w) =~= data.subrange(
                    i * w,
                    i * w + w,
                ));
            }
        }
    }
}

proof fn lemma_words_bound(data: Seq<u8>, w: nat)
    ensures
        forall|i: int|
            0 <= i < words(data, w).len() ==> #[trigger] words(data, w)[i] < bytes::pow256(w),
    decreases data.len(),
{
    if w > 0 && data.len() >= w {
        bytes::lemma_le_value_bound(data.take(w as int));
        lemma_words_bound(data.skip(w as int), w);
        let rest = words(data.skip(w as int), w);
        assert forall|i: int| 0 <= i < words(data, w).len() implies #[trigger] words(data, w)[i]
            < bytes::pow256(w) by {
            if i > 0 {
                assert(words(data, w)[i] == rest[i - 1]);
            }
        }
    }
}

fn read_words(data: &[u8], w: usize) -> (r: Vec<u64>)
    requires
        w == 1 || w == 2 || w == 4 || w == 8,
    ensures
        r@.len() == words(data@, w as nat).len(),
        forall|i: int| 0 <= i < r@.len() ==> #[trigger] r@[i] == words(data@, w as nat)[i],
{
    let mut out: Vec<u64> = Vec::new();
    let mut at: usize = 0;
    let ghost mut done: Seq<nat> = Seq::empty();
    assert(data@.len() == data.len());
    proof {
        assert(data@.skip(0) =~= data@);
        assert(done + words(data@, w as nat) =~= words(data@, w as nat));
    }
    while data.len() - at >= w
        invariant
            at <= data@.len(),
            data@.len() == data.len(),
            w == 1 || w == 2 || w == 4 || w == 8,
            out@.len() == done.len(),
            forall|i: int| 0 <= i < done.len() ==> #[trigger] out@[i] == done[i],
            done + words(data@.skip(at as int), w as nat) == words(data@, w as nat),
        decreases data@.len() - at,
    {
        let rest = vstd::slice::slice_subrange(data, at, data.len());
        let v: u64 = word(rest, w);
        out.push(v);
        proof {
            let tail = data@.skip(at as int);
            assert(rest@ =~= tail);
            assert(tail.skip(w as int) =~= data@.skip(at + w));
            let before = done;
            done = done.push(v as nat);
            assert(done + words(data@.skip(at + w), w as nat) =~= before + words(tail, w as nat));
        }
        at = at + w;
    }
    proof {
        assert(done + words(data@.skip(at as int), w as nat) =~= done);
    }
    out
}

/// The two's complement numbers of `2 * half` values with the bit patterns `ws`.
pub open spec fn signed_words(ws: Seq<nat>, half: nat) -> Seq<int> {
    ws.map_values(|w: nat| signed(w, half))
}

/// The text of a PLC string: it ends at the first zero byte.
pub open spec fn plc_string(data: Seq<u8>) -> Seq<char> {
    text::lossy(data.take(bytes::before_zero(data) as int))
}

/// The parameter value that the bytes of a PLC array give.
pub open spec fn decoded_array(plc: AdsType, data: Seq<u8>, target: ParamType) -> Result<
    ValueView,
    ConvertError,
> {
    match (plc, target) {
        (AdsType::String, ParamType::Octet) => Ok(ValueView::Octet(plc_string(data))),
        (AdsType::String | AdsType::Int8 | AdsType::Bit, ParamType::Int8Array) => Ok(
            ValueView::Int8Array(signed_words(words(data, 1), 0x80).map_values(|v: int| v as i8)),
        ),
        (AdsType::Int16, ParamType::Int16Array) => Ok(
            ValueView::Int16Array(
                signed_words(words(data, 2), 0x8000).map_values(|v: int| v as i16),
            ),
        ),
        (AdsType::Int32, ParamType::Int32Array) => Ok(
            ValueView::Int32Array(
                signed_words(words(data, 4), 0x8000_0000).map_values(|v: int| v as i32),
            ),
        ),
        (AdsType::Real32, ParamType::Float32Array) => Ok(
            ValueView::Float32Array(words(data, 4).map_values(|v: nat| v as u32)),
        ),
        (AdsType::Real64, ParamType::Float64Array) => Ok(
            ValueView::Float64Array(words(data, 8).map_values(|v: nat| v as u64)),
        ),
        _ => Err(ConvertError::Unsupported { plc, asyn: target }),
    }
}

fn read_i8s(data: &[u8]) -> (r: Vec<i8>)
    ensures
        r@ == signed_words(words(data@, 1), 0x80).map_values(|v: int| v as i8),
{
    let ws = read_words(data, 1);
    let mut out: Vec<i8> = Vec::new();
    let mut i: usize = 0;
    proof {
        lemma_words_bound(data@, 1);
        bytes::lemma_pow256_values();
    }
    while i < ws.len()
        invariant
            i <= ws@.len(),
            out@.len() == i,
            ws@.len() == words(data@, 1).len(),
            forall|k: int| 0 <= k < ws@.len() ==> #[trigger] ws@[k] == words(data@, 1)[k],
            forall|k: int| 0 <= k < ws@.len() ==> #[trigger] words(data@, 1)[k] < 0x100,
            forall|k: int|
                0 <= k < i ==> #[trigger] out@[k] == signed(words(data@, 1)[k], 0x80) as i8,
        decreases ws@.len() - i,
    {
        out.push(to_signed(ws[i], 0x80) as i8);
        i = i + 1;
    }
    proof {
        assert(out@ =~= signed_words(words(data@, 1), 0x80).map_values(|v: int| v as i8));
    }
    out
}

fn read_i16s(data: &[u8]) -> (r: Vec<i16>)
    ensures
        r@ == signed_words(words(data@, 2), 0x8000).map_values(|v: int| v as i16),
{
    let ws = read_words(data, 2);
    let mut out: Vec<i16> = Vec::new();
    let mut i: usize = 0;
    proof {
        lemma_words_bound(data@, 2);
        bytes::lemma_pow256_values();
    }
    while i < ws.len()
        invariant
            i <= ws@.len(),
            out@.len() == i,
            ws@.len() == words(data@, 2).len(),
            forall|k: int| 0 <= k < ws@.len() ==> #[trigger] ws@[k] == words(data@, 2)[k],
            forall|k: int| 0 <= k < ws@.len() ==> #[trigger] words(data@, 2)[k] < 0x1_0000,
            forall|k: int|
                0 <= k < i ==> #[trigger] out@[k] == signed(words(data@, 2)[k], 0x8000) as i16,
        decreases ws@.len() - i,
    {
        out.push(to_signed(ws[i], 0x8000) as i16);
        i = i + 1;
    }
    proof {
        assert(out@ =~= signed_words(words(data@, 2), 0x8000).map_values(|v: int| v as i16));
    }
    out
}

fn read_u32s(data: &[u8]) -> (r: Vec<u32>)
    ensures
        r@ == words(data@, 4).map_values(|v: nat| v as u32),
        forall|k: int| 0 <= k < r@.len() ==> #[trigger] r@[k] == words(data@, 4)[k],
{
    let ws = read_words(data, 4);
    let mut out: Vec<u32> = Vec::new();
    let mut i: usize = 0;
    proof {
        lemma_words_bound(data@, 4);
        bytes::lemma_pow256_values();
    }
    while i < ws.len()
        invariant
            i <= ws@.len(),
            out@.len() == i,
            ws@.len() == words(data@, 4).len(),
            forall|k: int| 0 <= k < ws@.len() ==> #[trigger] ws@[k] == words(data@, 4)[k],
            forall|k: int| 0 <= k < ws@.len() ==> #[trigger] words(data@, 4)[k] < 0x1_0000_0000,
            forall|k: int| 0 <= k < i ==> #[trigger] out@[k] == words(data@, 4)[k],
        decreases ws@.len() - i,
    {
        out.push(ws[i] as u32);
        i = i + 1;
    }
    proof {
        assert(out@ =~= words(data@, 4).map_values(|v: nat| v as u32));
    }
    out
}

fn read_i32s(data: &[u8]) -> (r: Vec<i32>)
    ensures
        r@ == signed_words(words(data@, 4), 0x8000_0000).map_values(|v: int| v as i32),
{
    let ws = read_u32s(data);
    let mut out: Vec<i32> = Vec::new();
    let mut i: usize = 0;
    while i < ws.len()
        invariant
            i <= ws@.len(),
            out@.len() == i,
            ws@.len() == words(data@, 4).len(),
            forall|k: int| 0 <= k < ws@.len() ==> #[trigger] ws@[k] == words(data@, 4)[k],
            forall|k: int|
                0 <= k < i ==> #[trigger] out@[k] == signed(words(data@, 4)[k], 0x8000_0000) as i32,
        decreases ws@.len() - i,
    {
        out.push(to_signed(ws[i] as u64, 0x8000_0000) as i32);
        i = i + 1;
    }
    proof {
        assert(out@ =~= signed_words(words(data@, 4), 0x8000_0000).map_values(|v: int| v as i32));
    }
    out
}

/// The text of a PLC string. The string fills a slot of fixed size and ends at
/// the first zero byte; what stands behind that is stale.
pub fn decode_plc_string(data: &[u8]) -> (r: String)
    ensures
        r@ == plc_string(data@),
{
    let n: usize = bytes::count_before_zero(data, 0);
    proof {
        assert(data@.skip(0) =~= data@);
        bytes::lemma_before_zero(data@);
    }
    let head = vstd::slice::slice_subrange(data, 0, n);
    proof {
        assert(head@ =~= data@.take(n as int));
    }
    text::from_utf8_lossy(head)
}

/// PLC bytes to an array. A PLC string is an array of bytes, which a record
/// binds either as such or as text.
pub fn decode_array(plc: AdsType, data: &[u8], target: ParamType) -> (r: Result<
    ParamValue,
    ConvertError,
>)
    ensures
        outcome(r) == decoded_array(plc, data@, target),
{
    match (plc, target) {
        (AdsType::String, ParamType::Octet) => Ok(ParamValue::Octet(decode_plc_string(data))),
        (AdsType::String | AdsType::Int8 | AdsType::Bit, ParamType::Int8Array) => Ok(
            ParamValue::Int8Array(read_i8s(data)),
        ),
        (AdsType::Int16, ParamType::Int16Array) => Ok(ParamValue::Int16Array(read_i16s(data))),
        (AdsType::Int32, ParamType::Int32Array) => Ok(ParamValue::Int32Array(read_i32s(data))),
        (AdsType::Real32, ParamType::Float32Array) => Ok(
            ParamValue::Float32Array(read_u32s(data)),
        ),
        (AdsType::Real64, ParamType::Float64Array) => {
            let ws = read_words(data, 8);
            proof {
                lemma_words_bound(data@, 8);
                bytes::lemma_pow256_values();
                assert(ws@ =~= words(data@, 8).map_values(|v: nat| v as u64));
            }
            Ok(ParamValue::Float64Array(ws))
        },
        _ => Err(ConvertError::Unsupported { plc, asyn: target }),
    }
}

/// A scalar written by a record, before it is narrowed to the PLC's type.
#[derive(Debug, Clone, Copy, PartialEq, Eq, Structural)]
pub enum WriteValue {
    Int(i64),
    /// The bits of a double.
    Float(u64),
}

/// The written value as an integer.
pub open spec fn written_int(value: WriteValue) -> int {
    match value {
        WriteValue::Int(v) => v as int,
        WriteValue::Float(f) => ieee::to_int64(f, i128::MIN as int, i128::MAX as int),
    }
}

/// The bits of the written value as a double.
pub open spec fn written_float(value: WriteValue) -> nat {
    match value {
        WriteValue::Int(v) => ieee::double_of_int(v as int),
        WriteValue::Float(f) => f as nat,
    }
}

/// The bytes that write `value` to a PLC scalar. Integers keep their low bytes,
/// except that anything but zero sets a bit.
pub open spec fn encoded_scalar(plc: AdsType, value: WriteValue) -> Result<Seq<u8>, ConvertError> {
    match plc {
        AdsType::Bit => Ok(
            seq![
                if written_int(value) != 0 {
                    1u8
                } else {
                    0u8
                },
            ],
        ),
        AdsType::Real32 => Ok(bytes::le(ieee::narrowed(written_float(value) as u64), 4)),
        AdsType::Real64 => Ok(bytes::le(written_float(value), 8)),
        _ => match scalar_bytes(plc) {
            Some(n) => Ok(
                bytes::le((written_int(value) % 0x1_0000_0000_0000_0000) as nat, n),
            ),
            None => Err(
                ConvertError::Unsupported {
                    plc,
                    asyn: match value {
                        WriteValue::Int(_) => ParamType::Int32,
                        WriteValue::Float(_) => ParamType::Float64,
                    },
                },
            ),
        },
    }
}

/// A written scalar as PLC bytes, narrowed to the PLC variable's own type.
pub fn encode_scalar(plc: AdsType, value: WriteValue) -> (r: Result<Vec<u8>, ConvertError>)
    ensures
        match r {
            Ok(b) => encoded_scalar(plc, value) == Ok::<Seq<u8>, ConvertError>(b@),
            Err(e) => encoded_scalar(plc, value) == Err::<Seq<u8>, ConvertError>(e),
        },
{
    let whole: i128 = match value {
        WriteValue::Int(v) => v as i128,
        WriteValue::Float(f) => ieee::to_i128(f),
    };
    let double: u64 = match value {
        WriteValue::Int(v) => ieee::from_signed(v as i128),
        WriteValue::Float(f) => f,
    };
    let mut out: Vec<u8> = Vec::new();
    match plc {
        AdsType::Bit => {
            out.push(
                if whole != 0 {
                    1
                } else {
                    0
                },
            );
            assert(out@ =~= encoded_scalar(plc, value)->Ok_0);
        },
        AdsType::Real32 => {
            bytes::push_le(&mut out, ieee::narrow(double) as u64, 4);
            assert(out@ =~= encoded_scalar(plc, value)->Ok_0);
        },
        AdsType::Real64 => {
            bytes::push_le(&mut out, double, 8);
            assert(out@ =~= encoded_scalar(plc, value)->Ok_0);
        },
        _ => match scalar_width(plc) {
            Some(n) => {
                bytes::push_le(&mut out, low64(whole), n);
                assert(out@ =~= encoded_scalar(plc, value)->Ok_0);
            },
            None => {
                return Err(
                    ConvertError::Unsupported {
                        plc,
                        asyn: match value {
                            WriteValue::Int(_) => ParamType::Int32,
                            WriteValue::Float(_) => ParamType::Float64,
                        },
                    },
                );
            },
        },
    }
    Ok(out)
}

/// Whether an integer type of the PLC can hold `v`.
pub open spec fn holds(plc: AdsType, v: int) -> bool {
    match scalar_bytes(plc) {
        Some(n) => if is_signed(plc) {
            -half_range(n) <= v < half_range(n)
        } else {
            0 <= v < bytes::pow256(n)
        },
        None => false,
    }
}

/// An integer that the PLC variable can hold reads back as it was written.
pub proof fn law_integer_write_reads_back(plc: AdsType, v: i64)
    requires
        !(plc is Bit || plc is Real32 || plc is Real64),
        holds(plc, v as int),
    ensures
        decoded_scalar(
            plc,
            encoded_scalar(plc, WriteValue::Int(v))->Ok_0,
            ParamType::Int64,
        ) == Ok::<ValueView, ConvertError>(ValueView::Int64(v)),
{
    let n = scalar_bytes(plc)->0;
    let k = bytes::pow256(n);
    let x = (v as int % 0x1_0000_0000_0000_0000) as nat;
    let b = bytes::le(x, n);
    bytes::lemma_pow256_values();
    bytes::lemma_le_cuts_off(x, n);
    bytes::lemma_le_roundtrip(x % k, n);
    assert(b.take(n as int) =~= b);
    assert(x % k == v as int % k as int) by {
        if n == 1 {
            lemma_mod_mod(v as int, 0x100, 0x100_0000_0000_0000);
        } else if n == 2 {
            lemma_mod_mod(v as int, 0x1_0000, 0x1_0000_0000_0000);
        } else if n == 4 {
            lemma_mod_mod(v as int, 0x1_0000_0000, 0x1_0000_0000);
        } else {
            lemma_mod_mod(v as int, 0x1_0000_0000_0000_0000, 1);
        }
    }
    if v < 0 {
        assert(v as int % k as int == v + k) by {
            lemma_fundamental_div_mod_converse(v as int, k as int, -1, v + k);
        }
    } else {
        lemma_small_mod(v as nat, k);
    }
    assert(scalar_int(plc, b) == v);
    assert(wrapped(v as int, 0x8000_0000_0000_0000) == v);
}

/// A double reads back bit for bit as it was written.
pub proof fn law_double_write_reads_back(f: u64)
    ensures
        decoded_scalar(
            AdsType::Real64,
            encoded_scalar(AdsType::Real64, WriteValue::Float(f))->Ok_0,
            ParamType::Float64,
        ) == Ok::<ValueView, ConvertError>(ValueView::Float64(f)),
{
    bytes::lemma_pow256_values();
    bytes::lemma_le_roundtrip(f as nat, 8);
    let b = bytes::le(f as nat, 8);
    assert(b.take(8) =~= b);
}

/// A value that is true stays true when it is written to a bit, whatever its
/// low byte is.
pub proof fn law_bit_keeps_truth(value: WriteValue)
    ensures
        decoded_scalar(
            AdsType::Bit,
            encoded_scalar(AdsType::Bit, value)->Ok_0,
            ParamType::Int32,
        ) == Ok::<ValueView, ConvertError>(
            ValueView::Int32(
                if written_int(value) != 0 {
                    1
                } else {
                    0
                },
            ),
        ),
{
    let b = encoded_scalar(AdsType::Bit, value)->Ok_0;
    bytes::lemma_pow256_values();
    reveal_with_fuel(bytes::le_value, 2);
    assert(b.take(1) =~= b);
}

/// The bytes and the sign of the types of the PLC.
pub proof fn law_types_have_their_widths()
    ensures
        scalar_bytes(AdsType::Bit) == Some(1nat) && is_signed(AdsType::Bit),
        scalar_bytes(AdsType::Int8) == Some(1nat) && is_signed(AdsType::Int8),
        scalar_bytes(AdsType::UInt8) == Some(1nat) && !is_signed(AdsType::UInt8),
        scalar_bytes(AdsType::Int16) == Some(2nat) && is_signed(AdsType::Int16),
        scalar_bytes(AdsType::UInt16) == Some(2nat) && !is_signed(AdsType::UInt16),
        scalar_bytes(AdsType::Int32) == Some(4nat) && is_signed(AdsType::Int32),
        scalar_bytes(AdsType::UInt32) == Some(4nat) && !is_signed(AdsType::UInt32),
        scalar_bytes(AdsType::Int64) == Some(8nat) && is_signed(AdsType::Int64),
        scalar_bytes(AdsType::UInt64) == Some(8nat) && !is_signed(AdsType::UInt64),
        scalar_bytes(AdsType::Real32) == Some(4nat),
        scalar_bytes(AdsType::Real64) == Some(8nat),
        scalar_bytes(AdsType::String) is None && scalar_bytes(AdsType::WString) is None,
        scalar_bytes(AdsType::Void) is None && scalar_bytes(AdsType::BigType) is None,
{
}

/// The kind of parameter that holds a variable of the PLC without loss, and
/// which variables have none.
pub proof fn law_types_have_their_natural_kinds()
    ensures
        natural(AdsType::Bit, false) == Some(ParamType::Int32),
        natural(AdsType::Int8, false) == Some(ParamType::Int32),
        natural(AdsType::UInt8, false) == Some(ParamType::Int32),
        natural(AdsType::Int16, false) == Some(ParamType::Int32),
        natural(AdsType::UInt16, false) == Some(ParamType::Int32),
        natural(AdsType::Int32, false) == Some(ParamType::Int32),
        natural(AdsType::UInt32, false) == Some(ParamType::Int64),
        natural(AdsType::Int64, false) == Some(ParamType::Int64),
        natural(AdsType::UInt64, false) == Some(ParamType::Int64),
        natural(AdsType::Real32, false) == Some(ParamType::Float64),
        natural(AdsType::Real64, false) == Some(ParamType::Float64),
        natural(AdsType::Bit, true) == Some(ParamType::Int8Array),
        natural(AdsType::Int8, true) == Some(ParamType::Int8Array),
        natural(AdsType::UInt8, true) == Some(ParamType::Int16Array),
        natural(AdsType::Int16, true) == Some(ParamType::Int16Array),
        natural(AdsType::UInt16, true) == Some(ParamType::Int32Array),
        natural(AdsType::Int32, true) == Some(ParamType::Int32Array),
        natural(AdsType::UInt32, true) == Some(ParamType::Int64Array),
        natural(AdsType::Int64, true) is None && natural(AdsType::UInt64, true) is None,
        natural(AdsType::Real32, true) == Some(ParamType::Float32Array),
        natural(AdsType::Real64, true) == Some(ParamType::Float64Array),
        natural(AdsType::String, true) == Some(ParamType::Octet),
        natural(AdsType::String, false) == Some(ParamType::Octet),
        natural(AdsType::WString, true) is None && natural(AdsType::Void, false) is None,
{
}

/// A number with a sign is its bits up to a multiple of the range, and in the
/// range.
pub proof fn law_sign_is_the_highest_bit(w: nat, half: nat)
    requires
        half > 0,
        w < 2 * half,
    ensures
        -half <= signed(w, half) < half,
        signed(w, half) == w || signed(w, half) == w - 2 * half,
        signed(w, half) < 0 <==> w >= half,
{
}

/// A variable whose value fits reads the same in every kind of parameter.
pub proof fn law_kinds_agree_on_a_value(plc: AdsType, data: Seq<u8>, v: i64)
    requires
        !(plc is Real32 || plc is Real64),
        decoded_scalar(plc, data, ParamType::Int64) == Ok::<ValueView, ConvertError>(
            ValueView::Int64(v),
        ),
        scalar_bytes(plc)->0 <= 4,
    ensures
        i32::MIN <= v <= i32::MAX ==> decoded_scalar(plc, data, ParamType::Int32) == Ok::<
            ValueView,
            ConvertError,
        >(ValueView::Int32(v as i32)),
        decoded_scalar(plc, data, ParamType::Float64) == Ok::<ValueView, ConvertError>(
            ValueView::Float64(ieee::double_of_int(v as int) as u64),
        ),
        holds(plc, v as int),
{
    let n = scalar_bytes(plc)->0;
    let d = data.take(n as int);
    bytes::lemma_pow256_values();
    bytes::lemma_le_value_bound(d);
    let x = scalar_int(plc, d);
    assert(half_range(1) == 128 && half_range(2) == 32768 && half_range(4) == 2147483648);
    assert(-0x8000_0000 <= x < 0x1_0000_0000);
    assert(x % 0x1_0000_0000_0000_0000 == if x < 0 {
        x + 0x1_0000_0000_0000_0000
    } else {
        x
    });
    assert(wrapped(x, 0x8000_0000_0000_0000) == x);
    assert(v == x);
    if i32::MIN <= v <= i32::MAX {
        assert(x % 0x1_0000_0000 == if x < 0 {
            x + 0x1_0000_0000
        } else {
            x
        });
        assert(wrapped(x, 0x8000_0000) == x);
    }
}

/// An array reads element by element, each from its own bytes and with its own
/// sign.
pub proof fn law_array_reads_element_by_element(data: Seq<u8>, i: int)
    ensures
        decoded_array(AdsType::Int16, data, ParamType::Int16Array) matches Ok(v) && (v
            matches ValueView::Int16Array(a) && a.len() == data.len() / 2 && (0 <= i < a.len()
            ==> a[i] == signed(bytes::le_value(data.subrange(2 * i, 2 * i + 2)), 0x8000) as i16)),
        decoded_array(AdsType::Int32, data, ParamType::Int32Array) matches Ok(v) && (v
            matches ValueView::Int32Array(a) && a.len() == data.len() / 4 && (0 <= i < a.len()
            ==> a[i] == signed(
            bytes::le_value(data.subrange(4 * i, 4 * i + 4)),
            0x8000_0000,
        ) as i32)),
        decoded_array(AdsType::Int8, data, ParamType::Int8Array) matches Ok(v) && (v
            matches ValueView::Int8Array(a) && a.len() == data.len() && (0 <= i < a.len() ==> a[i]
            == signed(bytes::le_value(data.subrange(i, i + 1)), 0x80) as i8)),
        decoded_array(AdsType::Real32, data, ParamType::Float32Array) matches Ok(v) && (v
            matches ValueView::Float32Array(a) && a.len() == data.len() / 4 && (0 <= i < a.len()
            ==> a[i] == bytes::le_value(data.subrange(4 * i, 4 * i + 4)) as u32)),
        decoded_array(AdsType::Real64, data, ParamType::Float64Array) matches Ok(v) && (v
            matches ValueView::Float64Array(a) && a.len() == data.len() / 8 && (0 <= i < a.len()
            ==> a[i] == bytes::le_value(data.subrange(8 * i, 8 * i + 8)) as u64)),
{
    law_arrays_are_counted_in_elements(data, 1);
    law_arrays_are_counted_in_elements(data, 2);
    law_arrays_are_counted_in_elements(data, 4);
    law_arrays_are_counted_in_elements(data, 8);
    assert(i * 1 == i && i * 2 == 2 * i && i * 4 == 4 * i && i * 8 == 8 * i);
    assert(data.len() / 1 == data.len());
    if 0 <= i < words(data, 1).len() {
        assert(words(data, 1)[i] == bytes::le_value(data.subrange(i, i + 1)));
    }
    if 0 <= i < words(data, 2).len() {
        assert(words(data, 2)[i] == bytes::le_value(data.subrange(2 * i, 2 * i + 2)));
    }
    if 0 <= i < words(data, 4).len() {
        assert(words(data, 4)[i] == bytes::le_value(data.subrange(4 * i, 4 * i + 4)));
    }
    if 0 <= i < words(data, 8).len() {
        assert(words(data, 8)[i] == bytes::le_value(data.subrange(8 * i, 8 * i + 8)));
    }
}

/// A variable that the PLC sent too few bytes of is refused, and bytes behind it
/// are not looked at.
pub proof fn law_value_takes_its_own_bytes(plc: AdsType, data: Seq<u8>, rest: Seq<u8>, k: ParamType)
    requires
        scalar_bytes(plc) is Some,
        k is Int32 || k is Int64 || k is Float64,
    ensures
        decoded_scalar(plc, data, k) is Ok <==> data.len() >= scalar_bytes(plc)->0,
        data.len() >= scalar_bytes(plc)->0 ==> decoded_scalar(plc, data + rest, k)
            == decoded_scalar(plc, data, k),
{
    let n = scalar_bytes(plc)->0 as int;
    if data.len() >= n {
        assert((data + rest).take(n) =~= data.take(n));
    }
}

/// A whole number that is written as a double is written as the number.
pub proof fn law_doubles_write_whole_numbers(plc: AdsType, v: i64)
    requires
        -0x20_0000_0000_0000 < v < 0x20_0000_0000_0000,
        !(plc is Real32) && scalar_bytes(plc) is Some,
    ensures
        encoded_scalar(plc, WriteValue::Float(ieee::double_of_int(v as int) as u64))
            == encoded_scalar(plc, WriteValue::Int(v)),
{
    ieee::law_whole_numbers_come_back(v as int, i128::MIN as int, i128::MAX as int);
}

} // verus!
