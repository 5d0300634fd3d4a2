//! AMS/TCP framing and the AoE header.
//!
//! Everything is little-endian and packed.
//!
//! ```text
//! +----------------------+---------------------+-----------------+
//! | AMS/TCP header (6 B) | AoE header (32 B)   | payload (n B)   |
//! | reserved u16 = 0     | target Net Id [6]   |                 |
//! | length    u32 = 32+n | target port  u16    |                 |
//! |                      | source Net Id [6]   |                 |
//! |                      | source port  u16    |                 |
//! |                      | command id   u16    |                 |
//! |                      | state flags  u16    |                 |
//! |                      | length       u32 = n|                 |
//! |                      | error code   u32    |                 |
//! |                      | invoke id    u32    |                 |
//! +----------------------+---------------------+-----------------+
//! ```

use super::defs::{AmsAddr, AmsNetId, STATE_FLAG_REQUEST};
use super::error::AdsError;
use crate::bytes;
use crate::text;
use vstd::prelude::*;

verus! {

/// Size of the AMS/TCP header that precedes every frame on the socket.
pub const AMS_TCP_HEADER_LEN: usize = 6;

/// Size of the AoE header.
pub const AOE_HEADER_LEN: usize = 32;

/// A decoded AoE header.
#[derive(Debug, Clone, Copy, PartialEq, Eq)]
pub struct AoeHeader {
    pub target: AmsAddr,
    pub source: AmsAddr,
    pub cmd_id: u16,
    pub state_flags: u16,
    pub length: u32,
    pub error_code: u32,
    pub invoke_id: u32,
}

/// What an AoE header says, as plain sequences and numbers.
#[verifier::ext_equal]
pub struct HeaderView {
    pub target_net: Seq<u8>,
    pub target_port: nat,
    pub source_net: Seq<u8>,
    pub source_port: nat,
    pub cmd_id: nat,
    pub state_flags: nat,
    pub length: nat,
    pub error_code: nat,
    pub invoke_id: nat,
}

impl View for AoeHeader {
    type V = HeaderView;

    open spec fn view(&self) -> HeaderView {
        HeaderView {
            target_net: self.target.net_id@,
            target_port: self.target.port as nat,
            source_net: self.source.net_id@,
            source_port: self.source.port as nat,
            cmd_id: self.cmd_id as nat,
            state_flags: self.state_flags as nat,
            length: self.length as nat,
            error_code: self.error_code as nat,
            invoke_id: self.invoke_id as nat,
        }
    }
}

impl HeaderView {
    /// Whether the header fits its fields.
    pub open spec fn fits(self) -> bool {
        &&& self.target_net.len() == 6
        &&& self.source_net.len() == 6
        &&& self.target_port < 0x1_0000
        &&& self.source_port < 0x1_0000
        &&& self.cmd_id < 0x1_0000
        &&& self.state_flags < 0x1_0000
        &&& self.length < 0x1_0000_0000
        &&& self.error_code < 0x1_0000_0000
        &&& self.invoke_id < 0x1_0000_0000
    }

    /// The 32 bytes of the header.
    pub open spec fn encoded(self) -> Seq<u8> {
        self.target_net + bytes::le(self.target_port, 2) + self.source_net + bytes::le(
            self.source_port,
            2,
        ) + bytes::le(self.cmd_id, 2) + bytes::le(self.state_flags, 2) + bytes::le(self.length, 4)
            + bytes::le(self.error_code, 4) + bytes::le(self.invoke_id, 4)
    }

    /// The header that 32 bytes spell.
    pub open spec fn decoded(b: Seq<u8>) -> HeaderView {
        HeaderView {
            target_net: b.subrange(0, 6),
            target_port: bytes::le_value(b.subrange(6, 8)),
            source_net: b.subrange(8, 14),
            source_port: bytes::le_value(b.subrange(14, 16)),
            cmd_id: bytes::le_value(b.subrange(16, 18)),
            state_flags: bytes::le_value(b.subrange(18, 20)),
            length: bytes::le_value(b.subrange(20, 24)),
            error_code: bytes::le_value(b.subrange(24, 28)),
            invoke_id: bytes::le_value(b.subrange(28, 32)),
        }
    }
}

/// What a header encodes to, it is decoded from.
pub proof fn law_aoe_header_roundtrips(h: HeaderView)
    requires
        h.fits(),
    ensures
        h.encoded().len() == AOE_HEADER_LEN,
        HeaderView::decoded(h.encoded()) == h,
{
    bytes::lemma_pow256_values();
    let e = h.encoded();
    bytes::lemma_le_roundtrip(h.target_port, 2);
    bytes::lemma_le_roundtrip(h.source_port, 2);
    bytes::lemma_le_roundtrip(h.cmd_id, 2);
    bytes::lemma_le_roundtrip(h.state_flags, 2);
    bytes::lemma_le_roundtrip(h.length, 4);
    bytes::lemma_le_roundtrip(h.error_code, 4);
    bytes::lemma_le_roundtrip(h.invoke_id, 4);
    assert(e.subrange(0, 6) =~= h.target_net);
    assert(e.subrange(6, 8) =~= bytes::le(h.target_port, 2));
    assert(e.subrange(8, 14) =~= h.source_net);
    assert(e.subrange(14, 16) =~= bytes::le(h.source_port, 2));
    assert(e.subrange(16, 18) =~= bytes::le(h.cmd_id, 2));
    assert(e.subrange(18, 20) =~= bytes::le(h.state_flags, 2));
    assert(e.subrange(20, 24) =~= bytes::le(h.length, 4));
    assert(e.subrange(24, 28) =~= bytes::le(h.error_code, 4));
    assert(e.subrange(28, 32) =~= bytes::le(h.invoke_id, 4));
    assert(HeaderView::decoded(e) =~= h);
}

/// One complete AMS/TCP frame.
pub open spec fn frame_bytes(header: HeaderView, payload: Seq<u8>) -> Seq<u8> {
    bytes::le(0, 2) + bytes::le(32 + payload.len(), 4) + header.encoded() + payload
}

/// A frame announces the length of what follows its first six bytes, and holds
/// its header and its payload, for every payload whose length the field can hold.
pub proof fn law_frame_announces_its_length(header: HeaderView, payload: Seq<u8>)
    requires
        header.fits(),
        32 + payload.len() < 0x1_0000_0000,
    ensures
        ({
            let f = frame_bytes(header, payload);
            &&& bytes::le_value(f.subrange(2, 6)) == f.len() - AMS_TCP_HEADER_LEN
            &&& HeaderView::decoded(f.subrange(6, 38)) == header
            &&& f.skip(38) == payload
        }),
{
    bytes::lemma_pow256_values();
    law_aoe_header_roundtrips(header);
    bytes::lemma_le_len(0, 2);
    bytes::lemma_le_roundtrip(32 + payload.len(), 4);
    let f = frame_bytes(header, payload);
    assert(f.subrange(2, 6) =~= bytes::le(32 + payload.len(), 4));
    assert(f.subrange(6, 38) =~= header.encoded());
    assert(f.skip(38) =~= payload);
}

/// The error for a frame of `got` bytes where `need` are required.
pub open spec fn short_frame(need: nat, got: nat) -> AdsError {
    AdsError::ShortFrame { need: need as usize, got: got as usize }
}

/// Takes `n` bytes off the front of `b`.
pub open spec fn field(b: Seq<u8>, n: nat) -> Result<(Seq<u8>, Seq<u8>), AdsError> {
    if b.len() < n {
        Err(short_frame(n, b.len()))
    } else {
        Ok((b.take(n as int), b.skip(n as int)))
    }
}

/// Takes a little-endian number of `n` bytes off the front of `b`.
pub open spec fn number(b: Seq<u8>, n: nat) -> Result<(nat, Seq<u8>), AdsError> {
    match field(b, n) {
        Ok((f, rest)) => Ok((bytes::le_value(f), rest)),
        Err(e) => Err(e),
    }
}

impl AoeHeader {
    /// A request header.
    pub fn request(
        target: AmsAddr,
        source: AmsAddr,
        cmd_id: u16,
        payload_len: u32,
        invoke_id: u32,
    ) -> (r: Self)
        ensures
            r.target == target,
            r.source == source,
            r.cmd_id == cmd_id,
            r.state_flags == STATE_FLAG_REQUEST,
            r.length == payload_len,
            r.error_code == 0,
            r.invoke_id == invoke_id,
    {
        AoeHeader {
            target,
            source,
            cmd_id,
            state_flags: STATE_FLAG_REQUEST,
            length: payload_len,
            error_code: 0,
            invoke_id,
        }
    }

    /// Appends the bytes of the header to `out`.
    pub fn encode_into(&self, out: &mut Vec<u8>)
        ensures
            final(out)@ == old(out)@ + self@.encoded(),
    {
        bytes::push_all(out, self.target.net_id.0.as_slice());
        bytes::push_le(out, self.target.port as u64, 2);
        bytes::push_all(out, self.source.net_id.0.as_slice());
        bytes::push_le(out, self.source.port as u64, 2);
        bytes::push_le(out, self.cmd_id as u64, 2);
        bytes::push_le(out, self.state_flags as u64, 2);
        bytes::push_le(out, self.length as u64, 4);
        bytes::push_le(out, self.error_code as u64, 4);
        bytes::push_le(out, self.invoke_id as u64, 4);
        proof {
            assert(out@ =~= old(out)@ + self@.encoded());
        }
    }

    /// Decodes the first [`AOE_HEADER_LEN`] bytes.
    pub fn decode(buf: &[u8]) -> (r: Result<Self, AdsError>)
        ensures
            match r {
                Ok(h) => buf@.len() >= AOE_HEADER_LEN && h@ == HeaderView::decoded(buf@.take(32)),
                Err(e) => buf@.len() < AOE_HEADER_LEN && e == short_frame(32, buf@.len()),
            },
    {
        if buf.len() < AOE_HEADER_LEN {
            return Err(AdsError::ShortFrame { need: AOE_HEADER_LEN, got: buf.len() });
        }
        let target_net: [u8; 6] = [buf[0], buf[1], buf[2], buf[3], buf[4], buf[5]];
        let source_net: [u8; 6] = [buf[8], buf[9], buf[10], buf[11], buf[12], buf[13]];
        let h = AoeHeader {
            target: AmsAddr { net_id: AmsNetId(target_net), port: bytes::le16_at(buf, 6) },
            source: AmsAddr { net_id: AmsNetId(source_net), port: bytes::le16_at(buf, 14) },
            cmd_id: bytes::le16_at(buf, 16),
            state_flags: bytes::le16_at(buf, 18),
            length: bytes::le32_at(buf, 20),
            error_code: bytes::le32_at(buf, 24),
            invoke_id: bytes::le32_at(buf, 28),
        };
        proof {
            let b = buf@.take(32);
            assert(h.target.net_id@ =~= b.subrange(0, 6));
            assert(h.source.net_id@ =~= b.subrange(8, 14));
            assert(b.subrange(6, 8) =~= buf@.subrange(6, 8));
            assert(b.subrange(14, 16) =~= buf@.subrange(14, 16));
            assert(b.subrange(16, 18) =~= buf@.subrange(16, 18));
            assert(b.subrange(18, 20) =~= buf@.subrange(18, 20));
            assert(b.subrange(20, 24) =~= buf@.subrange(20, 24));
            assert(b.subrange(24, 28) =~= buf@.subrange(24, 28));
            assert(b.subrange(28, 32) =~= buf@.subrange(28, 32));
            assert(h@ =~= HeaderView::decoded(b));
        }
        Ok(h)
    }
}

/// Serializes one complete AMS/TCP frame.
///
/// The length field keeps the low 32 bits of the length.
pub fn encode_frame(header: &AoeHeader, payload: &[u8]) -> (r: Vec<u8>)
    ensures
        r@ == frame_bytes(header@, payload@),
{
    let mut out: Vec<u8> = Vec::new();
    bytes::push_le(&mut out, 0, 2);
    push_length(&mut out, payload.len());
    header.encode_into(&mut out);
    bytes::push_all(&mut out, payload);
    proof {
        assert(out@ =~= frame_bytes(header@, payload@));
    }
    out
}

fn push_length(out: &mut Vec<u8>, payload_len: usize)
    ensures
        final(out)@ == old(out)@ + bytes::le(32 + payload_len as nat, 4),
{
    let len: u128 = 32 + payload_len as u128;
    let low: u64 = (len % 0x1_0000_0000) as u64;
    bytes::push_le(out, low, 4);
    proof {
        lemma_le4_truncates(len as nat);
    }
}

proof fn lemma_le4_truncates(v: nat)
    ensures
        bytes::le(v, 4) == bytes::le(v % 0x1_0000_0000, 4),
{
    reveal_with_fuel(bytes::le, 5);
    let w = v % 0x1_0000_0000;
    assert(v % 256 == w % 256);
    assert(v / 256 % 256 == w / 256 % 256);
    assert(v / 256 / 256 % 256 == w / 256 / 256 % 256);
    assert(v / 256 / 256 / 256 % 256 == w / 256 / 256 / 256 % 256);
    assert(bytes::le(v, 4) =~= bytes::le(w, 4));
}

/// Decodes the AMS/TCP header: the number of bytes that follow it. The
/// reserved field is ignored.
pub fn decode_tcp_header(buf: &[u8]) -> (r: Result<u32, AdsError>)
    ensures
        match r {
            Ok(n) => buf@.len() >= AMS_TCP_HEADER_LEN && n == bytes::le_value(buf@.subrange(2, 6)),
            Err(e) => buf@.len() < AMS_TCP_HEADER_LEN && e == short_frame(6, buf@.len()),
        },
{
    if buf.len() < AMS_TCP_HEADER_LEN {
        return Err(AdsError::ShortFrame { need: AMS_TCP_HEADER_LEN, got: buf.len() });
    }
    Ok(bytes::le32_at(buf, 2))
}

/// Little-endian cursor over a received payload. No accessor reads beyond the
/// payload: what is missing is reported as [`AdsError::ShortFrame`].
pub struct Reader<'a> {
    buf: &'a [u8],
    pos: usize,
}

impl<'a> View for Reader<'a> {
    type V = Seq<u8>;

    /// The bytes that were not read yet.
    closed spec fn view(&self) -> Seq<u8> {
        self.buf@.skip(self.pos as int)
    }
}

impl<'a> Reader<'a> {
    #[verifier::type_invariant]
    spec fn inside(self) -> bool {
        self.pos <= self.buf@.len()
    }

    /// A cursor at the start of `buf`.
    pub fn new(buf: &'a [u8]) -> (r: Self)
        ensures
            r@ == buf@,
    {
        proof {
            assert(buf@.skip(0) =~= buf@);
        }
        Reader { buf, pos: 0 }
    }

    /// The number of bytes that were not read yet.
    pub fn remaining(&self) -> (r: usize)
        ensures
            r == self@.len(),
    {
        proof {
            use_type_invariant(self);
        }
        self.buf.len() - self.pos
    }

    /// The next `n` bytes. On an error the cursor stays.
    pub fn bytes(&mut self, n: usize) -> (r: Result<&'a [u8], AdsError>)
        ensures
            match r {
                Ok(s) => field(old(self)@, n as nat) == Ok::<(Seq<u8>, Seq<u8>), AdsError>(
                    (s@, final(self)@),
                ),
                Err(e) => field(old(self)@, n as nat) == Err::<(Seq<u8>, Seq<u8>), AdsError>(e)
                    && final(self)@ == old(self)@,
            },
    {
        proof {
            use_type_invariant(&*self);
        }
        if self.remaining() < n {
            return Err(AdsError::ShortFrame { need: n, got: self.remaining() });
        }
        let ghost before = self@;
        assert(self.buf@.len() == self.buf.len());
        let end: usize = self.pos + n;
        let s = vstd::slice::slice_subrange(self.buf, self.pos, end);
        self.pos = end;
        proof {
            assert(s@ =~= before.take(n as int));
            assert(self@ =~= before.skip(n as int));
        }
        Ok(s)
    }

    /// The next 16-bit number.
    pub fn u16(&mut self) -> (r: Result<u16, AdsError>)
        ensures
            match r {
                Ok(v) => number(old(self)@, 2) == Ok::<(nat, Seq<u8>), AdsError>(
                    (v as nat, final(self)@),
                ),
                Err(e) => number(old(self)@, 2) == Err::<(nat, Seq<u8>), AdsError>(e)
                    && final(self)@ == old(self)@,
            },
    {
        let s = self.bytes(2)?;
        proof {
            assert(s@.subrange(0, 2) =~= s@);
        }
        Ok(bytes::le16_at(s, 0))
    }

    /// The next 32-bit number.
    pub fn u32(&mut self) -> (r: Result<u32, AdsError>)
        ensures
            match r {
                Ok(v) => number(old(self)@, 4) == Ok::<(nat, Seq<u8>), AdsError>(
                    (v as nat, final(self)@),
                ),
                Err(e) => number(old(self)@, 4) == Err::<(nat, Seq<u8>), AdsError>(e)
                    && final(self)@ == old(self)@,
            },
    {
        let s = self.bytes(4)?;
        proof {
            assert(s@.subrange(0, 4) =~= s@);
        }
        Ok(bytes::le32_at(s, 0))
    }

    /// The next 64-bit number.
    pub fn u64(&mut self) -> (r: Result<u64, AdsError>)
        ensures
            match r {
                Ok(v) => number(old(self)@, 8) == Ok::<(nat, Seq<u8>), AdsError>(
                    (v as nat, final(self)@),
                ),
                Err(e) => number(old(self)@, 8) == Err::<(nat, Seq<u8>), AdsError>(e)
                    && final(self)@ == old(self)@,
            },
    {
        let s = self.bytes(8)?;
        proof {
            assert(s@.subrange(0, 8) =~= s@);
        }
        Ok(bytes::le64_at(s, 0))
    }

    /// The next byte.
    pub fn u8(&mut self) -> (r: Result<u8, AdsError>)
        ensures
            match r {
                Ok(v) => field(old(self)@, 1) == Ok::<(Seq<u8>, Seq<u8>), AdsError>(
                    (seq![v], final(self)@),
                ),
                Err(e) => field(old(self)@, 1) == Err::<(Seq<u8>, Seq<u8>), AdsError>(e)
                    && final(self)@ == old(self)@,
            },
    {
        let s = self.bytes(1)?;
        proof {
            assert(s@ =~= seq![s@[0]]);
        }
        Ok(s[0])
    }

    /// The next six bytes.
    pub fn array6(&mut self) -> (r: Result<[u8; 6], AdsError>)
        ensures
            match r {
                Ok(a) => field(old(self)@, 6) == Ok::<(Seq<u8>, Seq<u8>), AdsError>(
                    (a@, final(self)@),
                ),
                Err(e) => field(old(self)@, 6) == Err::<(Seq<u8>, Seq<u8>), AdsError>(e)
                    && final(self)@ == old(self)@,
            },
    {
        let s = self.bytes(6)?;
        let a: [u8; 6] = [s[0], s[1], s[2], s[3], s[4], s[5]];
        proof {
            assert(a@ =~= s@);
        }
        Ok(a)
    }

    /// Skips `n` bytes, such as reserved fields.
    pub fn skip(&mut self, n: usize) -> (r: Result<(), AdsError>)
        ensures
            match r {
                Ok(_) => old(self)@.len() >= n && final(self)@ == old(self)@.skip(n as int),
                Err(e) => old(self)@.len() < n && e == short_frame(n as nat, old(self)@.len())
                    && final(self)@ == old(self)@,
            },
    {
        let _ = self.bytes(n)?;
        Ok(())
    }

    /// A text up to the next zero byte, which is consumed too. Where there is
    /// none, all bytes are consumed and one more would be needed.
    pub fn cstr(&mut self) -> (r: Result<String, AdsError>)
        requires
            old(self)@.len() < usize::MAX,
        ensures
            ({
                let k = bytes::before_zero(old(self)@) as int;
                match r {
                    Ok(s) => k < old(self)@.len() && s@ == text::lossy(old(self)@.take(k))
                        && final(self)@ == old(self)@.skip(k + 1),
                    Err(e) => k == old(self)@.len() && e == short_frame((k + 1) as nat, k as nat)
                        && final(self)@.len() == 0,
                }
            }),
    {
        proof {
            use_type_invariant(&*self);
            bytes::lemma_before_zero(self@);
        }
        let ghost before = self@;
        assert(self.buf@.len() == self.buf.len());
        let got: usize = bytes::count_before_zero(self.buf, self.pos);
        let end: usize = self.pos + got;
        if end < self.buf.len() {
            let part = vstd::slice::slice_subrange(self.buf, self.pos, end);
            let s = text::from_utf8_lossy(part);
            self.pos = end + 1;
            proof {
                assert(part@ =~= before.take(got as int));
                assert(self@ =~= before.skip(got + 1));
            }
            return Ok(s);
        }
        self.pos = end;
        Err(AdsError::ShortFrame { need: got + 1, got })
    }
}

/// The address and length triple of a read or write request.
pub open spec fn request_header(index_group: u32, index_offset: u32, length: u32) -> Seq<u8> {
    bytes::le(index_group as nat, 4) + bytes::le(index_offset as nat, 4) + bytes::le(
        length as nat,
        4,
    )
}

/// Appends the address and length triple of a read or write request.
pub fn push_request_header(out: &mut Vec<u8>, index_group: u32, index_offset: u32, length: u32)
    ensures
        final(out)@ == old(out)@ + request_header(index_group, index_offset, length),
{
    bytes::push_le(out, index_group as u64, 4);
    bytes::push_le(out, index_offset as u64, 4);
    bytes::push_le(out, length as u64, 4);
    proof {
        assert(out@ =~= old(out)@ + request_header(index_group, index_offset, length));
    }
}

/// Appends the header of a combined read and write request.
pub fn push_read_write_header(
    out: &mut Vec<u8>,
    index_group: u32,
    index_offset: u32,
    read_length: u32,
    write_length: u32,
)
    ensures
        final(out)@ == old(out)@ + request_header(index_group, index_offset, read_length)
            + bytes::le(write_length as nat, 4),
{
    push_request_header(out, index_group, index_offset, read_length);
    bytes::push_le(out, write_length as u64, 4);
}

/// The request that adds a notification: 40 bytes with its reserved tail.
pub open spec fn notification_request(
    index_group: u32,
    index_offset: u32,
    length: u32,
    mode: u32,
    max_delay_100ns: u32,
    cycle_time_100ns: u32,
) -> Seq<u8> {
    request_header(index_group, index_offset, length) + bytes::le(mode as nat, 4) + bytes::le(
        max_delay_100ns as nat,
        4,
    ) + bytes::le(cycle_time_100ns as nat, 4) + Seq::new(16, |i: int| 0u8)
}

/// Appends the request that adds a notification.
pub fn push_add_notification_request(
    out: &mut Vec<u8>,
    index_group: u32,
    index_offset: u32,
    length: u32,
    mode: u32,
    max_delay_100ns: u32,
    cycle_time_100ns: u32,
)
    ensures
        final(out)@ == old(out)@ + notification_request(
            index_group,
            index_offset,
            length,
            mode,
            max_delay_100ns,
            cycle_time_100ns,
        ),
        final(out)@.len() == old(out)@.len() + 40,
{
    push_request_header(out, index_group, index_offset, length);
    bytes::push_le(out, mode as u64, 4);
    bytes::push_le(out, max_delay_100ns as u64, 4);
    bytes::push_le(out, cycle_time_100ns as u64, 4);
    let tail: [u8; 16] = [0u8; 16];
    bytes::push_all(out, tail.as_slice());
    proof {
        assert(tail@ =~= Seq::new(16, |i: int| 0u8));
        bytes::lemma_le_len(index_group as nat, 4);
        bytes::lemma_le_len(index_offset as nat, 4);
        bytes::lemma_le_len(length as nat, 4);
        bytes::lemma_le_len(mode as nat, 4);
        bytes::lemma_le_len(max_delay_100ns as nat, 4);
        bytes::lemma_le_len(cycle_time_100ns as nat, 4);
        assert(out@ =~= old(out)@ + notification_request(
            index_group,
            index_offset,
            length,
            mode,
            max_delay_100ns,
            cycle_time_100ns,
        ));
    }
}

/// Where the fields of a header stand on the wire: the target before the
/// source, then command, flags, length, error and the number of the request,
/// each with its lowest byte first.
pub proof fn law_header_fields_stand_in_place(h: HeaderView)
    requires
        h.fits(),
    ensures
        ({
            let b = h.encoded();
            &&& b.len() == 32
            &&& b.subrange(0, 6) == h.target_net
            &&& b.subrange(8, 14) == h.source_net
            &&& b[6] + 256 * b[7] == h.target_port
            &&& b[14] + 256 * b[15] == h.source_port
            &&& b[16] + 256 * b[17] == h.cmd_id
            &&& b[18] + 256 * b[19] == h.state_flags
            &&& bytes::le_value(b.subrange(20, 24)) == h.length
            &&& bytes::le_value(b.subrange(24, 28)) == h.error_code
            &&& bytes::le_value(b.subrange(28, 32)) == h.invoke_id
        }),
{
    law_aoe_header_roundtrips(h);
    let b = h.encoded();
    let d = HeaderView::decoded(b);
    lemma_two_bytes(b, 6);
    lemma_two_bytes(b, 14);
    lemma_two_bytes(b, 16);
    lemma_two_bytes(b, 18);
    assert(d.target_net == h.target_net && d.source_net == h.source_net);
    assert(d.cmd_id == h.cmd_id && d.state_flags == h.state_flags);
    assert(d.target_port == h.target_port && d.source_port == h.source_port);
}

proof fn lemma_two_bytes(b: Seq<u8>, at: int)
    requires
        0 <= at,
        at + 2 <= b.len(),
    ensures
        bytes::le_value(b.subrange(at, at + 2)) == b[at] + 256 * b[at + 1],
{
    bytes::law_lowest_byte_comes_first(b.subrange(at, at + 2));
    bytes::law_lowest_byte_comes_first(b.subrange(at, at + 2).skip(1));
    let s = b.subrange(at, at + 2);
    assert(s.skip(1).skip(1).len() == 0);
    assert(s[0] == b[at] && s.skip(1)[0] == b[at + 1]);
    assert(bytes::le_value(s.skip(1).skip(1)) == 0);
}

/// A request names its group, its offset and its length, in this order.
pub proof fn law_request_names_its_address(index_group: u32, index_offset: u32, length: u32)
    ensures
        ({
            let b = request_header(index_group, index_offset, length);
            &&& b.len() == 12
            &&& bytes::le_value(b.subrange(0, 4)) == index_group
            &&& bytes::le_value(b.subrange(4, 8)) == index_offset
            &&& bytes::le_value(b.subrange(8, 12)) == length
        }),
{
    let b = request_header(index_group, index_offset, length);
    bytes::lemma_pow256_values();
    bytes::lemma_le_roundtrip(index_group as nat, 4);
    bytes::lemma_le_roundtrip(index_offset as nat, 4);
    bytes::lemma_le_roundtrip(length as nat, 4);
    bytes::lemma_le_len(index_group as nat, 4);
    bytes::lemma_le_len(index_offset as nat, 4);
    bytes::lemma_le_len(length as nat, 4);
    assert(b.subrange(0, 4) =~= bytes::le(index_group as nat, 4));
    assert(b.subrange(4, 8) =~= bytes::le(index_offset as nat, 4));
    assert(b.subrange(8, 12) =~= bytes::le(length as nat, 4));
}

/// A subscription names its address and length, then the mode, the longest
/// delay, the cycle, and sixteen reserved bytes.
pub proof fn law_subscription_names_delay_before_cycle(
    index_group: u32,
    index_offset: u32,
    length: u32,
    mode: u32,
    max_delay_100ns: u32,
    cycle_time_100ns: u32,
)
    ensures
        ({
            let b = notification_request(
                index_group,
                index_offset,
                length,
                mode,
                max_delay_100ns,
                cycle_time_100ns,
            );
            &&& b.len() == 40
            &&& b.take(12) == request_header(index_group, index_offset, length)
            &&& bytes::le_value(b.subrange(12, 16)) == mode
            &&& bytes::le_value(b.subrange(16, 20)) == max_delay_100ns
            &&& bytes::le_value(b.subrange(20, 24)) == cycle_time_100ns
            &&& forall|i: int| 24 <= i < 40 ==> #[trigger] b[i] == 0
        }),
{
    let b = notification_request(
        index_group,
        index_offset,
        length,
        mode,
        max_delay_100ns,
        cycle_time_100ns,
    );
    law_request_names_its_address(index_group, index_offset, length);
    bytes::lemma_pow256_values();
    bytes::lemma_le_roundtrip(mode as nat, 4);
    bytes::lemma_le_roundtrip(max_delay_100ns as nat, 4);
    bytes::lemma_le_roundtrip(cycle_time_100ns as nat, 4);
    bytes::lemma_le_len(mode as nat, 4);
    bytes::lemma_le_len(max_delay_100ns as nat, 4);
    bytes::lemma_le_len(cycle_time_100ns as nat, 4);
    assert(b.take(12) =~= request_header(index_group, index_offset, length));
    assert(b.subrange(12, 16) =~= bytes::le(mode as nat, 4));
    assert(b.subrange(16, 20) =~= bytes::le(max_delay_100ns as nat, 4));
    assert(b.subrange(20, 24) =~= bytes::le(cycle_time_100ns as nat, 4));
}

} // verus!
