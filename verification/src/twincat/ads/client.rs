//! The ADS client without its socket: the requests it sends, the replies it
//! understands, and which request each incoming frame belongs to.
//!
//! The program around the library owns the connection. It sends the frames
//! that the client hands out, passes every frame that arrives to
//! [`AdsClient::receive`], and wakes the caller that the result names.

use super::defs::{
    AdsState, AdsVersion, AmsAddr, AmsNetId, ADSIGRP_SUMUP_READ, ADSIGRP_SYM_HNDBYNAME,
    ADSIGRP_SYM_INFOBYNAMEEX, ADSIGRP_SYM_RELEASEHND, ADSIGRP_SYM_VALBYHND, ADSTRANS_SERVERONCHA,
    CMD_ADD_DEVICE_NOTIFICATION, CMD_DEL_DEVICE_NOTIFICATION, CMD_DEVICE_NOTIFICATION, CMD_READ,
    CMD_READ_DEVICE_INFO, CMD_READ_STATE, CMD_READ_WRITE, CMD_WRITE, CMD_WRITE_CONTROL,
    STATE_FLAG_REQUEST,
};
use super::error;
use super::error::AdsError;
use super::frame;
use super::frame::{AoeHeader, Reader, AMS_TCP_HEADER_LEN, AOE_HEADER_LEN};
use super::notification;
use super::notification::NotificationSample;
use super::sumup;
use super::sumup::SumEntry;
use crate::bytes;
use crate::text;
use vstd::prelude::*;
use vstd::string::*;

verus! {

/// A client of one PLC: which requests are under way, and under which number
/// the next one goes out.
pub struct AdsClient {
    local: AmsAddr,
    target_net_id: AmsNetId,
    next_invoke_id: u32,
    connected: bool,
    pending: Vec<u32>,
}

/// A request on its way: the number that its reply will carry, and the frame
/// to be sent.
#[derive(Debug, Clone, PartialEq, Eq)]
pub struct Outgoing {
    pub invoke_id: u32,
    pub frame: Vec<u8>,
}

/// What an incoming frame means.
#[derive(Debug, PartialEq, Eq)]
pub enum Incoming {
    /// The frame is shorter than its header: the stream has no safe point to
    /// go on from.
    Lost,
    /// Nobody waits for it: a late reply, or a notification that is damaged.
    Ignored,
    /// Notified values.
    Samples(Vec<NotificationSample>),
    /// The reply to the request `invoke_id`.
    Response { invoke_id: u32, result: Result<Vec<u8>, AdsError> },
}

/// The low 32 bits of a length.
fn low32(n: usize) -> (r: u32)
    ensures
        r == n as nat % 0x1_0000_0000,
{
    (n as u64 % 0x1_0000_0000) as u32
}

/// The header of a request, as a plain value.
pub open spec fn request_view(
    target_net: Seq<u8>,
    target_port: u16,
    source: AmsAddr,
    cmd_id: u16,
    payload_len: nat,
    invoke_id: u32,
) -> frame::HeaderView {
    frame::HeaderView {
        target_net,
        target_port: target_port as nat,
        source_net: source.net_id@,
        source_port: source.port as nat,
        cmd_id: cmd_id as nat,
        state_flags: STATE_FLAG_REQUEST as nat,
        length: payload_len % 0x1_0000_0000,
        error_code: 0,
        invoke_id: invoke_id as nat,
    }
}

/// The payload of a read request.
pub open spec fn read_payload(index_group: u32, index_offset: u32, length: u32) -> Seq<u8> {
    frame::request_header(index_group, index_offset, length)
}

/// The payload of a write request.
pub open spec fn write_payload(index_group: u32, index_offset: u32, data: Seq<u8>) -> Seq<u8> {
    frame::request_header(index_group, index_offset, (data.len() % 0x1_0000_0000) as u32) + data
}

/// The payload of a combined read and write request.
pub open spec fn read_write_payload(
    index_group: u32,
    index_offset: u32,
    read_length: u32,
    data: Seq<u8>,
) -> Seq<u8> {
    frame::request_header(index_group, index_offset, read_length) + bytes::le(
        data.len() % 0x1_0000_0000,
        4,
    ) + data
}

/// The payload that commands the PLC runtime into a state.
pub open spec fn control_payload(ads_state: u16, device_state: u16, data: Seq<u8>) -> Seq<u8> {
    bytes::le(ads_state as nat, 2) + bytes::le(device_state as nat, 2) + bytes::le(
        data.len() % 0x1_0000_0000,
        4,
    ) + data
}

impl AdsClient {
    #[verifier::type_invariant]
    spec fn no_duplicates(self) -> bool {
        forall|i: int, j: int|
            0 <= i < j < self.pending@.len() ==> self.pending@[i] != self.pending@[j]
    }

    /// The requests that wait for a reply.
    pub closed spec fn waiting(&self) -> Set<u32> {
        self.pending@.to_set()
    }

    /// The number of the next request.
    pub closed spec fn next(&self) -> u32 {
        self.next_invoke_id
    }

    /// Whether the connection is up.
    pub closed spec fn up(&self) -> bool {
        self.connected
    }

    /// The address of this client.
    pub closed spec fn source(&self) -> AmsAddr {
        self.local
    }

    /// The Net Id of the PLC.
    pub closed spec fn target(&self) -> Seq<u8> {
        self.target_net_id@
    }

    /// Whether `self` is `before` but for the requests that wait.
    pub open spec fn same_but_waiting(&self, before: &AdsClient) -> bool {
        &&& self.next() == before.next()
        &&& self.up() == before.up()
        &&& self.source() == before.source()
        &&& self.target() == before.target()
    }

    /// A client over a connection that has just been opened.
    pub fn new(local: AmsAddr, target_net_id: AmsNetId) -> (r: AdsClient)
        ensures
            r.up(),
            r.next() == 1,
            r.waiting() == Set::<u32>::empty(),
            r.source() == local,
            r.target() == target_net_id@,
    {
        let pending: Vec<u32> = Vec::new();
        proof {
            assert(pending@.to_set() =~= Set::<u32>::empty());
        }
        AdsClient { local, target_net_id, next_invoke_id: 1, connected: true, pending }
    }

    /// The address of this client.
    pub fn local_addr(&self) -> (r: AmsAddr)
        ensures
            r == self.source(),
    {
        self.local
    }

    /// Whether the connection is up.
    pub fn is_connected(&self) -> (r: bool)
        ensures
            r == self.up(),
    {
        self.connected
    }

    fn position(&self, invoke_id: u32) -> (r: Option<usize>)
        ensures
            match r {
                Some(i) => i < self.pending@.len() && self.pending@[i as int] == invoke_id,
                None => !self.waiting().contains(invoke_id),
            },
    {
        let mut i: usize = 0;
        while i < self.pending.len()
            invariant
                i <= self.pending@.len(),
                forall|k: int| 0 <= k < i ==> self.pending@[k] != invoke_id,
            decreases self.pending@.len() - i,
        {
            if self.pending[i] == invoke_id {
                return Some(i);
            }
            i = i + 1;
        }
        None
    }

    /// Forgets a request, because it was answered or because its caller gave
    /// up. Tells whether it was waiting.
    pub fn forget(&mut self, invoke_id: u32) -> (r: bool)
        ensures
            r == old(self).waiting().contains(invoke_id),
            final(self).waiting() == old(self).waiting().remove(invoke_id),
            final(self).same_but_waiting(old(self)),
    {
        proof {
            use_type_invariant(&*self);
        }
        match self.position(invoke_id) {
            Some(i) => {
                let ghost before = self.pending@;
                let mut pending: Vec<u32> = Vec::new();
                std::mem::swap(&mut pending, &mut self.pending);
                pending.remove(i);
                proof {
                    let after = pending@;
                    assert(before[i as int] == invoke_id);
                    assert(before.to_set().contains(invoke_id));
                    assert forall|x: u32|
                        #![auto]
                        after.to_set().contains(x) <==> before.to_set().remove(
                            invoke_id,
                        ).contains(x) by {
                        if after.contains(x) {
                            let k = choose|k: int| 0 <= k < after.len() && after[k] == x;
                            let o = if k < i {
                                k
                            } else {
                                k + 1
                            };
                            assert(before[o] == x);
                        }
                        if before.contains(x) && x != invoke_id {
                            let k = choose|k: int| 0 <= k < before.len() && before[k] == x;
                            let n = if k < i {
                                k
                            } else {
                                k - 1
                            };
                            assert(after[n] == x);
                        }
                    }
                    assert(after.to_set() =~= before.to_set().remove(invoke_id));
                }
                self.pending = pending;
                true
            },
            None => {
                proof {
                    assert(self.waiting().remove(invoke_id) =~= self.waiting());
                }
                false
            },
        }
    }

    /// Takes the connection down. Every request that was waiting is handed back:
    /// its caller is owed [`AdsError::NotConnected`].
    pub fn tear_down(&mut self) -> (r: Vec<u32>)
        ensures
            r@.to_set() == old(self).waiting(),
            r@.no_duplicates(),
            !final(self).up(),
            final(self).waiting() == Set::<u32>::empty(),
            final(self).next() == old(self).next(),
            final(self).source() == old(self).source(),
            final(self).target() == old(self).target(),
    {
        proof {
            use_type_invariant(&*self);
        }
        let mut pending: Vec<u32> = Vec::new();
        std::mem::swap(&mut pending, &mut self.pending);
        self.connected = false;
        proof {
            assert(self.pending@.to_set() =~= Set::<u32>::empty());
        }
        pending
    }

    /// Prepares one request. Nothing goes out over a connection that is down.
    pub fn request(&mut self, ams_port: u16, cmd_id: u16, payload: &[u8]) -> (r: Result<
        Outgoing,
        AdsError,
    >)
        ensures
            old(self).asked(final(self), r, ams_port, cmd_id, payload@),
    {
        if !self.connected {
            return Err(AdsError::NotConnected);
        }
        proof {
            use_type_invariant(&*self);
        }
        let invoke_id: u32 = self.next_invoke_id;
        let target = AmsAddr { net_id: self.target_net_id, port: ams_port };
        let header = AoeHeader::request(target, self.local, cmd_id, low32(payload.len()), invoke_id);
        let out = frame::encode_frame(&header, payload);
        proof {
            assert(header@ =~= request_view(
                self.target(),
                ams_port,
                self.source(),
                cmd_id,
                payload@.len(),
                invoke_id,
            ));
        }
        let ghost before = self.pending@;
        match self.position(invoke_id) {
            Some(i) => {
                proof {
                    assert(before.contains(before[i as int]));
                    assert(self.waiting().insert(invoke_id) =~= self.waiting());
                }
            },
            None => {
                let mut pending: Vec<u32> = Vec::new();
                std::mem::swap(&mut pending, &mut self.pending);
                proof {
                    assert forall|k: int| 0 <= k < before.len() implies before[k] != invoke_id by {
                        assert(before.to_set().contains(before[k]));
                    }
                }
                pending.push(invoke_id);
                proof {
                    let after = pending@;
                    assert forall|x: u32|
                        #![auto]
                        after.to_set().contains(x) <==> before.to_set().insert(
                            invoke_id,
                        ).contains(x) by {
                        if before.contains(x) {
                            let k = choose|k: int| 0 <= k < before.len() && before[k] == x;
                            assert(after[k] == x);
                        }
                        assert(after[before.len() as int] == invoke_id);
                    }
                    assert(after.to_set() =~= before.to_set().insert(invoke_id));
                }
                self.pending = pending;
            },
        }
        self.next_invoke_id = invoke_id.wrapping_add(1);
        Ok(Outgoing { invoke_id, frame: out })
    }

    /// What a request does: over a connection that is up, a frame goes out under
    /// the next number, and that number waits for its reply.
    pub open spec fn asked(
        &self,
        after: &AdsClient,
        r: Result<Outgoing, AdsError>,
        ams_port: u16,
        cmd_id: u16,
        payload: Seq<u8>,
    ) -> bool {
        if self.up() {
            &&& r is Ok
            &&& r->Ok_0.invoke_id == self.next()
            &&& r->Ok_0.frame@ == frame::frame_bytes(
                request_view(
                    self.target(),
                    ams_port,
                    self.source(),
                    cmd_id,
                    payload.len(),
                    self.next(),
                ),
                payload,
            )
            &&& after.waiting() == self.waiting().insert(self.next())
            &&& after.next() == self.next().wrapping_add(1)
            &&& after.up()
            &&& after.source() == self.source()
            &&& after.target() == self.target()
        } else {
            &&& r is Err
            &&& r->Err_0 == AdsError::NotConnected
            &&& after.waiting() == self.waiting()
            &&& after.same_but_waiting(self)
        }
    }

    /// Reads `length` bytes.
    pub fn read(&mut self, ams_port: u16, index_group: u32, index_offset: u32, length: u32) -> (r:
        Result<Outgoing, AdsError>)
        ensures
            old(self).asked(
                final(self),
                r,
                ams_port,
                CMD_READ,
                read_payload(index_group, index_offset, length),
            ),
    {
        let mut payload: Vec<u8> = Vec::new();
        frame::push_request_header(&mut payload, index_group, index_offset, length);
        proof {
            assert(payload@ =~= read_payload(index_group, index_offset, length));
        }
        self.request(ams_port, CMD_READ, payload.as_slice())
    }

    /// Writes `data`.
    pub fn write(&mut self, ams_port: u16, index_group: u32, index_offset: u32, data: &[u8]) -> (r:
        Result<Outgoing, AdsError>)
        ensures
            old(self).asked(
                final(self),
                r,
                ams_port,
                CMD_WRITE,
                write_payload(index_group, index_offset, data@),
            ),
    {
        let mut payload: Vec<u8> = Vec::new();
        frame::push_request_header(&mut payload, index_group, index_offset, low32(data.len()));
        bytes::push_all(&mut payload, data);
        proof {
            assert(payload@ =~= write_payload(index_group, index_offset, data@));
        }
        self.request(ams_port, CMD_WRITE, payload.as_slice())
    }

    /// Writes `data` and reads back up to `read_length` bytes.
    pub fn read_write(
        &mut self,
        ams_port: u16,
        index_group: u32,
        index_offset: u32,
        read_length: u32,
        data: &[u8],
    ) -> (r: Result<Outgoing, AdsError>)
        ensures
            old(self).asked(
                final(self),
                r,
                ams_port,
                CMD_READ_WRITE,
                read_write_payload(index_group, index_offset, read_length, data@),
            ),
    {
        let mut payload: Vec<u8> = Vec::new();
        frame::push_read_write_header(
            &mut payload,
            index_group,
            index_offset,
            read_length,
            low32(data.len()),
        );
        bytes::push_all(&mut payload, data);
        proof {
            assert(payload@ =~= read_write_payload(index_group, index_offset, read_length, data@));
        }
        self.request(ams_port, CMD_READ_WRITE, payload.as_slice())
    }

    /// Reads many variables in one round trip. The reply is split by
    /// [`sumup::decode_response`] with the same `entries`.
    pub fn sum_up_read(&mut self, ams_port: u16, entries: &[SumEntry]) -> (r: Result<
        Outgoing,
        AdsError,
    >)
        requires
            sumup::full_length(entries@) <= usize::MAX,
        ensures
            old(self).asked(
                final(self),
                r,
                ams_port,
                CMD_READ_WRITE,
                read_write_payload(
                    ADSIGRP_SUMUP_READ,
                    (entries@.len() % 0x1_0000_0000) as u32,
                    (sumup::full_length(entries@) % 0x1_0000_0000) as u32,
                    sumup::triples(entries@),
                ),
            ),
    {
        let req = sumup::build_request(entries);
        self.read_write(
            ams_port,
            req.index_group,
            req.index_offset,
            req.read_length,
            req.payload.as_slice(),
        )
    }

    /// Asks for the state of the PLC runtime.
    pub fn read_state(&mut self, ams_port: u16) -> (r: Result<Outgoing, AdsError>)
        ensures
            old(self).asked(final(self), r, ams_port, CMD_READ_STATE, Seq::empty()),
    {
        let payload: Vec<u8> = Vec::new();
        self.request(ams_port, CMD_READ_STATE, payload.as_slice())
    }

    /// Commands the PLC runtime into a state.
    pub fn write_control(
        &mut self,
        ams_port: u16,
        ads_state: u16,
        device_state: u16,
        data: &[u8],
    ) -> (r: Result<Outgoing, AdsError>)
        ensures
            old(self).asked(
                final(self),
                r,
                ams_port,
                CMD_WRITE_CONTROL,
                control_payload(ads_state, device_state, data@),
            ),
    {
        let mut payload: Vec<u8> = Vec::new();
        bytes::push_le(&mut payload, ads_state as u64, 2);
        bytes::push_le(&mut payload, device_state as u64, 2);
        bytes::push_le(&mut payload, low32(data.len()) as u64, 4);
        bytes::push_all(&mut payload, data);
        proof {
            assert(payload@ =~= control_payload(ads_state, device_state, data@));
        }
        self.request(ams_port, CMD_WRITE_CONTROL, payload.as_slice())
    }

    /// Asks for name and version of the device.
    pub fn read_device_info(&mut self, ams_port: u16) -> (r: Result<Outgoing, AdsError>)
        ensures
            old(self).asked(final(self), r, ams_port, CMD_READ_DEVICE_INFO, Seq::empty()),
    {
        let payload: Vec<u8> = Vec::new();
        self.request(ams_port, CMD_READ_DEVICE_INFO, payload.as_slice())
    }

    /// Asks for the handle of a symbol.
    pub fn get_symbol_handle(&mut self, ams_port: u16, name: &str) -> (r: Result<
        Outgoing,
        AdsError,
    >)
        ensures
            old(self).asked(
                final(self),
                r,
                ams_port,
                CMD_READ_WRITE,
                read_write_payload(ADSIGRP_SYM_HNDBYNAME, 0, 4, name.spec_bytes()),
            ),
    {
        self.read_write(ams_port, ADSIGRP_SYM_HNDBYNAME, 0, 4, name.as_bytes())
    }

    /// Gives a symbol handle back.
    pub fn release_symbol_handle(&mut self, ams_port: u16, handle: u32) -> (r: Result<
        Outgoing,
        AdsError,
    >)
        ensures
            old(self).asked(
                final(self),
                r,
                ams_port,
                CMD_WRITE,
                write_payload(ADSIGRP_SYM_RELEASEHND, 0, bytes::le(handle as nat, 4)),
            ),
    {
        let mut data: Vec<u8> = Vec::new();
        bytes::push_le(&mut data, handle as u64, 4);
        proof {
            assert(data@ =~= bytes::le(handle as nat, 4));
        }
        self.write(ams_port, ADSIGRP_SYM_RELEASEHND, 0, data.as_slice())
    }

    /// Asks for type, size and address of a symbol. The reply is decoded by
    /// [`super::symbol::decode_symbol_entry`].
    pub fn get_symbol_info(&mut self, ams_port: u16, name: &str) -> (r: Result<Outgoing, AdsError>)
        ensures
            old(self).asked(
                final(self),
                r,
                ams_port,
                CMD_READ_WRITE,
                read_write_payload(ADSIGRP_SYM_INFOBYNAMEEX, 0, 1024, name.spec_bytes()),
            ),
    {
        self.read_write(ams_port, ADSIGRP_SYM_INFOBYNAMEEX, 0, 1024, name.as_bytes())
    }

    /// Reads a value by the handle of its symbol.
    pub fn read_by_handle(&mut self, ams_port: u16, handle: u32, length: u32) -> (r: Result<
        Outgoing,
        AdsError,
    >)
        ensures
            old(self).asked(
                final(self),
                r,
                ams_port,
                CMD_READ,
                read_payload(ADSIGRP_SYM_VALBYHND, handle, length),
            ),
    {
        self.read(ams_port, ADSIGRP_SYM_VALBYHND, handle, length)
    }

    /// Writes a value by the handle of its symbol.
    pub fn write_by_handle(&mut self, ams_port: u16, handle: u32, data: &[u8]) -> (r: Result<
        Outgoing,
        AdsError,
    >)
        ensures
            old(self).asked(
                final(self),
                r,
                ams_port,
                CMD_WRITE,
                write_payload(ADSIGRP_SYM_VALBYHND, handle, data@),
            ),
    {
        self.write(ams_port, ADSIGRP_SYM_VALBYHND, handle, data)
    }

    /// Subscribes to the changes of one variable. The times are in nanoseconds
    /// and travel in units of 100 ns.
    pub fn add_notification(
        &mut self,
        ams_port: u16,
        index_group: u32,
        index_offset: u32,
        length: u32,
        cycle_time_ns: u128,
        max_delay_ns: u128,
    ) -> (r: Result<Outgoing, AdsError>)
        ensures
            old(self).asked(
                final(self),
                r,
                ams_port,
                CMD_ADD_DEVICE_NOTIFICATION,
                frame::notification_request(
                    index_group,
                    index_offset,
                    length,
                    ADSTRANS_SERVERONCHA,
                    ticks_of(max_delay_ns as nat) as u32,
                    ticks_of(cycle_time_ns as nat) as u32,
                ),
            ),
    {
        let mut payload: Vec<u8> = Vec::new();
        let max_delay: u32 = duration_to_100ns(max_delay_ns);
        let cycle_time: u32 = duration_to_100ns(cycle_time_ns);
        frame::push_add_notification_request(
            &mut payload,
            index_group,
            index_offset,
            length,
            ADSTRANS_SERVERONCHA,
            max_delay,
            cycle_time,
        );
        proof {
            assert(payload@ =~= frame::notification_request(
                index_group,
                index_offset,
                length,
                ADSTRANS_SERVERONCHA,
                max_delay,
                cycle_time,
            ));
        }
        self.request(ams_port, CMD_ADD_DEVICE_NOTIFICATION, payload.as_slice())
    }

    /// Cancels a subscription.
    pub fn del_notification(&mut self, ams_port: u16, handle: u32) -> (r: Result<
        Outgoing,
        AdsError,
    >)
        ensures
            old(self).asked(
                final(self),
                r,
                ams_port,
                CMD_DEL_DEVICE_NOTIFICATION,
                bytes::le(handle as nat, 4),
            ),
    {
        let mut payload: Vec<u8> = Vec::new();
        bytes::push_le(&mut payload, handle as u64, 4);
        proof {
            assert(payload@ =~= bytes::le(handle as nat, 4));
        }
        self.request(ams_port, CMD_DEL_DEVICE_NOTIFICATION, payload.as_slice())
    }

    /// Sorts one incoming frame, given without its AMS/TCP header.
    ///
    /// An error code in the AoE header wins over the payload, which is then
    /// meaningless.
    pub fn receive(&mut self, body: &[u8]) -> (r: Incoming)
        ensures
            final(self).same_but_waiting(old(self)),
            ({
                let header = frame::HeaderView::decoded(body@.take(32));
                let payload = body@.skip(32);
                let id = header.invoke_id as u32;
                if body@.len() < AOE_HEADER_LEN {
                    r is Lost && final(self).waiting() == old(self).waiting()
                } else if header.cmd_id == CMD_DEVICE_NOTIFICATION {
                    &&& final(self).waiting() == old(self).waiting()
                    &&& match notification::parse_notification(payload) {
                        Ok(samples) => r is Samples && notification::views(r->Samples_0@)
                            == samples,
                        Err(_) => r is Ignored,
                    }
                } else if !old(self).waiting().contains(id) {
                    r is Ignored && final(self).waiting() == old(self).waiting()
                } else {
                    &&& final(self).waiting() == old(self).waiting().remove(id)
                    &&& r is Response
                    &&& r->invoke_id == id
                    &&& match r->result {
                        Ok(p) => header.error_code == 0 && p@ == payload,
                        Err(e) => header.error_code != 0 && e == AdsError::Ads(
                            header.error_code as u32,
                        ),
                    }
                }
            }),
    {
        let header = match AoeHeader::decode(body) {
            Ok(h) => h,
            Err(_) => return Incoming::Lost,
        };
        let payload = vstd::slice::slice_subrange(body, AOE_HEADER_LEN, body.len());
        proof {
            assert(payload@ =~= body@.skip(32));
        }
        if header.cmd_id == CMD_DEVICE_NOTIFICATION {
            return match notification::decode_notification(payload) {
                Ok(samples) => Incoming::Samples(samples),
                Err(_) => Incoming::Ignored,
            };
        }
        if !self.forget(header.invoke_id) {
            proof {
                assert(self.waiting() =~= old(self).waiting());
            }
            return Incoming::Ignored;
        }
        let result = if header.error_code != 0 {
            Err(AdsError::Ads(header.error_code))
        } else {
            let copy = bytes::copy_range(payload, 0, payload.len());
            proof {
                assert(copy@ =~= payload@);
            }
            Ok(copy)
        };
        Incoming::Response { invoke_id: header.invoke_id, result }
    }
}

/// A reply that has been delivered is not delivered again: the same frame,
/// received once more, finds nobody waiting.
pub proof fn law_a_reply_is_delivered_once(waiting: Set<u32>, id: u32)
    ensures
        !waiting.remove(id).contains(id),
        forall|other: u32|
            other != id ==> (waiting.remove(id).contains(other) <==> waiting.contains(other)),
{
}

/// The number of bytes that follow an AMS/TCP header, if the stream can go on
/// from there: a length that does not cover the AoE header cannot be right.
pub fn body_length(tcp_header: &[u8]) -> (r: Option<u32>)
    ensures
        match r {
            Some(n) => tcp_header@.len() >= AMS_TCP_HEADER_LEN && n == bytes::le_value(
                tcp_header@.subrange(2, 6),
            ) && n >= AOE_HEADER_LEN,
            None => tcp_header@.len() < AMS_TCP_HEADER_LEN || bytes::le_value(
                tcp_header@.subrange(2, 6),
            ) < AOE_HEADER_LEN,
        },
{
    match frame::decode_tcp_header(tcp_header) {
        Ok(n) => {
            if (n as usize) < AOE_HEADER_LEN {
                None
            } else {
                Some(n)
            }
        },
        Err(_) => None,
    }
}

/// A time in units of 100 ns, at most what 32 bits hold.
pub open spec fn ticks_of(nanos: nat) -> nat {
    if nanos / 100 > u32::MAX {
        u32::MAX as nat
    } else {
        nanos / 100
    }
}

/// Converts nanoseconds to units of 100 ns. A time that the field cannot hold
/// becomes the longest one: wrapping around would ask for a flood of
/// notifications.
pub fn duration_to_100ns(nanos: u128) -> (r: u32)
    ensures
        r == ticks_of(nanos as nat),
{
    let ticks: u128 = nanos / 100;
    if ticks > u32::MAX as u128 {
        u32::MAX
    } else {
        ticks as u32
    }
}

/// A longer time never becomes a shorter one on the wire.
pub proof fn law_ticks_are_monotone(a: nat, b: nat)
    requires
        a <= b,
    ensures
        ticks_of(a) <= ticks_of(b) <= u32::MAX,
{
}

/// The data of a read reply: a result word, a length, and that many bytes.
pub open spec fn parse_read(resp: Seq<u8>) -> Result<Seq<u8>, AdsError> {
    match frame::number(resp, 4) {
        Err(e) => Err(e),
        Ok((status, b)) => if status != 0 {
            Err(AdsError::Ads(status as u32))
        } else {
            match frame::number(b, 4) {
                Err(e) => Err(e),
                Ok((len, b)) => match frame::field(b, len) {
                    Err(e) => Err(e),
                    Ok((data, _)) => Ok(data),
                },
            }
        },
    }
}

/// The length that a read reply announces, if it is a success.
pub open spec fn announced(resp: Seq<u8>) -> Option<nat> {
    match frame::number(resp, 4) {
        Err(_) => None,
        Ok((status, b)) => if status != 0 {
            None
        } else {
            match frame::number(b, 4) {
                Err(_) => None,
                Ok((len, _)) => Some(len),
            }
        },
    }
}

/// The reply of a read that must give exactly `expected` bytes: fewer are an
/// error, and what goes beyond them is dropped.
pub fn decode_read_response(resp: &[u8], expected: usize) -> (r: Result<Vec<u8>, AdsError>)
    ensures
        match announced(resp@) {
            Some(len) => if len < expected {
                r is Err && r->Err_0 == (AdsError::ShortRead {
                    need: expected,
                    got: len as usize,
                })
            } else {
                match parse_read(resp@) {
                    Ok(data) => r is Ok && r->Ok_0@ == data.take(expected as int) && r->Ok_0@.len()
                        == expected,
                    Err(e) => r is Err && r->Err_0 == e,
                }
            },
            None => r is Err && parse_read(resp@) == Err::<Seq<u8>, AdsError>(r->Err_0),
        },
{
    let mut r = Reader::new(resp);
    let status = match r.u32() {
        Ok(v) => v,
        Err(e) => return Err(e),
    };
    match error::check(status) {
        Ok(_) => {},
        Err(e) => return Err(e),
    }
    let len: usize = match r.u32() {
        Ok(v) => v as usize,
        Err(e) => return Err(e),
    };
    if len < expected {
        return Err(AdsError::ShortRead { need: expected, got: len });
    }
    match r.bytes(len) {
        Ok(raw) => {
            let out = bytes::copy_range(raw, 0, expected);
            proof {
                assert(out@ =~= raw@.take(expected as int));
            }
            Ok(out)
        },
        Err(e) => Err(e),
    }
}

/// The reply of a read that may give any number of bytes.
pub fn decode_read_response_lenient(resp: &[u8]) -> (r: Result<Vec<u8>, AdsError>)
    ensures
        match r {
            Ok(v) => parse_read(resp@) == Ok::<Seq<u8>, AdsError>(v@),
            Err(e) => parse_read(resp@) == Err::<Seq<u8>, AdsError>(e),
        },
{
    let mut r = Reader::new(resp);
    let status = match r.u32() {
        Ok(v) => v,
        Err(e) => return Err(e),
    };
    match error::check(status) {
        Ok(_) => {},
        Err(e) => return Err(e),
    }
    let len: usize = match r.u32() {
        Ok(v) => v as usize,
        Err(e) => return Err(e),
    };
    match r.bytes(len) {
        Ok(raw) => {
            let out = bytes::copy_range(raw, 0, raw.len());
            proof {
                assert(out@ =~= raw@);
            }
            Ok(out)
        },
        Err(e) => Err(e),
    }
}

/// What a PLC answers to a read is what the client hands out.
pub proof fn law_read_reply_roundtrips(data: Seq<u8>, padding: Seq<u8>)
    requires
        data.len() < 0x1_0000_0000,
    ensures
        parse_read(bytes::le(0, 4) + bytes::le(data.len(), 4) + data + padding) == Ok::<
            Seq<u8>,
            AdsError,
        >(data),
{
    bytes::lemma_pow256_values();
    bytes::lemma_le_roundtrip(0, 4);
    bytes::lemma_le_roundtrip(data.len(), 4);
    let resp = bytes::le(0, 4) + bytes::le(data.len(), 4) + data + padding;
    let b1 = bytes::le(data.len(), 4) + data + padding;
    let b2 = data + padding;
    assert(resp.take(4) =~= bytes::le(0, 4));
    assert(resp.skip(4) =~= b1);
    assert(b1.take(4) =~= bytes::le(data.len(), 4));
    assert(b1.skip(4) =~= b2);
    assert(b2.take(data.len() as int) =~= data);
}

/// The reply of a command that only reports success.
pub fn decode_status(resp: &[u8]) -> (r: Result<(), AdsError>)
    ensures
        r == match frame::number(resp@, 4) {
            Err(e) => Err(e),
            Ok((status, _)) => error::checked(status as u32),
        },
{
    let mut r = Reader::new(resp);
    match r.u32() {
        Ok(v) => error::check(v),
        Err(e) => Err(e),
    }
}

/// A number behind a result word that reports success.
pub open spec fn parse_checked(resp: Seq<u8>) -> Result<Seq<u8>, AdsError> {
    match frame::number(resp, 4) {
        Err(e) => Err(e),
        Ok((status, rest)) => if status != 0 {
            Err(AdsError::Ads(status as u32))
        } else {
            Ok(rest)
        },
    }
}

/// The two states in the reply of a state request.
pub open spec fn parse_state(resp: Seq<u8>) -> Result<(nat, nat), AdsError> {
    match parse_checked(resp) {
        Err(e) => Err(e),
        Ok(b) => match frame::number(b, 2) {
            Err(e) => Err(e),
            Ok((ads, b)) => match frame::number(b, 2) {
                Err(e) => Err(e),
                Ok((device, _)) => Ok((ads, device)),
            },
        },
    }
}

/// The reply of a state request: the state of ADS and that of the device.
pub fn decode_state(resp: &[u8]) -> (r: Result<(AdsState, u16), AdsError>)
    ensures
        match parse_state(resp@) {
            Ok((ads, device)) => r is Ok && r->Ok_0.1 == device && (ads <= 20 ==> r->Ok_0.0.number()
                == ads) && (ads > 20 ==> r->Ok_0.0 == AdsState::Unknown),
            Err(e) => r is Err && r->Err_0 == e,
        },
{
    let mut r = Reader::new(resp);
    let status = match r.u32() {
        Ok(v) => v,
        Err(e) => return Err(e),
    };
    match error::check(status) {
        Ok(_) => {},
        Err(e) => return Err(e),
    }
    let ads = match r.u16() {
        Ok(v) => v,
        Err(e) => return Err(e),
    };
    match r.u16() {
        Ok(device) => Ok((AdsState::from_u16(ads), device)),
        Err(e) => Err(e),
    }
}

/// Name and version in the reply of a device information request: the version
/// triple, then a name of 16 bytes that ends at its first zero byte.
pub open spec fn parse_device_info(resp: Seq<u8>) -> Result<(Seq<char>, AdsVersion), AdsError> {
    match parse_checked(resp) {
        Err(e) => Err(e),
        Ok(b) => match frame::field(b, 1) {
            Err(e) => Err(e),
            Ok((version, b)) => match frame::field(b, 1) {
                Err(e) => Err(e),
                Ok((revision, b)) => match frame::number(b, 2) {
                    Err(e) => Err(e),
                    Ok((build, b)) => match frame::field(b, 16) {
                        Err(e) => Err(e),
                        Ok((name, _)) => Ok(
                            (
                                text::lossy(name.take(bytes::before_zero(name) as int)),
                                AdsVersion {
                                    version: version[0],
                                    revision: revision[0],
                                    build: build as u16,
                                },
                            ),
                        ),
                    },
                },
            },
        },
    }
}

/// The reply of a device information request.
pub fn decode_device_info(resp: &[u8]) -> (r: Result<(String, AdsVersion), AdsError>)
    ensures
        match parse_device_info(resp@) {
            Ok((name, version)) => r is Ok && r->Ok_0.0@ == name && r->Ok_0.1 == version,
            Err(e) => r is Err && r->Err_0 == e,
        },
{
    let mut r = Reader::new(resp);
    let status = match r.u32() {
        Ok(v) => v,
        Err(e) => return Err(e),
    };
    match error::check(status) {
        Ok(_) => {},
        Err(e) => return Err(e),
    }
    let version = match r.u8() {
        Ok(v) => v,
        Err(e) => return Err(e),
    };
    let revision = match r.u8() {
        Ok(v) => v,
        Err(e) => return Err(e),
    };
    let build = match r.u16() {
        Ok(v) => v,
        Err(e) => return Err(e),
    };
    let raw = match r.bytes(16) {
        Ok(v) => v,
        Err(e) => return Err(e),
    };
    proof {
        assert(raw@.skip(0) =~= raw@);
        bytes::lemma_before_zero(raw@);
    }
    let end: usize = bytes::count_before_zero(raw, 0);
    let part = vstd::slice::slice_subrange(raw, 0, end);
    proof {
        assert(part@ =~= raw@.take(end as int));
    }
    Ok((text::from_utf8_lossy(part), AdsVersion { version, revision, build }))
}

/// The handle at the front of the data of a reply.
pub fn decode_handle(data: &[u8]) -> (r: Result<u32, AdsError>)
    ensures
        match frame::number(data@, 4) {
            Ok((v, _)) => r is Ok && r->Ok_0 == v,
            Err(e) => r is Err && r->Err_0 == e,
        },
{
    let mut r = Reader::new(data);
    r.u32()
}

/// The handle of a subscription that was added.
pub fn decode_added_notification(resp: &[u8]) -> (r: Result<u32, AdsError>)
    ensures
        match parse_checked(resp@) {
            Err(e) => r is Err && r->Err_0 == e,
            Ok(b) => match frame::number(b, 4) {
                Ok((v, _)) => r is Ok && r->Ok_0 == v,
                Err(e) => r is Err && r->Err_0 == e,
            },
        },
{
    let mut r = Reader::new(resp);
    let status = match r.u32() {
        Ok(v) => v,
        Err(e) => return Err(e),
    };
    match error::check(status) {
        Ok(_) => r.u32(),
        Err(e) => Err(e),
    }
}

/// The address that a client uses: the configured one, or, where no Net Id is
/// configured, the one derived from the IPv4 address of the local end of the
/// connection. Without either there is none.
pub fn local_address(configured: AmsAddr, socket_ipv4: Option<[u8; 4]>) -> (r: Option<AmsAddr>)
    ensures
        ({
            let unset = forall|i: int| 0 <= i < 6 ==> configured.net_id@[i] == 0;
            match r {
                Some(a) => a.port == configured.port && (if unset {
                    socket_ipv4 is Some && a.net_id@ == socket_ipv4->0@ + seq![1u8, 1u8]
                } else {
                    a == configured
                }),
                None => unset && socket_ipv4 is None,
            }
        }),
{
    if !configured.net_id.is_zero() {
        return Some(configured);
    }
    match socket_ipv4 {
        Some(ip) => Some(AmsAddr { net_id: AmsNetId::from_ipv4(ip), port: configured.port }),
        None => None,
    }
}

/// A write sends the address, the number of bytes, and the bytes.
pub proof fn law_write_announces_its_bytes(index_group: u32, index_offset: u32, data: Seq<u8>)
    requires
        data.len() < 0x1_0000_0000,
    ensures
        ({
            let b = write_payload(index_group, index_offset, data);
            &&& b.len() == 12 + data.len()
            &&& bytes::le_value(b.subrange(0, 4)) == index_group
            &&& bytes::le_value(b.subrange(4, 8)) == index_offset
            &&& bytes::le_value(b.subrange(8, 12)) == data.len()
            &&& b.skip(12) == data
        }),
        read_payload(index_group, index_offset, data.len() as u32) == write_payload(
            index_group,
            index_offset,
            data,
        ).take(12),
{
    let n = data.len() as u32;
    frame::law_request_names_its_address(index_group, index_offset, n);
    let h = frame::request_header(index_group, index_offset, n);
    let b = write_payload(index_group, index_offset, data);
    assert(data.len() % 0x1_0000_0000 == data.len());
    assert(b.subrange(0, 4) =~= h.subrange(0, 4));
    assert(b.subrange(4, 8) =~= h.subrange(4, 8));
    assert(b.subrange(8, 12) =~= h.subrange(8, 12));
    assert(b.skip(12) =~= data);
    assert(b.take(12) =~= h);
}

/// A combined request names the length to read before the length it writes.
pub proof fn law_read_write_names_both_lengths(
    index_group: u32,
    index_offset: u32,
    read_length: u32,
    data: Seq<u8>,
)
    requires
        data.len() < 0x1_0000_0000,
    ensures
        ({
            let b = read_write_payload(index_group, index_offset, read_length, data);
            &&& b.len() == 16 + data.len()
            &&& b.take(12) == read_payload(index_group, index_offset, read_length)
            &&& bytes::le_value(b.subrange(8, 12)) == read_length
            &&& bytes::le_value(b.subrange(12, 16)) == data.len()
            &&& b.skip(16) == data
        }),
{
    frame::law_request_names_its_address(index_group, index_offset, read_length);
    let h = frame::request_header(index_group, index_offset, read_length);
    let b = read_write_payload(index_group, index_offset, read_length, data);
    bytes::lemma_pow256_values();
    bytes::lemma_le_roundtrip(data.len(), 4);
    assert(data.len() % 0x1_0000_0000 == data.len());
    assert(b.take(12) =~= h);
    assert(b.subrange(8, 12) =~= h.subrange(8, 12));
    assert(b.subrange(12, 16) =~= bytes::le(data.len(), 4));
    assert(b.skip(16) =~= data);
}

/// A request to change the state names the ADS state before the device state.
pub proof fn law_control_names_the_ads_state_first(ads_state: u16, device_state: u16, data: Seq<u8>)
    requires
        data.len() < 0x1_0000_0000,
    ensures
        ({
            let b = control_payload(ads_state, device_state, data);
            &&& b.len() == 8 + data.len()
            &&& bytes::le_value(b.subrange(0, 2)) == ads_state
            &&& bytes::le_value(b.subrange(2, 4)) == device_state
            &&& bytes::le_value(b.subrange(4, 8)) == data.len()
            &&& b.skip(8) == data
        }),
{
    let b = control_payload(ads_state, device_state, data);
    bytes::lemma_pow256_values();
    bytes::lemma_le_roundtrip(ads_state as nat, 2);
    bytes::lemma_le_roundtrip(device_state as nat, 2);
    bytes::lemma_le_roundtrip(data.len(), 4);
    assert(data.len() % 0x1_0000_0000 == data.len());
    assert(b.subrange(0, 2) =~= bytes::le(ads_state as nat, 2));
    assert(b.subrange(2, 4) =~= bytes::le(device_state as nat, 2));
    assert(b.subrange(4, 8) =~= bytes::le(data.len(), 4));
    assert(b.skip(8) =~= data);
}

/// The states of a port read back from a reply in the order in which they are
/// sent, and an error of the PLC is that error.
pub proof fn law_state_reply_reads_back(
    ads_state: u16,
    device_state: u16,
    code: u32,
    rest: Seq<u8>,
)
    ensures
        parse_state(
            bytes::le(0, 4) + bytes::le(ads_state as nat, 2) + bytes::le(device_state as nat, 2)
                + rest,
        ) == Ok::<(nat, nat), AdsError>((ads_state as nat, device_state as nat)),
        code != 0 ==> parse_state(bytes::le(code as nat, 4) + rest) == Err::<(nat, nat), AdsError>(
            AdsError::Ads(code),
        ),
        code != 0 ==> parse_read(bytes::le(code as nat, 4) + rest) == Err::<Seq<u8>, AdsError>(
            AdsError::Ads(code),
        ),
        code != 0 ==> parse_checked(bytes::le(code as nat, 4) + rest) == Err::<Seq<u8>, AdsError>(
            AdsError::Ads(code),
        ),
{
    bytes::lemma_pow256_values();
    bytes::lemma_le_roundtrip(0, 4);
    bytes::lemma_le_roundtrip(code as nat, 4);
    bytes::lemma_le_roundtrip(ads_state as nat, 2);
    bytes::lemma_le_roundtrip(device_state as nat, 2);
    let b = bytes::le(0, 4) + bytes::le(ads_state as nat, 2) + bytes::le(device_state as nat, 2)
        + rest;
    assert(b.take(4) =~= bytes::le(0, 4));
    let c = b.skip(4);
    assert(c.take(2) =~= bytes::le(ads_state as nat, 2));
    assert(c.skip(2).take(2) =~= bytes::le(device_state as nat, 2));
    let e = bytes::le(code as nat, 4) + rest;
    assert(e.take(4) =~= bytes::le(code as nat, 4));
}

/// The version of a device is its three numbers, the build last, before its
/// name.
pub proof fn law_device_info_reads_back(v: AdsVersion, name: Seq<u8>, rest: Seq<u8>)
    requires
        name.len() == 16,
    ensures
        parse_device_info(
            bytes::le(0, 4) + seq![v.version, v.revision] + bytes::le(v.build as nat, 2) + name
                + rest,
        ) == Ok::<(Seq<char>, AdsVersion), AdsError>(
            (text::lossy(name.take(bytes::before_zero(name) as int)), v),
        ),
{
    bytes::lemma_pow256_values();
    bytes::lemma_le_roundtrip(0, 4);
    bytes::lemma_le_roundtrip(v.build as nat, 2);
    let b = bytes::le(0, 4) + seq![v.version, v.revision] + bytes::le(v.build as nat, 2) + name
        + rest;
    assert(b.take(4) =~= bytes::le(0, 4));
    let c = b.skip(4);
    assert(c.take(1)[0] == v.version);
    assert(c.skip(1).take(1)[0] == v.revision);
    let d = c.skip(1).skip(1);
    assert(d.take(2) =~= bytes::le(v.build as nat, 2));
    assert(d.skip(2).take(16) =~= name);
}

/// A header of a request goes from this side to the AMS port of the PLC, as a
/// request without an error.
pub proof fn law_request_goes_to_its_port(
    target_net: Seq<u8>,
    target_port: u16,
    source: AmsAddr,
    cmd_id: u16,
    payload_len: nat,
    invoke_id: u32,
)
    requires
        payload_len < 0x1_0000_0000,
    ensures
        ({
            let h = request_view(target_net, target_port, source, cmd_id, payload_len, invoke_id);
            &&& h.target_net == target_net && h.target_port == target_port
            &&& h.source_net == source.net_id@ && h.source_port == source.port
            &&& h.cmd_id == cmd_id && h.state_flags == 4 && h.error_code == 0
            &&& h.length == payload_len && h.invoke_id == invoke_id
        }),
{
}

/// A time is sent in tenths of a microsecond; one too long for the field as the
/// longest that it holds.
pub proof fn law_times_are_sent_in_tenths(nanos: nat)
    ensures
        nanos < 429_496_729_600 ==> ticks_of(nanos) * 100 <= nanos < ticks_of(nanos) * 100 + 100,
        nanos >= 429_496_729_600 ==> ticks_of(nanos) == 0xffff_ffff,
{
}

/// A request that goes out carries a fresh number that a reply is then waited
/// for under, the address of the PLC, and its payload; without a connection
/// nothing goes out and nothing changes.
pub proof fn law_request_is_numbered_and_addressed(
    before: &AdsClient,
    after: &AdsClient,
    r: Result<Outgoing, AdsError>,
    ams_port: u16,
    cmd_id: u16,
    payload: Seq<u8>,
)
    requires
        before.asked(after, r, ams_port, cmd_id, payload),
        32 + payload.len() < 0x1_0000_0000,
        before.target().len() == 6,
    ensures
        before.up() <==> r is Ok,
        before.up() ==> ({
            let f = r->Ok_0.frame@;
            let h = frame::HeaderView::decoded(f.subrange(6, 38));
            &&& h.target_net == before.target() && h.target_port == ams_port
            &&& h.source_net == before.source().net_id@ && h.source_port == before.source().port
            &&& h.cmd_id == cmd_id && h.state_flags == 4 && h.error_code == 0
            &&& h.length == payload.len() && h.invoke_id == before.next()
            &&& f.skip(38) == payload
            &&& r->Ok_0.invoke_id == before.next()
            &&& after.waiting().contains(before.next())
            &&& after.next() != before.next()
        }),
        !before.up() ==> after.waiting() == before.waiting() && after.next() == before.next(),
{
    if before.up() {
        let h = request_view(
            before.target(),
            ams_port,
            before.source(),
            cmd_id,
            payload.len(),
            before.next(),
        );
        assert(payload.len() % 0x1_0000_0000 == payload.len());
        assert(before.source().net_id@.len() == 6);
        assert(h.fits());
        frame::law_frame_announces_its_length(h, payload);
    }
}

} // verus!
