//! The SCServo packet protocol over a half-duplex serial line.
//!
//! A request is `0xFF 0xFF id length instruction params checksum`, with
//! `length = params.len() + 2` and `checksum = !(id + length + instruction +
//! sum(params))` truncated to a byte. A response has the same shape with an
//! error byte in place of the instruction.
//!
//! The byte transport is a [`SerialLink`], reached only through a
//! [`Channel`](crate::link::Channel), which records every packet handed to it
//! and every run of bytes read from it in a ghost history of [`LinkEvent`]s.
//! Each operation states its result as a function of the events it appended,
//! whatever the link did. The channel is the trust boundary: that it records
//! what it hands to the link and what the link reports is read from its
//! code, not proved (see [`crate::link`]).

use vstd::prelude::*;

use crate::error::ProtocolError;
use crate::frame::{consumed_minimally, scan, scan_step, FrameReader, ScanState, HEADER_BYTE};
use crate::link::Channel;
pub use crate::link::{LinkEvent, SerialLink};
use crate::types::Instruction;
use crate::{BROADCAST_ID, MAX_SERVO_ID};

verus! {

/// Sum of the bytes of `s`.
pub open spec fn byte_sum(s: Seq<u8>) -> nat
    decreases s.len(),
{
    if s.len() == 0 {
        0
    } else {
        byte_sum(s.drop_last()) + s.last() as nat
    }
}

/// The checksum byte covering `s`: the complement of the low byte of its sum.
pub open spec fn checksum_of(s: Seq<u8>) -> u8 {
    (255 - byte_sum(s) % 256) as u8
}

/// The packet `0xFF 0xFF id length code params checksum`, where `code` is an
/// instruction (requests) or an error byte (responses).
pub open spec fn packet(id: u8, code: u8, params: Seq<u8>) -> Seq<u8> {
    let length = (params.len() + 2) as u8;
    seq![HEADER_BYTE, HEADER_BYTE, id, length, code] + params + seq![
        checksum_of(seq![id, length, code] + params),
    ]
}

/// What a response read by a frame reader that stopped in state `s` yields,
/// when `response_len` parameter bytes are expected from servo `expected_id`.
pub open spec fn frame_outcome<E>(expected_id: u8, response_len: nat, s: ScanState) -> Result<
    Seq<u8>,
    ProtocolError<E>,
> {
    match s {
        ScanState::Complete { id, length, body } => {
            let params = body.subrange(1, length - 1);
            if params.len() != response_len {
                Err(ProtocolError::InvalidLength)
            } else if checksum_of(seq![id, length] + body.take(length - 1)) != body[length - 1] {
                Err(ProtocolError::Checksum)
            } else if id != expected_id {
                Err(ProtocolError::InvalidId)
            } else if body[0] != 0 {
                Err(ProtocolError::ServoError(body[0]))
            } else {
                Ok(params)
            }
        },
        // The length byte was below 2, or the input ended before a whole frame.
        _ => Err(ProtocolError::InvalidLength),
    }
}

/// What reading a response yields when the link handed over `bytes` and reported `link`.
pub open spec fn reply_outcome<E>(
    expected_id: u8,
    response_len: nat,
    bytes: Seq<u8>,
    link: Result<(), E>,
) -> Result<Seq<u8>, ProtocolError<E>> {
    match link {
        Err(e) => Err(ProtocolError::Serial(e)),
        Ok(_) => frame_outcome(expected_id, response_len, scan(bytes)),
    }
}

/// `new` is `old` followed by more events.
pub open spec fn extends<T>(old: Seq<T>, new: Seq<T>) -> bool {
    new.len() >= old.len() && new.take(old.len() as int) == old
}

/// The events of `new` after the prefix `old`.
pub open spec fn added<T>(old: Seq<T>, new: Seq<T>) -> Seq<T> {
    new.skip(old.len() as int)
}

/// A history extends itself by nothing.
pub proof fn lemma_extends_refl<T>(s: Seq<T>)
    ensures
        extends(s, s),
        added(s, s) == Seq::<T>::empty(),
{
    assert(s.take(s.len() as int) =~= s);
    assert(added(s, s) =~= Seq::<T>::empty());
}

/// Extensions compose, and what they add concatenates.
pub proof fn lemma_extends_trans<T>(a: Seq<T>, b: Seq<T>, c: Seq<T>)
    requires
        extends(a, b),
        extends(b, c),
    ensures
        extends(a, c),
        added(a, c) == added(a, b) + added(b, c),
{
    assert(c.take(a.len() as int) =~= c.take(b.len() as int).take(a.len() as int));
    assert(c.take(a.len() as int) =~= a);
    assert(added(a, c) =~= added(a, b) + added(b, c));
}

/// `id` addresses one servo.
pub open spec fn is_unicast(id: u8) -> bool {
    id <= MAX_SERVO_ID
}

/// Reading one response from servo `expected_id`, as a prefix of `ev`:
/// the outcome and the number of events it spans, or `None` when `ev` does
/// not start with such a read.
pub open spec fn receive_effect<E>(expected_id: u8, response_len: nat, ev: Seq<LinkEvent<E>>) -> Option<
    (Result<Seq<u8>, ProtocolError<E>>, nat),
> {
    if !is_unicast(expected_id) {
        Some((Err(ProtocolError::InvalidId), 0))
    } else if ev.len() >= 1 && ev[0] is Received && consumed_minimally(ev[0]->Received_bytes) {
        Some((reply_outcome(expected_id, response_len, ev[0]->Received_bytes, ev[0]->Received_outcome), 1))
    } else {
        None
    }
}

/// A transfer waits for a response: never on broadcast; with response
/// level 0 only for PING and READ.
pub open spec fn awaits_reply(level: bool, id: u8, instruction: Instruction) -> bool {
    id != BROADCAST_ID && (level || instruction is Ping || instruction is Read)
}

/// The checks a transfer makes before it writes anything.
pub open spec fn transfer_precheck<E>(id: u8, params_len: nat, response_len: nat) -> Result<(), ProtocolError<E>> {
    if id == BROADCAST_ID && response_len > 0 {
        Err(ProtocolError::InvalidId)
    } else if !(is_unicast(id) || id == BROADCAST_ID) {
        Err(ProtocolError::InvalidId)
    } else if params_len + 2 > 255 {
        Err(ProtocolError::InvalidLength)
    } else {
        Ok(())
    }
}

/// One transfer (request, then the response when one is awaited), as a prefix
/// of `ev`. `Ok(None)`: no response was awaited; `Ok(Some(p))`: response parameters.
pub open spec fn transfer_effect<E>(
    level: bool,
    id: u8,
    instruction: Instruction,
    params: Seq<u8>,
    response_len: nat,
    ev: Seq<LinkEvent<E>>,
) -> Option<(Result<Option<Seq<u8>>, ProtocolError<E>>, nat)> {
    match transfer_precheck::<E>(id, params.len(), response_len) {
        Err(e) => Some((Err(e), 0)),
        Ok(_) => if ev.len() >= 1 && ev[0] is Sent && ev[0]->Sent_packet == packet(
            id,
            instruction.spec_code(),
            params,
        ) {
            match ev[0]->Sent_outcome {
                Err(e) => Some((Err(ProtocolError::Serial(e)), 1)),
                Ok(_) => if awaits_reply(level, id, instruction) {
                    match receive_effect(id, response_len, ev.skip(1)) {
                        Some((Ok(p), n)) => Some((Ok(Some(p)), n + 1)),
                        Some((Err(e), n)) => Some((Err(e), n + 1)),
                        None => None,
                    }
                } else {
                    Some((Ok(None), 1))
                },
            }
        } else {
            None
        },
    }
}

/// An operation that fills a response buffer returned `r`, turning the buffer
/// from `old_buf` into `new_buf`, as `spec` describes.
pub open spec fn buffer_result<E>(
    spec: Result<Option<Seq<u8>>, ProtocolError<E>>,
    r: Result<usize, ProtocolError<E>>,
    old_buf: Seq<u8>,
    new_buf: Seq<u8>,
) -> bool {
    match spec {
        Ok(Some(p)) => r == Ok::<usize, ProtocolError<E>>(p.len() as usize) && new_buf == p,
        Ok(None) => r == Ok::<usize, ProtocolError<E>>(0) && new_buf == old_buf,
        Err(e) => r == Err::<usize, ProtocolError<E>>(e) && new_buf == old_buf,
    }
}

/// A response outcome as the outcome of an operation that awaited it.
pub open spec fn awaited<E>(r: Result<Seq<u8>, ProtocolError<E>>) -> Result<Option<Seq<u8>>, ProtocolError<E>> {
    match r {
        Ok(p) => Ok(Some(p)),
        Err(e) => Err(e),
    }
}

/// `(spec, n)` describes `ev` exactly: the effect is defined and spans all of `ev`.
pub open spec fn spans<R>(effect: Option<(R, nat)>, ev_len: nat) -> bool {
    effect is Some && effect.unwrap().1 == ev_len
}

/// The ID byte of entry `i` of a sync-write payload with entries of `entry_len` bytes.
pub open spec fn entry_id(payload: Seq<u8>, entry_len: nat, i: int) -> u8 {
    payload[i * entry_len]
}

/// The checks a sync write makes on its payload: entries of `data_len + 1`
/// bytes, each starting with a unicast ID.
pub open spec fn sync_write_check<E>(data_len: u8, payload: Seq<u8>) -> Result<(), ProtocolError<E>> {
    let entry_len = data_len + 1;
    if data_len == 0 || payload.len() == 0 || payload.len() % entry_len as nat != 0 {
        Err(ProtocolError::InvalidLength)
    } else if exists|i: int|
        0 <= i < payload.len() / entry_len as nat && !is_unicast(
            #[trigger] entry_id(payload, entry_len as nat, i),
        ) {
        Err(ProtocolError::InvalidId)
    } else {
        Ok(())
    }
}

/// The checks a sync read makes on its arguments.
pub open spec fn sync_read_check<E>(data_len: u8, ids: Seq<u8>) -> Result<(), ProtocolError<E>> {
    if data_len == 0 || ids.len() == 0 {
        Err(ProtocolError::InvalidLength)
    } else if exists|i: int| 0 <= i < ids.len() && !is_unicast(#[trigger] ids[i]) {
        Err(ProtocolError::InvalidId)
    } else {
        Ok(())
    }
}

/// The result of an operation whose only product is success.
pub open spec fn unit_of<T, E>(r: Result<T, ProtocolError<E>>) -> Result<(), ProtocolError<E>> {
    match r {
        Ok(_) => Ok(()),
        Err(e) => Err(e),
    }
}

/// Sending the broadcast SYNC READ request, as a prefix of `ev`.
pub open spec fn sync_read_request_effect<E>(
    address: u8,
    data_len: u8,
    ids: Seq<u8>,
    ev: Seq<LinkEvent<E>>,
) -> Option<(Result<(), ProtocolError<E>>, nat)> {
    match sync_read_check::<E>(data_len, ids) {
        Err(e) => Some((Err(e), 0)),
        Ok(_) => if ids.len() + 4 > 255 {
            Some((Err(ProtocolError::InvalidLength), 0))
        } else if ev.len() >= 1 && ev[0] is Sent && ev[0]->Sent_packet == packet(
            BROADCAST_ID,
            Instruction::SyncRead.spec_code(),
            seq![address, data_len] + ids,
        ) {
            match ev[0]->Sent_outcome {
                Ok(_) => Some((Ok(()), 1)),
                Err(e) => Some((Err(ProtocolError::Serial(e)), 1)),
            }
        } else {
            None
        },
    }
}

/// Reading one response per ID of `ids`, in order, stopping at the first
/// failure, as a prefix of `ev`: the responses read, the failure if any, and
/// the number of events spanned.
pub open spec fn replies_effect<E>(ids: Seq<u8>, data_len: nat, ev: Seq<LinkEvent<E>>) -> Option<
    (Seq<Seq<u8>>, Option<ProtocolError<E>>, nat),
>
    decreases ids.len(),
{
    if ids.len() == 0 {
        Some((Seq::empty(), None, 0))
    } else {
        match replies_effect(ids.drop_last(), data_len, ev) {
            None => None,
            Some((rs, Some(e), n)) => Some((rs, Some(e), n)),
            Some((rs, None, n)) => match receive_effect(ids.last(), data_len, ev.skip(n as int)) {
                None => None,
                Some((Ok(p), m)) => Some((rs.push(p), None, n + m)),
                Some((Err(e), m)) => Some((rs, Some(e), n + m)),
            },
        }
    }
}

/// `out` is `old` with chunk `k` (bytes `k * len ..`) replaced by `rs[k]` for
/// every response in `rs`.
pub open spec fn chunks_written(old: Seq<u8>, out: Seq<u8>, rs: Seq<Seq<u8>>, len: nat) -> bool {
    &&& out.len() == old.len()
    &&& forall|k: int, t: int|
        0 <= k < rs.len() && 0 <= t < len ==> out[k * len + t] == #[trigger] rs[k][t]
    &&& forall|j: int| rs.len() * len <= j < out.len() ==> out[j] == old[j]
}

/// The effect of reading responses depends only on the events it spans.
pub proof fn lemma_replies_prefix<E>(ids: Seq<u8>, data_len: nat, ev: Seq<LinkEvent<E>>, extra: Seq<LinkEvent<E>>)
    requires
        replies_effect(ids, data_len, ev) is Some,
    ensures
        replies_effect(ids, data_len, ev).unwrap().2 <= ev.len(),
        replies_effect(ids, data_len, ev + extra) == replies_effect(ids, data_len, ev),
    decreases ids.len(),
{
    if ids.len() > 0 {
        lemma_replies_prefix(ids.drop_last(), data_len, ev, extra);
        if let Some((rs, None, n)) = replies_effect(ids.drop_last(), data_len, ev) {
            assert((ev + extra).skip(n as int) =~= ev.skip(n as int) + extra);
            if ev.skip(n as int).len() >= 1 {
                assert((ev.skip(n as int) + extra)[0] == ev.skip(n as int)[0]);
            }
        }
    }
}

/// A whole SYNC READ (checks, request, then one response per ID), as a prefix
/// of `ev`; on success, the responses in the order of `ids`.
pub open spec fn sync_read_effect<E>(
    address: u8,
    data_len: u8,
    ids: Seq<u8>,
    output_len: nat,
    ev: Seq<LinkEvent<E>>,
) -> Option<(Result<Seq<Seq<u8>>, ProtocolError<E>>, nat)> {
    match sync_read_check::<E>(data_len, ids) {
        Err(e) => Some((Err(e), 0)),
        Ok(_) => if ids.len() * data_len > output_len {
            Some((Err(ProtocolError::InvalidLength), 0))
        } else {
            match sync_read_request_effect(address, data_len, ids, ev) {
                None => None,
                Some((Err(e), n)) => Some((Err(e), n)),
                Some((Ok(_), n)) => match replies_effect(ids, data_len as nat, ev.skip(n as int)) {
                    None => None,
                    Some((rs, None, m)) => Some((Ok(rs), n + m)),
                    Some((_, Some(e), m)) => Some((Err(e), n + m)),
                },
            }
        },
    }
}

/// When every response arrives, there is one per ID, each `data_len` bytes.
pub proof fn lemma_replies_shape<E>(ids: Seq<u8>, data_len: nat, ev: Seq<LinkEvent<E>>)
    requires
        replies_effect(ids, data_len, ev) matches Some((_, None, _)),
    ensures
        replies_effect(ids, data_len, ev).unwrap().0.len() == ids.len(),
        forall|i: int|
            0 <= i < ids.len() ==> (#[trigger] replies_effect(ids, data_len, ev).unwrap().0[i]).len()
                == data_len,
    decreases ids.len(),
{
    if ids.len() > 0 {
        lemma_replies_shape(ids.drop_last(), data_len, ev);
    }
}

/// `after` is `before` once a SYNC WRITE of `payload` (entries of an ID and
/// `data_len` bytes for the registers from `address` on) returned `r`.
pub open spec fn sync_write_done<L: SerialLink>(
    after: UartBusInterface<L>,
    before: UartBusInterface<L>,
    address: u8,
    data_len: u8,
    payload: Seq<u8>,
    r: Result<(), ProtocolError<L::Error>>,
) -> bool {
    let ev = added(before.history(), after.history());
    &&& after.same_config(&before)
    &&& extends(before.history(), after.history())
    &&& match sync_write_check::<L::Error>(data_len, payload) {
        Err(e) => ev.len() == 0 && r == Err::<(), ProtocolError<L::Error>>(e),
        Ok(_) => {
            let eff = transfer_effect(
                before.status_level(),
                BROADCAST_ID,
                Instruction::SyncWrite,
                seq![address, data_len] + payload,
                0,
                ev,
            );
            spans(eff, ev.len()) && r == unit_of(eff.unwrap().0)
        },
    }
}

/// The effect of the SYNC READ request depends only on the events it spans.
pub proof fn lemma_transfer_free_prefix<E>(
    address: u8,
    data_len: u8,
    ids: Seq<u8>,
    ev: Seq<LinkEvent<E>>,
    extra: Seq<LinkEvent<E>>,
)
    requires
        sync_read_request_effect(address, data_len, ids, ev) is Some,
    ensures
        sync_read_request_effect(address, data_len, ids, ev + extra) == sync_read_request_effect(
            address,
            data_len,
            ids,
            ev,
        ),
{
    if ev.len() >= 1 {
        assert((ev + extra)[0] == ev[0]);
    }
}

/// Once a response fails, the remaining IDs are not read.
pub proof fn lemma_replies_stop<E>(
    ids: Seq<u8>,
    more: Seq<u8>,
    data_len: nat,
    ev: Seq<LinkEvent<E>>,
    rs: Seq<Seq<u8>>,
    e: ProtocolError<E>,
)
    requires
        replies_effect(ids, data_len, ev) == Some((rs, Some(e), ev.len())),
    ensures
        replies_effect(ids + more, data_len, ev) == Some((rs, Some(e), ev.len())),
    decreases more.len(),
{
    if more.len() == 0 {
        assert(ids + more =~= ids);
    } else {
        lemma_replies_stop(ids, more.drop_last(), data_len, ev, rs, e);
        assert((ids + more).drop_last() =~= ids + more.drop_last());
    }
}

/// Writing the next response into its chunk.
pub proof fn lemma_chunks_push(
    old: Seq<u8>,
    out: Seq<u8>,
    out2: Seq<u8>,
    rs: Seq<Seq<u8>>,
    c: Seq<u8>,
    len: nat,
)
    requires
        chunks_written(old, out, rs, len),
        c.len() == len,
        (rs.len() + 1) * len <= out.len(),
        out2.len() == out.len(),
        forall|t: int| 0 <= t < len ==> out2[rs.len() * len + t] == c[t],
        forall|j: int|
            0 <= j < out.len() && !(rs.len() * len <= j < rs.len() * len + len) ==> out2[j] == out[j],
    ensures
        chunks_written(old, out2, rs.push(c), len),
{
    let i = rs.len();
    assert((i + 1) * len == i * len + len) by (nonlinear_arith);
    assert forall|k: int, t: int| 0 <= k < i + 1 && 0 <= t < len implies out2[k * len + t]
        == #[trigger] rs.push(c)[k][t] by {
        if k < i {
            assert(k * len + t < i * len) by (nonlinear_arith)
                requires
                    0 <= k < i,
                    0 <= t < len,
            ;
            assert(0 <= k * len) by (nonlinear_arith)
                requires
                    0 <= k,
                    0 <= len,
            ;
            assert(rs.push(c)[k] == rs[k]);
            assert(out2[k * len + t] == out[k * len + t]);
            assert(out[k * len + t] == rs[k][t]);
        } else {
            assert(k == i);
            assert(rs.push(c)[k] == c);
            assert(out2[i * len + t] == c[t]);
        }
    }
    assert forall|j: int| (i + 1) * len <= j < out2.len() implies out2[j] == old[j] by {
        assert((i + 1) * len == i * len + len) by (nonlinear_arith);
    }
}

/// The state a fresh reader reaches after the first `k` bytes of a frame
/// with the given ID, length byte and body.
pub open spec fn frame_prefix_state(id: u8, length: u8, body: Seq<u8>, k: int) -> ScanState {
    if k == 0 {
        ScanState::SeekFirst
    } else if k == 1 {
        ScanState::SeekSecond
    } else if k == 2 {
        ScanState::Id
    } else if k == 3 {
        ScanState::Length { id }
    } else if k - 4 < length {
        ScanState::Body { id, length, body: body.take(k - 4) }
    } else {
        ScanState::Complete { id, length, body }
    }
}

/// Reading one more byte of `p`.
proof fn lemma_scan_take(p: Seq<u8>, k: int)
    requires
        0 < k <= p.len(),
    ensures
        scan(p.take(k)) == scan_step(scan(p.take(k - 1)), p[k - 1]),
{
    assert(p.take(k).drop_last() =~= p.take(k - 1));
}

/// The reader on every prefix of a packet.
proof fn lemma_packet_prefix(id: u8, code: u8, params: Seq<u8>, k: int)
    requires
        params.len() <= 253,
        0 <= k <= params.len() + 6,
    ensures
        scan(packet(id, code, params).take(k)) == frame_prefix_state(
            id,
            (params.len() + 2) as u8,
            seq![code] + params + seq![checksum_of(seq![id, (params.len() + 2) as u8, code] + params)],
            k,
        ),
    decreases k,
{
    let p = packet(id, code, params);
    let length = (params.len() + 2) as u8;
    let body = seq![code] + params + seq![checksum_of(seq![id, length, code] + params)];
    assert(p =~= seq![HEADER_BYTE, HEADER_BYTE, id, length] + body);
    assert(length as int == params.len() + 2);
    assert(body.len() == length);
    if k == 0 {
        assert(p.take(0) =~= Seq::<u8>::empty());
    } else {
        lemma_packet_prefix(id, code, params, k - 1);
        lemma_scan_take(p, k);
        if k <= 4 {
            assert(p[0] == HEADER_BYTE && p[1] == HEADER_BYTE && p[2] == id && p[3] == length);
            if k == 4 {
                assert(body.take(0) =~= Seq::<u8>::empty());
            }
        } else {
            assert(p[k - 1] == body[k - 5]);
            assert(body.take(k - 4) =~= body.take(k - 5).push(p[k - 1]));
            if k - 4 == length {
                assert(body.take(k - 4) =~= body);
            }
        }
    }
}

/// A packet is read back whole: a frame reader fed a packet consumes every
/// byte of it and stops at the last one, with the packet's ID, length byte
/// and body (code, parameters, checksum).
pub proof fn lemma_packet_scans_whole(id: u8, code: u8, params: Seq<u8>)
    requires
        params.len() <= 253,
    ensures
        scan(packet(id, code, params)) == (ScanState::Complete {
            id,
            length: (params.len() + 2) as u8,
            body: seq![code] + params + seq![checksum_of(seq![id, (params.len() + 2) as u8, code] + params)],
        }),
        consumed_minimally(packet(id, code, params)),
{
    let p = packet(id, code, params);
    lemma_packet_prefix(id, code, params, p.len() as int);
    assert(p.take(p.len() as int) =~= p);
    assert forall|k: int| 0 <= k < p.len() implies !(#[trigger] scan(p.take(k))).is_terminal() by {
        lemma_packet_prefix(id, code, params, k);
    }
}

/// A response packet decodes to what the servo sent: its parameters when it
/// comes from the expected servo with error byte 0, the servo's error
/// otherwise; a response of another length or from another servo is refused.
pub proof fn lemma_response_round_trip<E>(id: u8, error: u8, params: Seq<u8>)
    requires
        params.len() <= 253,
    ensures
        frame_outcome::<E>(id, params.len(), scan(packet(id, error, params))) == if error == 0 {
            Ok::<Seq<u8>, ProtocolError<E>>(params)
        } else {
            Err(ProtocolError::ServoError(error))
        },
        forall|other: u8|
            other != id ==> frame_outcome::<E>(other, params.len(), #[trigger] scan(packet(id, error, params)))
                == Err::<Seq<u8>, ProtocolError<E>>(ProtocolError::InvalidId),
        forall|n: nat|
            n != params.len() ==> #[trigger] frame_outcome::<E>(id, n, scan(packet(id, error, params)))
                == Err::<Seq<u8>, ProtocolError<E>>(ProtocolError::InvalidLength),
{
    lemma_packet_scans_whole(id, error, params);
    let length = (params.len() + 2) as u8;
    let body = seq![error] + params + seq![checksum_of(seq![id, length, error] + params)];
    assert(body.subrange(1, length - 1) =~= params);
    assert(seq![id, length] + body.take(length - 1) =~= seq![id, length, error] + params);
}

/// A request answered by a valid response: the transfer sends the request
/// packet, reads the response, and returns the servo's parameters (or its
/// error), spanning exactly those two events.
pub proof fn lemma_transfer_round_trip<E>(
    level: bool,
    id: u8,
    instruction: Instruction,
    params: Seq<u8>,
    error: u8,
    reply: Seq<u8>,
)
    requires
        is_unicast(id),
        params.len() <= 253,
        reply.len() <= 253,
        awaits_reply(level, id, instruction),
    ensures
        transfer_effect::<E>(
            level,
            id,
            instruction,
            params,
            reply.len(),
            seq![
                LinkEvent::Sent { packet: packet(id, instruction.spec_code(), params), outcome: Ok(()) },
                LinkEvent::Received { bytes: packet(id, error, reply), outcome: Ok(()) },
            ],
        ) == Some(
            (
                if error == 0 {
                    Ok::<Option<Seq<u8>>, ProtocolError<E>>(Some(reply))
                } else {
                    Err(ProtocolError::ServoError(error))
                },
                2nat,
            ),
        ),
{
    lemma_response_round_trip::<E>(id, error, reply);
    lemma_packet_scans_whole(id, error, reply);
    let ev = seq![
        LinkEvent::Sent { packet: packet(id, instruction.spec_code(), params), outcome: Ok::<(), E>(()) },
        LinkEvent::Received { bytes: packet(id, error, reply), outcome: Ok::<(), E>(()) },
    ];
    assert(ev.skip(1) =~= seq![LinkEvent::Received { bytes: packet(id, error, reply), outcome: Ok::<(), E>(()) }]);
    assert(ev.skip(1)[0] is Received);
    assert(receive_effect::<E>(id, reply.len(), ev.skip(1)) == Some(
        (reply_outcome::<E>(id, reply.len(), packet(id, error, reply), Ok(())), 1nat),
    ));
}

/// A transfer that awaits no response (every broadcast, and with response
/// level 0 every instruction but PING and READ) reads nothing back: it spans
/// at most its request, and a broadcast that asks for response bytes is
/// refused before anything is sent.
pub proof fn lemma_unanswered_transfer<E>(
    level: bool,
    id: u8,
    instruction: Instruction,
    params: Seq<u8>,
    response_len: nat,
    ev: Seq<LinkEvent<E>>,
)
    requires
        !awaits_reply(level, id, instruction),
        transfer_effect::<E>(level, id, instruction, params, response_len, ev) is Some,
    ensures
        transfer_effect::<E>(level, id, instruction, params, response_len, ev).unwrap().1 <= 1,
        transfer_effect::<E>(level, id, instruction, params, response_len, ev).unwrap().0 matches Ok(reply)
            ==> reply is None,
        id == BROADCAST_ID && response_len > 0 ==> transfer_effect::<E>(
            level,
            id,
            instruction,
            params,
            response_len,
            ev,
        ) == Some((Err::<Option<Seq<u8>>, ProtocolError<E>>(ProtocolError::InvalidId), 0nat)),
{
}

/// Firmware and servo version bytes from the standard control table.
#[derive(Debug, Clone, Copy, PartialEq, Eq, Structural)]
pub struct VersionInformation {
    /// Firmware major version (control-table address 0).
    pub firmware_major: u8,
    /// Firmware minor version (control-table address 1).
    pub firmware_minor: u8,
    /// Servo major/model version (control-table address 3).
    pub servo_major: u8,
    /// Servo minor/version value (control-table address 4).
    pub servo_minor: u8,
}

/// The packet layer of a servo bus: framing, transfers and register access.
pub struct UartBusInterface<L: SerialLink> {
    channel: Channel<L>,
    pub(crate) id: Option<u8>,
    response_status_level: bool,
}

impl<L: SerialLink> UartBusInterface<L> {
    /// Every exchange with the link so far, oldest first.
    pub closed spec fn history(&self) -> Seq<LinkEvent<L::Error>> {
        self.channel.history()
    }

    /// The byte transport.
    pub closed spec fn link(&self) -> L {
        self.channel.link()
    }

    /// The servo that register accesses address.
    pub closed spec fn bus_id(&self) -> Option<u8> {
        self.id
    }

    /// Whether servos answer every command (`true`) or only PING and READ.
    pub closed spec fn status_level(&self) -> bool {
        self.response_status_level
    }

    /// Configuration unchanged from `other`.
    pub open spec fn same_config(&self, other: &Self) -> bool {
        self.bus_id() == other.bus_id() && self.status_level() == other.status_level()
    }

    pub fn new(interface: L) -> (r: Self)
        ensures
            r.link() == interface,
            r.bus_id() is None,
            r.status_level(),
            r.history() == Seq::<LinkEvent<L::Error>>::empty(),
    {
        UartBusInterface { channel: Channel::new(interface), id: None, response_status_level: true }
    }

    /// The byte transport, to look at.
    pub fn transport(&self) -> (l: &L)
        ensures
            *l == self.link(),
    {
        self.channel.link_ref()
    }

    /// The byte transport, for direct use. The use is recorded in the history
    /// as [`LinkEvent::Direct`], which no operation's contract admits among
    /// the events it spans.
    pub fn transport_mut(&mut self) -> (l: &mut L)
        ensures
            *l == old(self).link(),
            final(self).same_config(old(self)),
            final(self).history() == old(self).history().push(LinkEvent::Direct),
    {
        self.channel.link_mut()
    }

    pub fn set_response_status_level(&mut self, enabled: bool)
        ensures
            final(self).status_level() == enabled,
            final(self).bus_id() == old(self).bus_id(),
            final(self).history() == old(self).history(),
            final(self).link() == old(self).link(),
    {
        self.response_status_level = enabled;
    }

    pub fn set_busid(&mut self, new_id: u8)
        ensures
            final(self).bus_id() == Some(new_id),
            final(self).status_level() == old(self).status_level(),
            final(self).history() == old(self).history(),
            final(self).link() == old(self).link(),
    {
        self.id = Some(new_id);
    }

    /// The servo that register accesses address.
    pub fn busid(&self) -> (id: Option<u8>)
        ensures
            id == self.bus_id(),
    {
        self.id
    }

    pub fn clear_busid(&mut self)
        ensures
            final(self).bus_id() is None,
            final(self).status_level() == old(self).status_level(),
            final(self).history() == old(self).history(),
            final(self).link() == old(self).link(),
    {
        self.id = None;
    }

    /// The checksum byte covering `id`, `length`, `instruction` and `params`.
    pub fn calculate_checksum(id: u8, length: u8, instruction: u8, params: &[u8]) -> (c: u8)
        requires
            params@.len() < 0x100_0000,
        ensures
            c == checksum_of(seq![id, length, instruction] + params@),
    {
        let ghost head = seq![id, length, instruction];
        let mut sum: u32 = id as u32 + length as u32 + instruction as u32;
        proof {
            reveal_with_fuel(byte_sum, 4);
            assert(head + params@.take(0) =~= head);
            assert(head.drop_last().drop_last().drop_last() =~= Seq::<u8>::empty());
        }
        let mut i: usize = 0;
        while i < params.len()
            invariant
                i <= params@.len(),
                params@.len() < 0x100_0000,
                sum == byte_sum(head + params@.take(i as int)),
                sum <= 765 + 255 * i,
            decreases params@.len() - i,
        {
            proof {
                let s = head + params@.take(i + 1);
                assert(s.drop_last() =~= head + params@.take(i as int));
            }
            sum = sum + params[i] as u32;
            i = i + 1;
        }
        proof {
            assert(params@.take(i as int) =~= params@);
        }
        #[verifier::truncate]
        let low = sum as u8;
        assert(low as int == sum % 256) by (bit_vector)
            requires
                low == #[verifier::truncate] (sum as u8),
        ;
        assert((!low) as int == 255 - low) by (bit_vector);
        !low
    }

    /// Encodes the packet for `id`, `code` and `params`.
    pub fn build_packet(id: u8, code: u8, params: &[u8]) -> (p: Vec<u8>)
        requires
            params@.len() <= 253,
        ensures
            p@ == packet(id, code, params@),
    {
        let length = (params.len() + 2) as u8;
        let checksum = Self::calculate_checksum(id, length, code, params);
        let mut p: Vec<u8> = Vec::new();
        p.push(HEADER_BYTE);
        p.push(HEADER_BYTE);
        p.push(id);
        p.push(length);
        p.push(code);
        let mut i: usize = 0;
        while i < params.len()
            invariant
                i <= params@.len(),
                p@ == seq![HEADER_BYTE, HEADER_BYTE, id, length, code] + params@.take(i as int),
            decreases params@.len() - i,
        {
            proof {
                assert(params@.take(i + 1) =~= params@.take(i as int).push(params@[i as int]));
            }
            p.push(params[i]);
            i = i + 1;
        }
        p.push(checksum);
        proof {
            assert(params@.take(i as int) =~= params@);
            assert(p@ =~= packet(id, code, params@));
        }
        p
    }
}


impl<L: SerialLink> UartBusInterface<L> {
    /// Reads one response from servo `expected_id` into `response_buf`,
    /// which must match the number of parameter bytes in the response.
    ///
    /// The whole frame is consumed before an ID mismatch is reported, so a
    /// stray response cannot disturb the next transaction.
    pub fn blocking_read_response(&mut self, expected_id: u8, response_buf: &mut [u8]) -> (r: Result<
        usize,
        ProtocolError<L::Error>,
    >)
        ensures
            final(self).same_config(old(self)),
            !is_unicast(expected_id) ==> final(self).link() == old(self).link(),
            extends(old(self).history(), final(self).history()),
            ({
                let ev = added(old(self).history(), final(self).history());
                let eff = receive_effect(expected_id, old(response_buf)@.len(), ev);
                &&& spans(eff, ev.len())
                &&& buffer_result(
                    awaited(eff.unwrap().0),
                    r,
                    old(response_buf)@,
                    final(response_buf)@,
                )
            }),
    {
        let ghost h0 = self.history();
        if expected_id > MAX_SERVO_ID {
            proof {
                lemma_extends_refl(h0);
            }
            return Err(ProtocolError::InvalidId);
        }
        let (reader, link) = self.channel.receive_frame();
        proof {
            assert(self.history().take(h0.len() as int) =~= h0);
            assert(added(h0, self.history()) =~= seq![
                LinkEvent::Received { bytes: reader.fed(), outcome: link },
            ]);
        }
        let whole = reader.has_frame();
        match link {
            Err(e) => {
                return Err(ProtocolError::Serial(e));
            },
            Ok(()) => {},
        }
        if !whole {
            return Err(ProtocolError::InvalidLength);
        }
        let id = reader.frame_id();
        let length = reader.frame_length();
        let body = reader.frame_body();
        let params_len = (length - 2) as usize;
        if params_len != response_buf.len() {
            return Err(ProtocolError::InvalidLength);
        }
        let error = body[0];
        let params = &body.as_slice()[1..(length as usize - 1)];
        let checksum = Self::calculate_checksum(id, length, error, params);
        proof {
            let b = body@;
            assert(seq![id, length, error] + params@ =~= seq![id, length] + b.take(length - 1));
        }
        if checksum != body[length as usize - 1] {
            return Err(ProtocolError::Checksum);
        }
        if id != expected_id {
            return Err(ProtocolError::InvalidId);
        }
        if error != 0 {
            return Err(ProtocolError::ServoError(error));
        }
        let mut i: usize = 0;
        while i < params_len
            invariant
                i <= params_len,
                params_len == params@.len(),
                response_buf@.len() == params_len,
                forall|j: int| 0 <= j < i ==> response_buf@[j] == params@[j],
            decreases params_len - i,
        {
            response_buf[i] = params[i];
            i = i + 1;
        }
        proof {
            assert(response_buf@ =~= params@);
        }
        Ok(params_len)
    }

    /// Sends one request and, when a response is awaited, reads it into
    /// `response_buf`. Broadcast requests never claim a response; with
    /// response level 0 only PING and READ are answered.
    pub fn blocking_transfer(
        &mut self,
        id: u8,
        instruction: Instruction,
        params: &[u8],
        response_buf: &mut [u8],
    ) -> (r: Result<usize, ProtocolError<L::Error>>)
        ensures
            final(self).same_config(old(self)),
            extends(old(self).history(), final(self).history()),
            transfer_precheck::<L::Error>(id, params@.len(), old(response_buf)@.len()) is Err
                ==> final(self).link() == old(self).link(),
            ({
                let ev = added(old(self).history(), final(self).history());
                let eff = transfer_effect(
                    old(self).status_level(),
                    id,
                    instruction,
                    params@,
                    old(response_buf)@.len(),
                    ev,
                );
                &&& spans(eff, ev.len())
                &&& buffer_result(eff.unwrap().0, r, old(response_buf)@, final(response_buf)@)
            }),
    {
        let ghost h0 = self.history();
        if id == BROADCAST_ID && response_buf.len() != 0 {
            proof {
                lemma_extends_refl(h0);
            }
            return Err(ProtocolError::InvalidId);
        }
        if !(id <= MAX_SERVO_ID || id == BROADCAST_ID) {
            proof {
                lemma_extends_refl(h0);
            }
            return Err(ProtocolError::InvalidId);
        }
        if params.len() > 253 {
            proof {
                lemma_extends_refl(h0);
            }
            return Err(ProtocolError::InvalidLength);
        }
        let packet = Self::build_packet(id, instruction.code(), params);
        let sent = self.channel.send(packet.as_slice());
        let ghost h1 = self.history();
        proof {
            assert(h1.take(h0.len() as int) =~= h0);
            assert(added(h0, h1) =~= seq![LinkEvent::Sent { packet: packet@, outcome: sent }]);
        }
        match sent {
            Err(e) => {
                return Err(ProtocolError::Serial(e));
            },
            Ok(()) => {},
        }
        if id == BROADCAST_ID || (!self.response_status_level && !matches!(
            instruction,
            Instruction::Ping | Instruction::Read
        )) {
            return Ok(0);
        }
        let r = self.blocking_read_response(id, response_buf);
        proof {
            let h2 = self.history();
            assert(h2.take(h0.len() as int) =~= h0);
            assert(added(h0, h2).skip(1) =~= added(h1, h2));
            assert(added(h0, h2)[0] == added(h0, h1)[0]);
        }
        r
    }
}

impl<L: SerialLink> UartBusInterface<L> {
    /// Accepts unicast IDs, and the broadcast ID when `allow_broadcast`.
    pub fn validate_id<E>(id: u8, allow_broadcast: bool) -> (r: Result<(), ProtocolError<E>>)
        ensures
            r is Ok <==> (is_unicast(id) || (allow_broadcast && id == BROADCAST_ID)),
            r is Err ==> r == Err::<(), ProtocolError<E>>(ProtocolError::InvalidId),
    {
        if id <= MAX_SERVO_ID || (allow_broadcast && id == BROADCAST_ID) {
            Ok(())
        } else {
            Err(ProtocolError::InvalidId)
        }
    }

    /// Checks a sync-write payload.
    pub fn validate_sync_write<E>(data_len: u8, payload: &[u8]) -> (r: Result<(), ProtocolError<E>>)
        ensures
            r == sync_write_check::<E>(data_len, payload@),
    {
        if data_len == 0 {
            return Err(ProtocolError::InvalidLength);
        }
        let entry_len = data_len as usize + 1;
        if payload.len() == 0 || payload.len() % entry_len != 0 {
            return Err(ProtocolError::InvalidLength);
        }
        let count = payload.len() / entry_len;
        let mut i: usize = 0;
        let mut pos: usize = 0;
        proof {
            assert(count * entry_len == payload@.len()) by (nonlinear_arith)
                requires
                    count == payload@.len() / entry_len as nat,
                    payload@.len() % entry_len as nat == 0,
                    entry_len > 0,
            ;
        }
        while i < count
            invariant
                entry_len == data_len + 1,
                data_len != 0,
                payload@.len() > 0,
                payload@.len() % entry_len as nat == 0,
                count == payload@.len() / entry_len as nat,
                count * entry_len == payload@.len(),
                i <= count,
                pos == i * entry_len,
                forall|k: int| 0 <= k < i ==> is_unicast(#[trigger] entry_id(payload@, entry_len as nat, k)),
            decreases count - i,
        {
            proof {
                assert(pos + entry_len <= payload@.len()) by (nonlinear_arith)
                    requires
                        pos == i * entry_len,
                        i < count,
                        entry_len > 0,
                        count * entry_len == payload@.len(),
                ;
            }
            if let Err(e) = Self::validate_id::<E>(payload[pos], false) {
                proof {
                    assert(entry_id(payload@, entry_len as nat, i as int) == payload@[pos as int]);
                    assert(!is_unicast(entry_id(payload@, entry_len as nat, i as int)));
                }
                return Err(e);
            }
            proof {
                assert(entry_id(payload@, entry_len as nat, i as int) == payload@[pos as int]);
                assert((i + 1) * entry_len == pos + entry_len) by (nonlinear_arith)
                    requires
                        pos == i * entry_len,
                ;
            }
            i = i + 1;
            pos = pos + entry_len;
        }
        Ok(())
    }

    /// Checks the arguments of a sync read.
    pub fn validate_sync_read<E>(data_len: u8, ids: &[u8]) -> (r: Result<(), ProtocolError<E>>)
        ensures
            r == sync_read_check::<E>(data_len, ids@),
    {
        if data_len == 0 || ids.len() == 0 {
            return Err(ProtocolError::InvalidLength);
        }
        let mut i: usize = 0;
        while i < ids.len()
            invariant
                i <= ids@.len(),
                data_len != 0,
                ids@.len() > 0,
                forall|k: int| 0 <= k < i ==> is_unicast(#[trigger] ids@[k]),
            decreases ids@.len() - i,
        {
            if let Err(e) = Self::validate_id::<E>(ids[i], false) {
                proof {
                    assert(!is_unicast(ids@[i as int]));
                }
                return Err(e);
            }
            i = i + 1;
        }
        Ok(())
    }

    /// PING: checks that servo `id` answers.
    pub fn blocking_ping(&mut self, id: u8) -> (r: Result<(), ProtocolError<L::Error>>)
        ensures
            final(self).same_config(old(self)),
            extends(old(self).history(), final(self).history()),
            ({
                let ev = added(old(self).history(), final(self).history());
                if !is_unicast(id) {
                    ev.len() == 0 && r == Err::<(), ProtocolError<L::Error>>(ProtocolError::InvalidId)
                } else {
                    let eff = transfer_effect(old(self).status_level(), id, Instruction::Ping, Seq::empty(), 0, ev);
                    spans(eff, ev.len()) && r == unit_of(eff.unwrap().0)
                }
            }),
    {
        let ghost h0 = self.history();
        if let Err(e) = Self::validate_id::<L::Error>(id, false) {
            proof {
                lemma_extends_refl(h0);
            }
            return Err(e);
        }
        let mut response: [u8; 0] = [];
        let empty: [u8; 0] = [];
        proof {
            assert(empty@ =~= Seq::<u8>::empty());
        }
        match self.blocking_transfer(id, Instruction::Ping, empty.as_slice(), &mut response) {
            Ok(_) => Ok(()),
            Err(e) => Err(e),
        }
    }

    /// A transfer of `instruction` without parameters and without response data.
    fn bare_command(&mut self, id: u8, instruction: Instruction) -> (r: Result<(), ProtocolError<L::Error>>)
        ensures
            final(self).same_config(old(self)),
            extends(old(self).history(), final(self).history()),
            ({
                let ev = added(old(self).history(), final(self).history());
                let eff = transfer_effect(old(self).status_level(), id, instruction, Seq::empty(), 0, ev);
                spans(eff, ev.len()) && r == unit_of(eff.unwrap().0)
            }),
    {
        let mut response: [u8; 0] = [];
        let empty: [u8; 0] = [];
        proof {
            assert(empty@ =~= Seq::<u8>::empty());
        }
        match self.blocking_transfer(id, instruction, empty.as_slice(), &mut response) {
            Ok(_) => Ok(()),
            Err(e) => Err(e),
        }
    }

    /// RESET: restores the factory control table of servo `id`.
    pub fn blocking_reset(&mut self, id: u8) -> (r: Result<(), ProtocolError<L::Error>>)
        ensures
            final(self).same_config(old(self)),
            extends(old(self).history(), final(self).history()),
            ({
                let ev = added(old(self).history(), final(self).history());
                let eff = transfer_effect(old(self).status_level(), id, Instruction::Reset, Seq::empty(), 0, ev);
                spans(eff, ev.len()) && r == unit_of(eff.unwrap().0)
            }),
    {
        self.bare_command(id, Instruction::Reset)
    }

    /// ACTION: triggers the writes registered with REG WRITE.
    pub fn blocking_action(&mut self, id: u8) -> (r: Result<(), ProtocolError<L::Error>>)
        ensures
            final(self).same_config(old(self)),
            extends(old(self).history(), final(self).history()),
            ({
                let ev = added(old(self).history(), final(self).history());
                let eff = transfer_effect(old(self).status_level(), id, Instruction::RegAction, Seq::empty(), 0, ev);
                spans(eff, ev.len()) && r == unit_of(eff.unwrap().0)
            }),
    {
        self.bare_command(id, Instruction::RegAction)
    }

    /// REG WRITE: registers `data` for the registers from `address` on, to be applied on ACTION.
    pub fn blocking_reg_write(&mut self, id: u8, address: u8, data: &[u8]) -> (r: Result<
        (),
        ProtocolError<L::Error>,
    >)
        ensures
            final(self).same_config(old(self)),
            extends(old(self).history(), final(self).history()),
            ({
                let ev = added(old(self).history(), final(self).history());
                if data@.len() == 0 || data@.len() >= 256 {
                    ev.len() == 0 && r == Err::<(), ProtocolError<L::Error>>(ProtocolError::InvalidLength)
                } else {
                    let eff = transfer_effect(
                        old(self).status_level(),
                        id,
                        Instruction::RegWrite,
                        seq![address] + data@,
                        0,
                        ev,
                    );
                    spans(eff, ev.len()) && r == unit_of(eff.unwrap().0)
                }
            }),
    {
        let ghost h0 = self.history();
        let mut params = [0u8; 256];
        let len = match Self::copy_reg_write_params(&mut params, address, data) {
            Ok(len) => len,
            Err(e) => {
                proof {
                    lemma_extends_refl(h0);
                }
                return Err(e);
            },
        };
        let slice = params.as_slice();
        let request = &slice[0..len];
        let mut response: [u8; 0] = [];
        match self.blocking_transfer(id, Instruction::RegWrite, request, &mut response) {
            Ok(_) => Ok(()),
            Err(e) => Err(e),
        }
    }

    /// SYNC WRITE: broadcasts `payload`, entries of an ID and `data_len` bytes
    /// for the registers from `address` on. Nothing is sent when the payload is malformed.
    pub fn blocking_sync_write(&mut self, address: u8, data_len: u8, payload: &[u8]) -> (r: Result<
        (),
        ProtocolError<L::Error>,
    >)
        ensures
            sync_write_done(*final(self), *old(self), address, data_len, payload@, r),
            final(self).same_config(old(self)),
            extends(old(self).history(), final(self).history()),
            ({
                let ev = added(old(self).history(), final(self).history());
                match sync_write_check::<L::Error>(data_len, payload@) {
                    Err(e) => ev.len() == 0 && r == Err::<(), ProtocolError<L::Error>>(e),
                    Ok(_) => {
                        let eff = transfer_effect(
                            old(self).status_level(),
                            BROADCAST_ID,
                            Instruction::SyncWrite,
                            seq![address, data_len] + payload@,
                            0,
                            ev,
                        );
                        spans(eff, ev.len()) && r == unit_of(eff.unwrap().0)
                    },
                }
            }),
    {
        let ghost h0 = self.history();
        if let Err(e) = Self::validate_sync_write::<L::Error>(data_len, payload) {
            proof {
                lemma_extends_refl(h0);
            }
            return Err(e);
        }
        if payload.len() > 254 {
            proof {
                lemma_extends_refl(h0);
            }
            return Err(ProtocolError::InvalidLength);
        }
        let mut params: Vec<u8> = Vec::new();
        params.push(address);
        params.push(data_len);
        let mut i: usize = 0;
        while i < payload.len()
            invariant
                i <= payload@.len(),
                params@ == seq![address, data_len] + payload@.take(i as int),
            decreases payload@.len() - i,
        {
            proof {
                assert(payload@.take(i + 1) =~= payload@.take(i as int).push(payload@[i as int]));
            }
            params.push(payload[i]);
            i = i + 1;
        }
        proof {
            assert(payload@.take(i as int) =~= payload@);
        }
        let mut response: [u8; 0] = [];
        match self.blocking_transfer(BROADCAST_ID, Instruction::SyncWrite, params.as_slice(), &mut response) {
            Ok(_) => Ok(()),
            Err(e) => Err(e),
        }
    }

    /// Sends the broadcast SYNC READ request for `data_len` bytes from
    /// `address` on, of each servo in `ids`. No response is read.
    pub fn blocking_send_sync_read_request(&mut self, address: u8, data_len: u8, ids: &[u8]) -> (r: Result<
        (),
        ProtocolError<L::Error>,
    >)
        ensures
            final(self).same_config(old(self)),
            extends(old(self).history(), final(self).history()),
            ({
                let ev = added(old(self).history(), final(self).history());
                let eff = sync_read_request_effect(address, data_len, ids@, ev);
                spans(eff, ev.len()) && r == eff.unwrap().0
            }),
    {
        let ghost h0 = self.history();
        if let Err(e) = Self::validate_sync_read::<L::Error>(data_len, ids) {
            proof {
                lemma_extends_refl(h0);
            }
            return Err(e);
        }
        if ids.len() > 251 {
            proof {
                lemma_extends_refl(h0);
            }
            return Err(ProtocolError::InvalidLength);
        }
        let mut params: Vec<u8> = Vec::new();
        params.push(address);
        params.push(data_len);
        let mut i: usize = 0;
        while i < ids.len()
            invariant
                i <= ids@.len(),
                params@ == seq![address, data_len] + ids@.take(i as int),
            decreases ids@.len() - i,
        {
            proof {
                assert(ids@.take(i + 1) =~= ids@.take(i as int).push(ids@[i as int]));
            }
            params.push(ids[i]);
            i = i + 1;
        }
        proof {
            assert(ids@.take(i as int) =~= ids@);
        }
        let packet = Self::build_packet(BROADCAST_ID, Instruction::SyncRead.code(), params.as_slice());
        let sent = self.channel.send(packet.as_slice());
        proof {
            let h1 = self.history();
            assert(h1.take(h0.len() as int) =~= h0);
            assert(added(h0, h1) =~= seq![LinkEvent::Sent { packet: packet@, outcome: sent }]);
        }
        match sent {
            Ok(()) => Ok(()),
            Err(e) => Err(ProtocolError::Serial(e)),
        }
    }

    /// Copies `chunk` into `output` from `pos` on.
    fn write_chunk(output: &mut [u8], pos: usize, chunk: &[u8])
        requires
            pos + chunk@.len() <= old(output)@.len(),
        ensures
            final(output)@.len() == old(output)@.len(),
            forall|t: int| 0 <= t < chunk@.len() ==> final(output)@[pos + t] == chunk@[t],
            forall|j: int|
                0 <= j < old(output)@.len() && !(pos <= j < pos + chunk@.len()) ==> final(output)@[j]
                    == old(output)@[j],
    {
        let n = output.len();
        let mut t: usize = 0;
        while t < chunk.len()
            invariant
                n == output@.len(),
                t <= chunk@.len(),
                pos + chunk@.len() <= output@.len(),
                output@.len() == old(output)@.len(),
                forall|u: int| 0 <= u < t ==> output@[pos + u] == chunk@[u],
                forall|j: int|
                    0 <= j < old(output)@.len() && !(pos <= j < pos + t) ==> output@[j] == old(output)@[j],
            decreases chunk@.len() - t,
        {
            output[pos + t] = chunk[t];
            t = t + 1;
        }
    }

    /// SYNC READ: requests `data_len` bytes from `address` on from each servo
    /// in `ids`, then reads the responses in order into consecutive chunks of
    /// `output`, stopping at the first failure.
    pub fn blocking_sync_read(&mut self, address: u8, data_len: u8, ids: &[u8], output: &mut [u8]) -> (r:
        Result<(), ProtocolError<L::Error>>)
        ensures
            final(self).same_config(old(self)),
            extends(old(self).history(), final(self).history()),
            ({
                let ev = added(old(self).history(), final(self).history());
                match sync_read_check::<L::Error>(data_len, ids@) {
                    Err(e) => ev.len() == 0 && r == Err::<(), ProtocolError<L::Error>>(e) && final(output)@
                        == old(output)@,
                    Ok(_) => if ids@.len() * data_len > old(output)@.len() {
                        ev.len() == 0 && r == Err::<(), ProtocolError<L::Error>>(
                            ProtocolError::InvalidLength,
                        ) && final(output)@ == old(output)@
                    } else {
                        let req = sync_read_request_effect(address, data_len, ids@, ev);
                        &&& req is Some
                        &&& match req.unwrap().0 {
                            Err(e) => req.unwrap().1 == ev.len() && r == Err::<(), ProtocolError<L::Error>>(e)
                                && final(output)@ == old(output)@,
                            Ok(_) => {
                                let rep = replies_effect(ids@, data_len as nat, ev.skip(req.unwrap().1 as int));
                                &&& rep is Some
                                &&& req.unwrap().1 + rep.unwrap().2 == ev.len()
                                &&& chunks_written(old(output)@, final(output)@, rep.unwrap().0, data_len as nat)
                                &&& match rep.unwrap().1 {
                                    None => r is Ok,
                                    Some(e) => r == Err::<(), ProtocolError<L::Error>>(e),
                                }
                            },
                        }
                    },
                }
            }),
            ({
                let ev = added(old(self).history(), final(self).history());
                let eff = sync_read_effect(address, data_len, ids@, old(output)@.len(), ev);
                &&& spans(eff, ev.len())
                &&& match eff.unwrap().0 {
                    Ok(rs) => {
                        &&& r is Ok
                        &&& rs.len() == ids@.len()
                        &&& forall|i: int| 0 <= i < ids@.len() ==> (#[trigger] rs[i]).len() == data_len
                        &&& chunks_written(old(output)@, final(output)@, rs, data_len as nat)
                    },
                    Err(e) => r == Err::<(), ProtocolError<L::Error>>(e),
                }
            }),
    {
        let ghost h0 = self.history();
        let ghost old_out = output@;
        if let Err(e) = Self::validate_sync_read::<L::Error>(data_len, ids) {
            proof {
                lemma_extends_refl(h0);
            }
            return Err(e);
        }
        let out_len = output.len();
        let required = match ids.len().checked_mul(data_len as usize) {
            Some(required) => required,
            None => {
                proof {
                    lemma_extends_refl(h0);
                    assert(out_len <= usize::MAX);
                }
                return Err(ProtocolError::InvalidLength);
            },
        };
        if output.len() < required {
            proof {
                lemma_extends_refl(h0);
            }
            return Err(ProtocolError::InvalidLength);
        }
        let sent = self.blocking_send_sync_read_request(address, data_len, ids);
        let ghost h1 = self.history();
        if let Err(e) = sent {
            return Err(e);
        }
        let dl = data_len as usize;
        let ghost mut rs: Seq<Seq<u8>> = Seq::empty();
        let mut i: usize = 0;
        let mut pos: usize = 0;
        proof {
            lemma_extends_refl(h1);
            assert(ids@.take(0) =~= Seq::<u8>::empty());
        }
        while i < ids.len()
            invariant
                h0 == old(self).history(),
                old_out == old(output)@,
                extends(h0, h1),
                extends(h1, self.history()),
                self.same_config(old(self)),
                sync_read_check::<L::Error>(data_len, ids@) is Ok,
                required == ids@.len() * data_len,
                required <= output@.len(),
                dl == data_len,
                sync_read_request_effect(address, data_len, ids@, added(h0, h1)) == Some(
                    (Ok::<(), ProtocolError<L::Error>>(()), added(h0, h1).len()),
                ),
                i <= ids@.len(),
                pos == i * dl,
                rs.len() == i,
                replies_effect(ids@.take(i as int), dl as nat, added(h1, self.history())) == Some(
                    (rs, None::<ProtocolError<L::Error>>, added(h1, self.history()).len()),
                ),
                chunks_written(old_out, output@, rs, dl as nat),
            decreases ids@.len() - i,
        {
            proof {
                assert(pos + dl <= required) by (nonlinear_arith)
                    requires
                        pos == i * dl,
                        i < ids@.len(),
                        required == ids@.len() * dl,
                ;
            }
            let ghost h2 = self.history();
            let mut chunk: Vec<u8> = vec![0u8; dl];
            let got = self.blocking_read_response(ids[i], chunk.as_mut_slice());
            let ghost h3 = self.history();
            proof {
                lemma_extends_trans(h1, h2, h3);
                lemma_replies_prefix(ids@.take(i as int), dl as nat, added(h1, h2), added(h2, h3));
                assert(ids@.take(i + 1).drop_last() =~= ids@.take(i as int));
                assert(added(h1, h3).skip(added(h1, h2).len() as int) =~= added(h2, h3));
            }
            if let Err(e) = got {
                proof {
                    lemma_replies_stop(ids@.take(i + 1), ids@.skip(i + 1), dl as nat, added(h1, h3), rs, e);
                    assert(ids@.take(i + 1) + ids@.skip(i + 1) =~= ids@);
                    lemma_extends_trans(h0, h1, h3);
                    assert(added(h0, h3).skip(added(h0, h1).len() as int) =~= added(h1, h3));
                    lemma_transfer_free_prefix(address, data_len, ids@, added(h0, h1), added(h1, h3));
                }
                return Err(e);
            }
            let ghost before = output@;
            Self::write_chunk(output, pos, chunk.as_slice());
            proof {
                assert((i + 1) * dl == pos + dl) by (nonlinear_arith)
                    requires
                        pos == i * dl,
                ;
                lemma_chunks_push(old_out, before, output@, rs, chunk@, dl as nat);
                rs = rs.push(chunk@);
            }
            i = i + 1;
            pos = pos + dl;
        }
        proof {
            let h3 = self.history();
            assert(ids@.take(i as int) =~= ids@);
            lemma_extends_trans(h0, h1, h3);
            assert(added(h0, h3).skip(added(h0, h1).len() as int) =~= added(h1, h3));
            lemma_transfer_free_prefix(address, data_len, ids@, added(h0, h1), added(h1, h3));
            lemma_replies_shape(ids@, dl as nat, added(h1, h3));
        }
        Ok(())
    }
}

} // verus!
