//! Register access on the addressed servo, and sequences of accesses.
//!
//! A register write is a WRITE transfer with parameters `address data`; a
//! register read is a READ transfer with parameters `address length` that
//! answers `length` bytes. Sequences stop at the first failing access; an
//! EEPROM sequence unlocks the EEPROM first and always locks it again once the
//! unlock succeeded.

use vstd::prelude::*;

use crate::error::ProtocolError;
use crate::types::Instruction;
use crate::uart::{
    added, extends, is_unicast, lemma_extends_refl, lemma_extends_trans, lemma_transfer_round_trip, packet, spans,
    transfer_effect, transfer_precheck, LinkEvent,
    SerialLink, UartBusInterface,
};

verus! {

/// A register access, as the contracts describe it.
pub enum RegisterAccess {
    Write { address: u8, data: Seq<u8> },
    Read { address: u8, len: nat },
}

/// A register access, as the bus performs it.
pub enum Access {
    /// Write `data` starting at register `address`.
    Write { address: u8, data: Vec<u8> },
    /// Read `len` bytes starting at register `address`.
    Read { address: u8, len: usize },
}

impl View for Access {
    type V = RegisterAccess;

    open spec fn view(&self) -> RegisterAccess {
        match self {
            Access::Write { address, data } => RegisterAccess::Write { address: *address, data: data@ },
            Access::Read { address, len } => RegisterAccess::Read { address: *address, len: *len as nat },
        }
    }
}

impl Access {
    /// A write of `bytes` from register `address` on.
    pub fn write(address: u8, bytes: &[u8]) -> (a: Access)
        ensures
            a@ == write_access(address, bytes@),
    {
        let mut data: Vec<u8> = Vec::new();
        let mut i: usize = 0;
        while i < bytes.len()
            invariant
                i <= bytes@.len(),
                data@ == bytes@.take(i as int),
            decreases bytes@.len() - i,
        {
            proof {
                assert(bytes@.take(i + 1) =~= bytes@.take(i as int).push(bytes@[i as int]));
            }
            data.push(bytes[i]);
            i = i + 1;
        }
        proof {
            assert(bytes@.take(i as int) =~= bytes@);
        }
        Access::Write { address, data }
    }

    /// A read of `len` bytes from register `address` on.
    pub fn read(address: u8, len: usize) -> (a: Access)
        ensures
            a@ == read_access(address, len as nat),
    {
        Access::Read { address, len }
    }
}

/// The outcome `o` with its data turned into a value by `f`.
pub open spec fn mapped<T, E>(o: Result<Seq<Seq<u8>>, ProtocolError<E>>, f: spec_fn(Seq<Seq<u8>>) -> T) -> Result<
    T,
    ProtocolError<E>,
> {
    match o {
        Ok(vs) => Ok(f(vs)),
        Err(e) => Err(e),
    }
}

/// The accesses of `s`, as the contracts describe them.
pub open spec fn access_views(s: Seq<Access>) -> Seq<RegisterAccess> {
    s.map_values(|a: Access| a@)
}

/// The contents of `vs`, as sequences.
pub open spec fn data_views(vs: Seq<Vec<u8>>) -> Seq<Seq<u8>> {
    vs.map_values(|v: Vec<u8>| v@)
}

/// A register write on the bus: the data in `address` and following registers.
pub open spec fn write_access(address: u8, data: Seq<u8>) -> RegisterAccess {
    RegisterAccess::Write { address, data }
}

/// A register read on the bus: `len` bytes from `address` on.
pub open spec fn read_access(address: u8, len: nat) -> RegisterAccess {
    RegisterAccess::Read { address, len }
}

/// One register access on the servo the bus addresses, as a prefix of `ev`.
/// A write yields no data; a read yields the bytes read.
pub open spec fn access_effect<E>(
    level: bool,
    bus_id: Option<u8>,
    a: RegisterAccess,
    ev: Seq<LinkEvent<E>>,
) -> Option<(Result<Seq<u8>, ProtocolError<E>>, nat)> {
    match bus_id {
        None => Some((Err(ProtocolError::InvalidId), 0)),
        Some(id) => match a {
            RegisterAccess::Write { address, data } => if data.len() == 0 || data.len() >= 256 {
                Some((Err(ProtocolError::InvalidLength), 0))
            } else {
                match transfer_effect(level, id, Instruction::Write, seq![address] + data, 0, ev) {
                    Some((Ok(_), n)) => Some((Ok(Seq::empty()), n)),
                    Some((Err(e), n)) => Some((Err(e), n)),
                    None => None,
                }
            },
            RegisterAccess::Read { address, len } => if len > 255 {
                Some((Err(ProtocolError::InvalidLength), 0))
            } else {
                match transfer_effect(level, id, Instruction::Read, seq![address, len as u8], len, ev) {
                    Some((Ok(Some(p)), n)) => Some((Ok(p), n)),
                    Some((Ok(None), n)) => Some((Ok(Seq::empty()), n)),
                    Some((Err(e), n)) => Some((Err(e), n)),
                    None => None,
                }
            },
        },
    }
}

/// The accesses `accs` in order, stopping at the first that fails, as a
/// prefix of `ev`; on success, the data of each access.
pub open spec fn chain_effect<E>(
    level: bool,
    bus_id: Option<u8>,
    accs: Seq<RegisterAccess>,
    ev: Seq<LinkEvent<E>>,
) -> Option<(Result<Seq<Seq<u8>>, ProtocolError<E>>, nat)>
    decreases accs.len(),
{
    if accs.len() == 0 {
        Some((Ok(Seq::empty()), 0))
    } else {
        match chain_effect(level, bus_id, accs.drop_last(), ev) {
            Some((Ok(vs), n)) => match access_effect(level, bus_id, accs.last(), ev.skip(n as int)) {
                Some((Ok(v), m)) => Some((Ok(vs.push(v)), n + m)),
                Some((Err(e), m)) => Some((Err(e), n + m)),
                None => None,
            },
            Some((Err(e), n)) => Some((Err(e), n)),
            None => None,
        }
    }
}

/// The write that unlocks (`locked == false`) or locks the EEPROM through the
/// lock-flag register at `lock_address`.
pub open spec fn lock_access(lock_address: u8, locked: bool) -> RegisterAccess {
    RegisterAccess::Write { address: lock_address, data: seq![if locked { 1u8 } else { 0u8 }] }
}

/// Unlock the EEPROM, run `body`, and lock it again, as a prefix of `ev`.
/// A failed unlock ends the sequence; otherwise the lock is always attempted.
/// The first error of `body`, else the error of the lock, is the result.
pub open spec fn eeprom_effect<E>(
    level: bool,
    bus_id: Option<u8>,
    lock_address: u8,
    body: Seq<RegisterAccess>,
    ev: Seq<LinkEvent<E>>,
) -> Option<(Result<Seq<Seq<u8>>, ProtocolError<E>>, nat)> {
    match access_effect(level, bus_id, lock_access(lock_address, false), ev) {
        None => None,
        Some((Err(e), n)) => Some((Err(e), n)),
        Some((Ok(_), n)) => match chain_effect(level, bus_id, body, ev.skip(n as int)) {
            None => None,
            Some((r, m)) => match access_effect(
                level,
                bus_id,
                lock_access(lock_address, true),
                ev.skip((n + m) as int),
            ) {
                None => None,
                Some((lr, k)) => Some(
                    (
                        match r {
                            Err(e) => Err(e),
                            Ok(vs) => match lr {
                                Ok(_) => Ok(vs),
                                Err(e) => Err(e),
                            },
                        },
                        n + m + k,
                    ),
                ),
            },
        },
    }
}

/// The effect of one transfer depends only on the events it spans.
pub proof fn lemma_transfer_prefix<E>(
    level: bool,
    id: u8,
    instruction: Instruction,
    params: Seq<u8>,
    response_len: nat,
    ev: Seq<LinkEvent<E>>,
    extra: Seq<LinkEvent<E>>,
)
    requires
        transfer_effect(level, id, instruction, params, response_len, ev) is Some,
    ensures
        transfer_effect(level, id, instruction, params, response_len, ev).unwrap().1 <= ev.len(),
        transfer_effect(level, id, instruction, params, response_len, ev + extra)
            == transfer_effect(level, id, instruction, params, response_len, ev),
{
    if ev.len() >= 1 {
        assert((ev + extra)[0] == ev[0]);
        assert((ev + extra).skip(1) == ev.skip(1) + extra);
        if ev.len() >= 2 {
            assert((ev + extra).skip(1)[0] == ev.skip(1)[0]);
        }
    }
}

/// The effect of one access depends only on the events it spans.
pub proof fn lemma_access_prefix<E>(
    level: bool,
    bus_id: Option<u8>,
    a: RegisterAccess,
    ev: Seq<LinkEvent<E>>,
    extra: Seq<LinkEvent<E>>,
)
    requires
        access_effect(level, bus_id, a, ev) is Some,
    ensures
        access_effect(level, bus_id, a, ev).unwrap().1 <= ev.len(),
        access_effect(level, bus_id, a, ev + extra) == access_effect(level, bus_id, a, ev),
{
    if let Some(id) = bus_id {
        match a {
            RegisterAccess::Write { address, data } => {
                if !(data.len() == 0 || data.len() >= 256) {
                    lemma_transfer_prefix(level, id, Instruction::Write, seq![address] + data, 0, ev, extra);
                }
            },
            RegisterAccess::Read { address, len } => {
                if len <= 255 {
                    lemma_transfer_prefix(level, id, Instruction::Read, seq![address, len as u8], len, ev, extra);
                }
            },
        }
    }
}

/// The effect of a sequence of accesses depends only on the events it spans.
pub proof fn lemma_chain_prefix<E>(
    level: bool,
    bus_id: Option<u8>,
    accs: Seq<RegisterAccess>,
    ev: Seq<LinkEvent<E>>,
    extra: Seq<LinkEvent<E>>,
)
    requires
        chain_effect(level, bus_id, accs, ev) is Some,
    ensures
        chain_effect(level, bus_id, accs, ev).unwrap().1 <= ev.len(),
        chain_effect(level, bus_id, accs, ev + extra) == chain_effect(level, bus_id, accs, ev),
    decreases accs.len(),
{
    if accs.len() > 0 {
        lemma_chain_prefix(level, bus_id, accs.drop_last(), ev, extra);
        if let Some((Ok(vs), n)) = chain_effect(level, bus_id, accs.drop_last(), ev) {
            assert((ev + extra).skip(n as int) == ev.skip(n as int) + extra);
            lemma_access_prefix(level, bus_id, accs.last(), ev.skip(n as int), extra);
        }
    }
}

/// Appending one access to a successful sequence.
pub proof fn lemma_chain_snoc<E>(
    level: bool,
    bus_id: Option<u8>,
    accs: Seq<RegisterAccess>,
    a: RegisterAccess,
    ev1: Seq<LinkEvent<E>>,
    ev2: Seq<LinkEvent<E>>,
    vs: Seq<Seq<u8>>,
)
    requires
        chain_effect(level, bus_id, accs, ev1) == Some((Ok::<Seq<Seq<u8>>, ProtocolError<E>>(vs), ev1.len())),
        access_effect(level, bus_id, a, ev2) is Some,
        access_effect(level, bus_id, a, ev2).unwrap().1 == ev2.len(),
    ensures
        chain_effect(level, bus_id, accs.push(a), ev1 + ev2) == Some(
            (
                match access_effect(level, bus_id, a, ev2).unwrap().0 {
                    Ok(v) => Ok(vs.push(v)),
                    Err(e) => Err(e),
                },
                ev1.len() + ev2.len(),
            ),
        ),
{
    lemma_chain_prefix(level, bus_id, accs, ev1, ev2);
    assert(accs.push(a).drop_last() =~= accs);
    assert((ev1 + ev2).skip(ev1.len() as int) =~= ev2);
}

/// Appending events after a failed sequence.
pub proof fn lemma_chain_stops<E>(
    level: bool,
    bus_id: Option<u8>,
    accs: Seq<RegisterAccess>,
    more: Seq<RegisterAccess>,
    ev: Seq<LinkEvent<E>>,
    e: ProtocolError<E>,
)
    requires
        chain_effect(level, bus_id, accs, ev) == Some((Err::<Seq<Seq<u8>>, ProtocolError<E>>(e), ev.len())),
    ensures
        chain_effect(level, bus_id, accs + more, ev) == Some(
            (Err::<Seq<Seq<u8>>, ProtocolError<E>>(e), ev.len()),
        ),
    decreases more.len(),
{
    if more.len() == 0 {
        assert(accs + more =~= accs);
    } else {
        lemma_chain_stops(level, bus_id, accs, more.drop_last(), ev, e);
        assert((accs + more).drop_last() =~= accs + more.drop_last());
    }
}

/// Changing the ID of servo `current` to `new`, as a prefix of `ev`: unlock
/// the EEPROM at `current`, write the ID register, then lock the EEPROM again.
/// The servo answers at its new ID as soon as the ID register is written, so
/// after a successful write the lock goes to `new`; after a failed write it
/// goes to `current` and its outcome is not reported.
pub open spec fn set_id_effect<E>(
    level: bool,
    current: u8,
    new: u8,
    lock_address: u8,
    id_address: u8,
    ev: Seq<LinkEvent<E>>,
) -> Option<(Result<(), ProtocolError<E>>, nat)> {
    match access_effect(level, Some(current), lock_access(lock_address, false), ev) {
        None => None,
        Some((Err(e), n)) => Some((Err(e), n)),
        Some((Ok(_), n)) => match access_effect(
            level,
            Some(current),
            write_access(id_address, seq![new]),
            ev.skip(n as int),
        ) {
            None => None,
            Some((Err(e), m)) => match access_effect(
                level,
                Some(current),
                lock_access(lock_address, true),
                ev.skip((n + m) as int),
            ) {
                None => None,
                Some((_, k)) => Some((Err(e), n + m + k)),
            },
            Some((Ok(_), m)) => match access_effect(
                level,
                Some(new),
                lock_access(lock_address, true),
                ev.skip((n + m) as int),
            ) {
                None => None,
                Some((Ok(_), k)) => Some((Ok(()), n + m + k)),
                Some((Err(e), k)) => Some((Err(e), n + m + k)),
            },
        },
    }
}

/// The ID-change sequence over the events of its three register writes.
pub proof fn lemma_set_id_steps<E>(
    level: bool,
    current: u8,
    new: u8,
    lock_address: u8,
    id_address: u8,
    e1: Seq<LinkEvent<E>>,
    e2: Seq<LinkEvent<E>>,
    e3: Seq<LinkEvent<E>>,
)
    requires
        access_effect(level, Some(current), lock_access(lock_address, false), e1) matches Some((Ok(_), n)) && n == e1.len(),
        spans(access_effect(level, Some(current), write_access(id_address, seq![new]), e2), e2.len()),
        spans(
            access_effect(
                level,
                if access_effect(level, Some(current), write_access(id_address, seq![new]), e2).unwrap().0 is Ok {
                    Some(new)
                } else {
                    Some(current)
                },
                lock_access(lock_address, true),
                e3,
            ),
            e3.len(),
        ),
    ensures
        spans(set_id_effect(level, current, new, lock_address, id_address, e1 + e2 + e3), e1.len() + e2.len() + e3.len()),
        set_id_effect(level, current, new, lock_address, id_address, e1 + e2 + e3).unwrap().0 == match access_effect(
            level,
            Some(current),
            write_access(id_address, seq![new]),
            e2,
        ).unwrap().0 {
            Err(e) => Err(e),
            Ok(_) => unit_of_access(access_effect(level, Some(new), lock_access(lock_address, true), e3).unwrap().0),
        },
{
    let ev = e1 + e2 + e3;
    assert(ev =~= e1 + (e2 + e3));
    lemma_access_prefix(level, Some(current), lock_access(lock_address, false), e1, e2 + e3);
    assert(ev.skip(e1.len() as int) =~= e2 + e3);
    lemma_access_prefix(level, Some(current), write_access(id_address, seq![new]), e2, e3);
    assert(ev.skip((e1.len() + e2.len()) as int) =~= e3);
}

/// A register read answered by a valid response yields the bytes the servo
/// sent: the READ request goes out, the response comes back, and the
/// sequence of that one access spans exactly those two events.
pub proof fn lemma_register_read_round_trip<E>(level: bool, id: u8, address: u8, reply: Seq<u8>)
    requires
        is_unicast(id),
        reply.len() <= 253,
    ensures
        chain_effect::<E>(
            level,
            Some(id),
            seq![read_access(address, reply.len())],
            seq![
                LinkEvent::Sent {
                    packet: packet(id, Instruction::Read.spec_code(), seq![address, reply.len() as u8]),
                    outcome: Ok(()),
                },
                LinkEvent::Received { bytes: packet(id, 0, reply), outcome: Ok(()) },
            ],
        ) == Some((Ok::<Seq<Seq<u8>>, ProtocolError<E>>(seq![reply]), 2nat)),
{
    lemma_transfer_round_trip::<E>(level, id, Instruction::Read, seq![address, reply.len() as u8], 0, reply);
    let accs = seq![read_access(address, reply.len())];
    let ev = seq![
        LinkEvent::Sent {
            packet: packet(id, Instruction::Read.spec_code(), seq![address, reply.len() as u8]),
            outcome: Ok::<(), E>(()),
        },
        LinkEvent::Received { bytes: packet(id, 0, reply), outcome: Ok::<(), E>(()) },
    ];
    assert(accs.drop_last() =~= Seq::<RegisterAccess>::empty());
    assert(chain_effect::<E>(level, Some(id), accs.drop_last(), ev) == Some(
        (Ok::<Seq<Seq<u8>>, ProtocolError<E>>(Seq::empty()), 0nat),
    ));
    assert(ev.skip(0) =~= ev);
    assert(access_effect(level, Some(id), accs.last(), ev) == Some((Ok::<Seq<u8>, ProtocolError<E>>(reply), 2nat)));
    assert(Seq::<Seq<u8>>::empty().push(reply) =~= seq![reply]);
}

/// A register write acknowledged by the servo succeeds: the WRITE request
/// carries the address and the data, and with response level 1 the
/// acknowledgement is read back.
pub proof fn lemma_register_write_round_trip<E>(id: u8, address: u8, data: Seq<u8>)
    requires
        is_unicast(id),
        1 <= data.len() <= 252,
    ensures
        chain_effect::<E>(
            true,
            Some(id),
            seq![write_access(address, data)],
            seq![
                LinkEvent::Sent {
                    packet: packet(id, Instruction::Write.spec_code(), seq![address] + data),
                    outcome: Ok(()),
                },
                LinkEvent::Received { bytes: packet(id, 0, Seq::empty()), outcome: Ok(()) },
            ],
        ) == Some((Ok::<Seq<Seq<u8>>, ProtocolError<E>>(seq![Seq::empty()]), 2nat)),
{
    lemma_transfer_round_trip::<E>(true, id, Instruction::Write, seq![address] + data, 0, Seq::empty());
    let accs = seq![write_access(address, data)];
    let ev = seq![
        LinkEvent::Sent {
            packet: packet(id, Instruction::Write.spec_code(), seq![address] + data),
            outcome: Ok::<(), E>(()),
        },
        LinkEvent::Received { bytes: packet(id, 0, Seq::empty()), outcome: Ok::<(), E>(()) },
    ];
    assert(accs.drop_last() =~= Seq::<RegisterAccess>::empty());
    assert(chain_effect::<E>(true, Some(id), accs.drop_last(), ev) == Some(
        (Ok::<Seq<Seq<u8>>, ProtocolError<E>>(Seq::empty()), 0nat),
    ));
    assert(ev.skip(0) =~= ev);
    assert(access_effect(true, Some(id), accs.last(), ev) == Some((Ok::<Seq<u8>, ProtocolError<E>>(Seq::empty()), 2nat)));
    assert(Seq::<Seq<u8>>::empty().push(Seq::empty()) =~= seq![Seq::<u8>::empty()]);
}

/// The packet that locks (`locked`) or unlocks the EEPROM of servo `id`.
pub open spec fn lock_packet(id: u8, lock_address: u8, locked: bool) -> Seq<u8> {
    packet(id, Instruction::Write.spec_code(), seq![lock_address, if locked { 1u8 } else { 0u8 }])
}

/// An EEPROM sequence always locks the EEPROM again once the unlock went
/// through: whatever the body did, the lock write is sent to the servo, and
/// it is the last request of the sequence.
pub proof fn lemma_eeprom_relocks<E>(
    level: bool,
    id: u8,
    lock_address: u8,
    body: Seq<RegisterAccess>,
    ev: Seq<LinkEvent<E>>,
)
    requires
        eeprom_effect(level, Some(id), lock_address, body, ev) is Some,
        access_effect(level, Some(id), lock_access(lock_address, false), ev) matches Some((Ok(_), _)),
    ensures
        exists|k: int|
            0 <= k < eeprom_effect(level, Some(id), lock_address, body, ev).unwrap().1
                && (#[trigger] ev[k]) is Sent && ev[k]->Sent_packet == lock_packet(id, lock_address, true)
                && forall|j: int|
                    k < j < eeprom_effect(level, Some(id), lock_address, body, ev).unwrap().1 ==> !(
                    #[trigger] ev[j] is Sent),
{
    let (_, n) = access_effect(level, Some(id), lock_access(lock_address, false), ev).unwrap();
    assert(seq![lock_address] + seq![0u8] =~= seq![lock_address, 0u8]);
    assert(seq![lock_address] + seq![1u8] =~= seq![lock_address, 1u8]);
    assert(transfer_precheck::<E>(id, 2, 0) is Ok);
    lemma_access_prefix(level, Some(id), lock_access(lock_address, false), ev, Seq::empty());
    let (_, m) = chain_effect(level, Some(id), body, ev.skip(n as int)).unwrap();
    lemma_chain_prefix(level, Some(id), body, ev.skip(n as int), Seq::empty());
    let rest = ev.skip((n + m) as int);
    let (_, k) = access_effect(level, Some(id), lock_access(lock_address, true), rest).unwrap();
    lemma_access_prefix(level, Some(id), lock_access(lock_address, true), rest, Seq::empty());
    assert(rest.len() >= 1 && rest[0] is Sent && rest[0]->Sent_packet == lock_packet(id, lock_address, true));
    assert(k >= 1 && k <= 2);
    assert(rest[0] == ev[(n + m) as int]);
    if k == 2 {
        assert(rest.skip(1)[0] is Received);
        assert(rest.skip(1)[0] == ev[(n + m + 1) as int]);
    }
}

/// Changing a servo's ID always locks the EEPROM again once the unlock went
/// through; after a successful ID write the lock goes to the new ID.
pub proof fn lemma_set_id_relocks<E>(
    level: bool,
    current: u8,
    new: u8,
    lock_address: u8,
    id_address: u8,
    ev: Seq<LinkEvent<E>>,
)
    requires
        is_unicast(new),
        set_id_effect(level, current, new, lock_address, id_address, ev) is Some,
        access_effect(level, Some(current), lock_access(lock_address, false), ev) matches Some((Ok(_), _)),
    ensures
        exists|k: int|
            0 <= k < set_id_effect(level, current, new, lock_address, id_address, ev).unwrap().1
                && (#[trigger] ev[k]) is Sent && (ev[k]->Sent_packet == lock_packet(current, lock_address, true)
                || ev[k]->Sent_packet == lock_packet(new, lock_address, true)),
        set_id_effect(level, current, new, lock_address, id_address, ev).unwrap().0 is Ok ==> exists|k: int|
            0 <= k < set_id_effect(level, current, new, lock_address, id_address, ev).unwrap().1
                && (#[trigger] ev[k]) is Sent && ev[k]->Sent_packet == lock_packet(new, lock_address, true),
{
    let (_, n) = access_effect(level, Some(current), lock_access(lock_address, false), ev).unwrap();
    assert(seq![lock_address] + seq![0u8] =~= seq![lock_address, 0u8]);
    assert(seq![lock_address] + seq![1u8] =~= seq![lock_address, 1u8]);
    assert(transfer_precheck::<E>(current, 2, 0) is Ok);
    assert(transfer_precheck::<E>(new, 2, 0) is Ok);
    lemma_access_prefix(level, Some(current), lock_access(lock_address, false), ev, Seq::empty());
    let (w, m) = access_effect(level, Some(current), write_access(id_address, seq![new]), ev.skip(n as int)).unwrap();
    lemma_access_prefix(level, Some(current), write_access(id_address, seq![new]), ev.skip(n as int), Seq::empty());
    let rest = ev.skip((n + m) as int);
    let target = if w is Ok { new } else { current };
    let (_, k) = access_effect(level, Some(target), lock_access(lock_address, true), rest).unwrap();
    assert(rest.len() >= 1 && rest[0] is Sent && rest[0]->Sent_packet == lock_packet(target, lock_address, true));
    assert(rest[0] == ev[(n + m) as int]);
}

/// The outcome of a write, without its (empty) data.
pub open spec fn unit_of_access<E>(r: Result<Seq<u8>, ProtocolError<E>>) -> Result<(), ProtocolError<E>> {
    match r {
        Ok(_) => Ok(()),
        Err(e) => Err(e),
    }
}

/// `after` is `before` once a sequence of accesses on servo `id` ran to
/// completion and the addressed servo was released.
pub open spec fn chain_done<L: SerialLink>(
    after: UartBusInterface<L>,
    before: UartBusInterface<L>,
    id: u8,
    accs: Seq<RegisterAccess>,
) -> bool {
    let ev = added(before.history(), after.history());
    &&& after.status_level() == before.status_level()
    &&& after.bus_id() is None
    &&& extends(before.history(), after.history())
    &&& spans(chain_effect(before.status_level(), Some(id), accs, ev), ev.len())
}

/// The outcome of the sequence `chain_done` describes.
pub open spec fn chain_outcome<L: SerialLink>(
    after: UartBusInterface<L>,
    before: UartBusInterface<L>,
    id: u8,
    accs: Seq<RegisterAccess>,
) -> Result<Seq<Seq<u8>>, ProtocolError<L::Error>> {
    chain_effect(before.status_level(), Some(id), accs, added(before.history(), after.history())).unwrap().0
}

/// `after` is `before` once an EEPROM sequence on servo `id` ran to
/// completion and the addressed servo was released.
pub open spec fn eeprom_done<L: SerialLink>(
    after: UartBusInterface<L>,
    before: UartBusInterface<L>,
    id: u8,
    lock_address: u8,
    accs: Seq<RegisterAccess>,
) -> bool {
    let ev = added(before.history(), after.history());
    &&& after.status_level() == before.status_level()
    &&& after.bus_id() is None
    &&& extends(before.history(), after.history())
    &&& spans(eeprom_effect(before.status_level(), Some(id), lock_address, accs, ev), ev.len())
}

/// The outcome of the sequence `eeprom_done` describes.
pub open spec fn eeprom_outcome<L: SerialLink>(
    after: UartBusInterface<L>,
    before: UartBusInterface<L>,
    id: u8,
    lock_address: u8,
    accs: Seq<RegisterAccess>,
) -> Result<Seq<Seq<u8>>, ProtocolError<L::Error>> {
    eeprom_effect(
        before.status_level(),
        Some(id),
        lock_address,
        accs,
        added(before.history(), after.history()),
    ).unwrap().0
}

/// On success, a sequence yields one datum per access, as long as each read asked for.
pub open spec fn shaped(accs: Seq<RegisterAccess>, vs: Seq<Seq<u8>>) -> bool {
    &&& vs.len() == accs.len()
    &&& forall|i: int|
        0 <= i < accs.len() && (#[trigger] accs[i]) is Read ==> vs[i].len() == accs[i]->Read_len
}

/// A successful read yields as many bytes as it asked for.
pub proof fn lemma_access_shape<E>(level: bool, bus_id: Option<u8>, a: RegisterAccess, ev: Seq<LinkEvent<E>>)
    requires
        access_effect(level, bus_id, a, ev) matches Some((Ok(_), _)),
        a is Read,
    ensures
        access_effect(level, bus_id, a, ev).unwrap().0->Ok_0.len() == a->Read_len,
{
}

/// A successful sequence yields data shaped like its accesses.
pub proof fn lemma_chain_shape<E>(level: bool, bus_id: Option<u8>, accs: Seq<RegisterAccess>, ev: Seq<LinkEvent<E>>)
    requires
        chain_effect(level, bus_id, accs, ev) matches Some((Ok(_), _)),
    ensures
        shaped(accs, chain_effect(level, bus_id, accs, ev).unwrap().0->Ok_0),
    decreases accs.len(),
{
    if accs.len() > 0 {
        lemma_chain_shape(level, bus_id, accs.drop_last(), ev);
        let (r, n) = chain_effect(level, bus_id, accs.drop_last(), ev).unwrap();
        if accs.last() is Read {
            lemma_access_shape(level, bus_id, accs.last(), ev.skip(n as int));
        }
        let vs = chain_effect(level, bus_id, accs, ev).unwrap().0->Ok_0;
        assert forall|i: int| 0 <= i < accs.len() && (#[trigger] accs[i]) is Read implies vs[i].len()
            == accs[i]->Read_len by {
            if i < accs.len() - 1 {
                assert(accs[i] == accs.drop_last()[i]);
            }
        }
    }
}

/// A successful EEPROM sequence yields data shaped like its body.
pub proof fn lemma_eeprom_shape<E>(
    level: bool,
    bus_id: Option<u8>,
    lock_address: u8,
    accs: Seq<RegisterAccess>,
    ev: Seq<LinkEvent<E>>,
)
    requires
        eeprom_effect(level, bus_id, lock_address, accs, ev) matches Some((Ok(_), _)),
    ensures
        shaped(accs, eeprom_effect(level, bus_id, lock_address, accs, ev).unwrap().0->Ok_0),
{
    let (_, n) = access_effect(level, bus_id, lock_access(lock_address, false), ev).unwrap();
    lemma_chain_shape(level, bus_id, accs, ev.skip(n as int));
}

impl<L: SerialLink> UartBusInterface<L> {
    /// Parameters of a register write, `address data`, placed at the start of `params`.
    pub fn copy_reg_write_params<E>(params: &mut [u8; 256], address: u8, data: &[u8]) -> (r: Result<
        usize,
        ProtocolError<E>,
    >)
        ensures
            data@.len() == 0 || data@.len() >= 256 ==> r == Err::<usize, ProtocolError<E>>(
                ProtocolError::InvalidLength,
            ) && final(params)@ == old(params)@,
            !(data@.len() == 0 || data@.len() >= 256) ==> r == Ok::<usize, ProtocolError<E>>(
                (data@.len() + 1) as usize,
            ) && final(params)@.take(data@.len() + 1int) == seq![address] + data@,
    {
        if data.len() == 0 || data.len() >= 256 {
            return Err(ProtocolError::InvalidLength);
        }
        params[0] = address;
        let mut i: usize = 0;
        while i < data.len()
            invariant
                i <= data@.len() < 256,
                params@.len() == 256,
                params@[0] == address,
                forall|j: int| 0 <= j < i ==> params@[j + 1] == data@[j],
            decreases data@.len() - i,
        {
            params[i + 1] = data[i];
            i = i + 1;
        }
        proof {
            assert(params@.take(data@.len() + 1int) =~= seq![address] + data@);
        }
        Ok(data.len() + 1)
    }

    /// Writes `data` to the registers from `address` on, on the addressed servo.
    pub fn write_register(&mut self, address: u8, data: &[u8]) -> (r: Result<(), ProtocolError<L::Error>>)
        ensures
            final(self).same_config(old(self)),
            extends(old(self).history(), final(self).history()),
            ({
                let ev = added(old(self).history(), final(self).history());
                let eff = access_effect(
                    old(self).status_level(),
                    old(self).bus_id(),
                    write_access(address, data@),
                    ev,
                );
                &&& spans(eff, ev.len())
                &&& match eff.unwrap().0 {
                    Ok(_) => r is Ok,
                    Err(e) => r == Err::<(), ProtocolError<L::Error>>(e),
                }
            }),
    {
        let ghost h0 = self.history();
        let id = match self.busid() {
            Some(id) => id,
            None => {
                proof {
                    lemma_extends_refl(h0);
                }
                return Err(ProtocolError::InvalidId);
            },
        };
        let mut params = [0u8; 256];
        let len = match Self::copy_reg_write_params(&mut params, address, data) {
            Ok(len) => len,
            Err(e) => {
                proof {
                    lemma_extends_refl(h0);
                }
                return Err(e);
            },
        };
        let slice = params.as_slice();
        let request = &slice[0..len];
        let mut response: [u8; 0] = [];
        match self.blocking_transfer(id, Instruction::Write, request, &mut response) {
            Ok(_) => Ok(()),
            Err(e) => Err(e),
        }
    }

    /// Reads `data.len()` bytes from the registers from `address` on, on the addressed servo.
    pub fn read_register(&mut self, address: u8, data: &mut [u8]) -> (r: Result<(), ProtocolError<L::Error>>)
        ensures
            final(self).same_config(old(self)),
            extends(old(self).history(), final(self).history()),
            ({
                let ev = added(old(self).history(), final(self).history());
                let eff = access_effect(
                    old(self).status_level(),
                    old(self).bus_id(),
                    read_access(address, old(data)@.len()),
                    ev,
                );
                &&& spans(eff, ev.len())
                &&& match eff.unwrap().0 {
                    Ok(v) => r is Ok && final(data)@ == v,
                    Err(e) => r == Err::<(), ProtocolError<L::Error>>(e) && final(data)@ == old(data)@,
                }
            }),
    {
        let ghost h0 = self.history();
        let id = match self.busid() {
            Some(id) => id,
            None => {
                proof {
                    lemma_extends_refl(h0);
                }
                return Err(ProtocolError::InvalidId);
            },
        };
        if data.len() > 255 {
            proof {
                lemma_extends_refl(h0);
            }
            return Err(ProtocolError::InvalidLength);
        }
        let len = data.len() as u8;
        let params = [address, len];
        let ghost old_data = data@;
        let r = self.blocking_transfer(id, Instruction::Read, params.as_slice(), data);
        proof {
            assert(params@ =~= seq![address, len]);
            if old_data.len() == 0 {
                assert(old_data =~= Seq::<u8>::empty());
            }
        }
        match r {
            Ok(_) => Ok(()),
            Err(e) => Err(e),
        }
    }

    /// Performs one access; a read yields the bytes read, a write nothing.
    pub fn run_access(&mut self, access: &Access) -> (r: Result<Vec<u8>, ProtocolError<L::Error>>)
        ensures
            final(self).same_config(old(self)),
            extends(old(self).history(), final(self).history()),
            ({
                let ev = added(old(self).history(), final(self).history());
                let eff = access_effect(old(self).status_level(), old(self).bus_id(), access@, ev);
                &&& spans(eff, ev.len())
                &&& match eff.unwrap().0 {
                    Ok(v) => r is Ok && r->Ok_0@ == v,
                    Err(e) => r == Err::<Vec<u8>, ProtocolError<L::Error>>(e),
                }
            }),
    {
        match access {
            Access::Write { address, data } => {
                match self.write_register(*address, data.as_slice()) {
                    Ok(()) => Ok(Vec::new()),
                    Err(e) => Err(e),
                }
            },
            Access::Read { address, len } => {
                let mut buf: Vec<u8> = vec![0u8; *len];
                match self.read_register(*address, buf.as_mut_slice()) {
                    Ok(()) => Ok(buf),
                    Err(e) => Err(e),
                }
            },
        }
    }

    /// Performs `accesses` in order, stopping at the first that fails; on
    /// success, the data each access yielded.
    pub fn run_chain(&mut self, accesses: &[Access]) -> (r: Result<Vec<Vec<u8>>, ProtocolError<L::Error>>)
        ensures
            final(self).same_config(old(self)),
            extends(old(self).history(), final(self).history()),
            ({
                let ev = added(old(self).history(), final(self).history());
                let eff = chain_effect(
                    old(self).status_level(),
                    old(self).bus_id(),
                    access_views(accesses@),
                    ev,
                );
                &&& spans(eff, ev.len())
                &&& match eff.unwrap().0 {
                    Ok(vs) => r is Ok && data_views(r->Ok_0@) == vs,
                    Err(e) => r == Err::<Vec<Vec<u8>>, ProtocolError<L::Error>>(e),
                }
            }),
    {
        let ghost h0 = self.history();
        let ghost level = self.status_level();
        let ghost bus_id = self.bus_id();
        let mut results: Vec<Vec<u8>> = Vec::new();
        let mut i: usize = 0;
        proof {
            lemma_extends_refl(h0);
            assert(access_views(accesses@).take(0) =~= Seq::<RegisterAccess>::empty());
            assert(data_views(results@) =~= Seq::<Seq<u8>>::empty());
        }
        while i < accesses.len()
            invariant
                i <= accesses@.len(),
                h0 == old(self).history(),
                level == old(self).status_level(),
                bus_id == old(self).bus_id(),
                self.status_level() == level,
                self.bus_id() == bus_id,
                extends(h0, self.history()),
                chain_effect(
                    level,
                    bus_id,
                    access_views(accesses@).take(i as int),
                    added(h0, self.history()),
                ) == Some(
                    (
                        Ok::<Seq<Seq<u8>>, ProtocolError<L::Error>>(data_views(results@)),
                        added(h0, self.history()).len(),
                    ),
                ),
            decreases accesses@.len() - i,
        {
            let ghost h1 = self.history();
            let ghost vs = data_views(results@);
            let r = self.run_access(&accesses[i]);
            proof {
                let h2 = self.history();
                lemma_extends_trans(h0, h1, h2);
                lemma_chain_snoc(
                    level,
                    bus_id,
                    access_views(accesses@).take(i as int),
                    accesses@[i as int]@,
                    added(h0, h1),
                    added(h1, h2),
                    vs,
                );
                assert(access_views(accesses@).take(i as int).push(accesses@[i as int]@)
                    =~= access_views(accesses@).take(i + 1));
            }
            match r {
                Ok(v) => {
                    results.push(v);
                    proof {
                        assert(data_views(results@) =~= vs.push(v@));
                    }
                },
                Err(e) => {
                    proof {
                        lemma_chain_stops(
                            level,
                            bus_id,
                            access_views(accesses@).take(i + 1),
                            access_views(accesses@).skip(i + 1),
                            added(h0, self.history()),
                            e,
                        );
                        assert(access_views(accesses@).take(i + 1) + access_views(accesses@).skip(i + 1)
                            =~= access_views(accesses@));
                    }
                    return Err(e);
                },
            }
            i = i + 1;
        }
        proof {
            assert(access_views(accesses@).take(i as int) =~= access_views(accesses@));
        }
        Ok(results)
    }

    /// Writes the EEPROM lock flag at `lock_address`: `true` locks, `false` unlocks.
    pub fn write_lock_flag(&mut self, lock_address: u8, locked: bool) -> (r: Result<(), ProtocolError<L::Error>>)
        ensures
            final(self).same_config(old(self)),
            extends(old(self).history(), final(self).history()),
            ({
                let ev = added(old(self).history(), final(self).history());
                let eff = access_effect(
                    old(self).status_level(),
                    old(self).bus_id(),
                    lock_access(lock_address, locked),
                    ev,
                );
                &&& spans(eff, ev.len())
                &&& match eff.unwrap().0 {
                    Ok(_) => r is Ok,
                    Err(e) => r == Err::<(), ProtocolError<L::Error>>(e),
                }
            }),
    {
        let flag: [u8; 1] = [if locked { 1u8 } else { 0u8 }];
        proof {
            assert(flag@ =~= seq![if locked { 1u8 } else { 0u8 }]);
        }
        self.write_register(lock_address, flag.as_slice())
    }

    /// Unlocks the EEPROM, performs `body` (stopping at its first failure) and
    /// locks the EEPROM again whenever the unlock succeeded.
    pub fn run_eeprom(&mut self, lock_address: u8, body: &[Access]) -> (r: Result<
        Vec<Vec<u8>>,
        ProtocolError<L::Error>,
    >)
        ensures
            final(self).same_config(old(self)),
            extends(old(self).history(), final(self).history()),
            ({
                let ev = added(old(self).history(), final(self).history());
                let eff = eeprom_effect(
                    old(self).status_level(),
                    old(self).bus_id(),
                    lock_address,
                    access_views(body@),
                    ev,
                );
                &&& spans(eff, ev.len())
                &&& match eff.unwrap().0 {
                    Ok(vs) => r is Ok && data_views(r->Ok_0@) == vs,
                    Err(e) => r == Err::<Vec<Vec<u8>>, ProtocolError<L::Error>>(e),
                }
            }),
    {
        let ghost level = self.status_level();
        let ghost bus_id = self.bus_id();
        let ghost h0 = self.history();
        let unlocked = self.write_lock_flag(lock_address, false);
        let ghost h1 = self.history();
        if let Err(e) = unlocked {
            return Err(e);
        }
        let r = self.run_chain(body);
        let ghost h2 = self.history();
        let locked = self.write_lock_flag(lock_address, true);
        let ghost h3 = self.history();
        proof {
            let e1 = added(h0, h1);
            let e2 = added(h1, h2);
            let e3 = added(h2, h3);
            lemma_extends_trans(h0, h1, h2);
            lemma_extends_trans(h0, h2, h3);
            let ev = added(h0, h3);
            assert(ev == e1 + e2 + e3);
            lemma_access_prefix(level, bus_id, lock_access(lock_address, false), e1, e2 + e3);
            assert(ev =~= e1 + (e2 + e3));
            assert(ev.skip(e1.len() as int) =~= e2 + e3);
            lemma_chain_prefix(level, bus_id, access_views(body@), e2, e3);
            assert(ev.skip((e1.len() + e2.len()) as int) =~= e3);
        }
        match r {
            Err(e) => Err(e),
            Ok(v) => match locked {
                Ok(()) => Ok(v),
                Err(e) => Err(e),
            },
        }
    }

    /// Performs `accesses` on servo `id`, then releases the addressed servo.
    pub fn run_chain_on(&mut self, id: u8, accesses: &[Access]) -> (r: Result<
        Vec<Vec<u8>>,
        ProtocolError<L::Error>,
    >)
        ensures
            chain_done(*final(self), *old(self), id, access_views(accesses@)),
            match chain_outcome(*final(self), *old(self), id, access_views(accesses@)) {
                Ok(vs) => r is Ok && data_views(r->Ok_0@) == vs && shaped(access_views(accesses@), vs),
                Err(e) => r == Err::<Vec<Vec<u8>>, ProtocolError<L::Error>>(e),
            },
    {
        let ghost level = self.status_level();
        let ghost h0 = self.history();
        self.set_busid(id);
        let r = self.run_chain(accesses);
        self.clear_busid();
        proof {
            let ev = added(h0, self.history());
            if chain_effect(level, Some(id), access_views(accesses@), ev) matches Some((Ok(_), _)) {
                lemma_chain_shape(level, Some(id), access_views(accesses@), ev);
            }
        }
        r
    }

    /// Performs `accesses` on servo `id` with its EEPROM unlocked (see
    /// [`Self::run_eeprom`]), then releases the addressed servo.
    pub fn run_eeprom_on(&mut self, id: u8, lock_address: u8, accesses: &[Access]) -> (r: Result<
        Vec<Vec<u8>>,
        ProtocolError<L::Error>,
    >)
        ensures
            eeprom_done(*final(self), *old(self), id, lock_address, access_views(accesses@)),
            match eeprom_outcome(*final(self), *old(self), id, lock_address, access_views(accesses@)) {
                Ok(vs) => r is Ok && data_views(r->Ok_0@) == vs && shaped(access_views(accesses@), vs),
                Err(e) => r == Err::<Vec<Vec<u8>>, ProtocolError<L::Error>>(e),
            },
    {
        let ghost level = self.status_level();
        let ghost h0 = self.history();
        self.set_busid(id);
        let r = self.run_eeprom(lock_address, accesses);
        self.clear_busid();
        proof {
            let ev = added(h0, self.history());
            if eeprom_effect(level, Some(id), lock_address, access_views(accesses@), ev) matches Some((Ok(_), _)) {
                lemma_eeprom_shape(level, Some(id), lock_address, access_views(accesses@), ev);
            }
        }
        r
    }

    /// Changes the ID of servo `current` to `new` (see [`set_id_effect`]),
    /// then releases the addressed servo.
    pub fn run_set_id(&mut self, current: u8, new: u8, lock_address: u8, id_address: u8) -> (r: Result<
        (),
        ProtocolError<L::Error>,
    >)
        ensures
            final(self).status_level() == old(self).status_level(),
            final(self).bus_id() is None,
            extends(old(self).history(), final(self).history()),
            ({
                let ev = added(old(self).history(), final(self).history());
                let eff = set_id_effect(old(self).status_level(), current, new, lock_address, id_address, ev);
                spans(eff, ev.len()) && r == eff.unwrap().0
            }),
    {
        let ghost level = self.status_level();
        let ghost h0 = self.history();
        self.set_busid(current);
        let unlocked = self.write_lock_flag(lock_address, false);
        let ghost h1 = self.history();
        if let Err(e) = unlocked {
            self.clear_busid();
            return Err(e);
        }
        let id_byte: [u8; 1] = [new];
        proof {
            assert(id_byte@ =~= seq![new]);
        }
        let written = self.write_register(id_address, id_byte.as_slice());
        let ghost h2 = self.history();
        if let Err(e) = written {
            let _ = self.write_lock_flag(lock_address, true);
            proof {
                let h3 = self.history();
                lemma_extends_trans(h0, h1, h2);
                lemma_extends_trans(h0, h2, h3);
                lemma_set_id_steps(level, current, new, lock_address, id_address, added(h0, h1), added(h1, h2), added(h2, h3));
                assert(added(h0, h3) =~= added(h0, h1) + added(h1, h2) + added(h2, h3));
            }
            self.clear_busid();
            return Err(e);
        }
        self.set_busid(new);
        let locked = self.write_lock_flag(lock_address, true);
        proof {
            let h3 = self.history();
            lemma_extends_trans(h0, h1, h2);
            lemma_extends_trans(h0, h2, h3);
            lemma_set_id_steps(level, current, new, lock_address, id_address, added(h0, h1), added(h1, h2), added(h2, h3));
            assert(added(h0, h3) =~= added(h0, h1) + added(h1, h2) + added(h2, h3));
        }
        self.clear_busid();
        match locked {
            Ok(()) => Ok(()),
            Err(e) => Err(e),
        }
    }
}

} // verus!
