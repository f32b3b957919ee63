//! Payloads of SYNC WRITE commands: one entry per servo, packed into a
//! 256-byte buffer.

use vstd::prelude::*;

use crate::error::ProtocolError;
use crate::types::{SyncWriteData, TorqueModeCommand};
use crate::uart::{sync_write_done, SerialLink, UartBusInterface};

verus! {

/// Size of the buffer sync-write payloads are packed into.
pub const PAYLOAD_CAPACITY: usize = 256;

/// Packing entries of `entry_len` bytes, in order; `None` is an entry whose
/// setting is out of range. The first entry that is out of range or does not
/// fit decides the error; `setting_first` says which check an entry makes
/// first when both fail.
pub open spec fn pack<E>(entries: Seq<Option<Seq<u8>>>, entry_len: nat, setting_first: bool) -> Result<
    Seq<u8>,
    ProtocolError<E>,
>
    decreases entries.len(),
{
    if entries.len() == 0 {
        Ok(Seq::empty())
    } else {
        match pack::<E>(entries.drop_last(), entry_len, setting_first) {
            Err(e) => Err(e),
            Ok(p) => {
                let overflow = p.len() + entry_len > PAYLOAD_CAPACITY;
                match entries.last() {
                    None => if overflow && !setting_first {
                        Err(ProtocolError::InvalidLength)
                    } else {
                        Err(ProtocolError::InvalidSetting)
                    },
                    Some(bytes) => if overflow {
                        Err(ProtocolError::InvalidLength)
                    } else {
                        Ok(p + bytes)
                    },
                }
            },
        }
    }
}

/// `after` is `before` once a sync write of `entries` to the registers from
/// `address` on, `data_len` bytes per servo, returned `r`: when packing fails
/// nothing is sent and the packing error is returned.
pub open spec fn packed_sync_write_done<L: SerialLink>(
    after: UartBusInterface<L>,
    before: UartBusInterface<L>,
    address: u8,
    data_len: u8,
    entries: Seq<Option<Seq<u8>>>,
    entry_len: nat,
    setting_first: bool,
    r: Result<(), ProtocolError<L::Error>>,
) -> bool {
    match pack::<L::Error>(entries, entry_len, setting_first) {
        Err(e) => after == before && r == Err::<(), ProtocolError<L::Error>>(e),
        Ok(p) => sync_write_done(after, before, address, data_len, p, r),
    }
}

/// The sync-write entry of a torque-mode command.
pub open spec fn torque_mode_entry(c: TorqueModeCommand) -> Option<Seq<u8>> {
    Some(seq![c.id, c.mode.spec_raw()])
}

/// The sync-write entry of a raw data command.
pub open spec fn raw_entry<const DATA_LEN: usize>(c: SyncWriteData<DATA_LEN>) -> Option<Seq<u8>> {
    Some(seq![c.id] + c.data@)
}

/// `r` is what packing `entries` with `data_len` bytes per servo returns.
pub open spec fn packed<E>(
    entries: Seq<Option<Seq<u8>>>,
    entry_len: nat,
    setting_first: bool,
    data_len: u8,
    r: Result<(u8, usize), ProtocolError<E>>,
    payload: Seq<u8>,
) -> bool {
    match pack::<E>(entries, entry_len, setting_first) {
        Ok(p) => r == Ok::<(u8, usize), ProtocolError<E>>((data_len, p.len() as usize)) && payload.take(
            p.len() as int,
        ) == p,
        Err(e) => r == Err::<(u8, usize), ProtocolError<E>>(e),
    }
}

/// Packs the torque-mode commands of a sync write; returns the data length
/// per servo and the payload length.
pub fn fill_sync_torque_mode_payload<E>(commands: &[TorqueModeCommand], payload: &mut [u8; 256]) -> (r: Result<
    (u8, usize),
    ProtocolError<E>,
>)
    ensures
        packed(commands@.map_values(|c: TorqueModeCommand| torque_mode_entry(c)), 2, true, 1, r, final(payload)@),
{
    let mut entries: Vec<Option<Vec<u8>>> = Vec::new();
    let mut i: usize = 0;
    while i < commands.len()
        invariant
            i <= commands@.len(),
            entry_views(entries@) == commands@.take(i as int).map_values(|c: TorqueModeCommand| torque_mode_entry(c)),
            forall|k: int| 0 <= k < entries@.len() && (#[trigger] entries@[k]) is Some ==> entries@[k]->0@.len() == 2,
        decreases commands@.len() - i,
    {
        let c = commands[i];
        let mut e: Vec<u8> = Vec::new();
        e.push(c.id);
        e.push(c.mode.raw());
        let entry = Some(e);
        let ghost old_entries = entries@;
        proof {
            assert(e@ =~= seq![c.id, c.mode.spec_raw()]);
            assert(entry_view(entry) == torque_mode_entry(c));
        }
        entries.push(entry);
        proof {
            assert(commands@.take(i + 1) =~= commands@.take(i as int).push(c));
            assert(entry_views(entries@) =~= entry_views(old_entries).push(torque_mode_entry(c)));
            assert(entry_views(entries@) =~= commands@.take(i + 1).map_values(
                |c: TorqueModeCommand| torque_mode_entry(c),
            ));
        }
        i = i + 1;
    }
    proof {
        assert(commands@.take(i as int) =~= commands@);
    }
    match pack_entries::<E>(entries.as_slice(), 2, true, payload) {
        Ok(len) => Ok((1, len)),
        Err(e) => Err(e),
    }
}

/// Packs raw commands of `DATA_LEN` bytes each; returns the payload length.
pub fn fill_sync_raw_payload<const DATA_LEN: usize, E>(commands: &[SyncWriteData<DATA_LEN>], payload: &mut [u8; 256]) -> (r: Result<
    usize,
    ProtocolError<E>,
>)
    requires
        DATA_LEN <= 255,
    ensures
        match pack::<E>(commands@.map_values(|c: SyncWriteData<DATA_LEN>| raw_entry(c)), (DATA_LEN + 1) as nat, true) {
            Ok(p) => r == Ok::<usize, ProtocolError<E>>(p.len() as usize) && final(payload)@.take(p.len() as int) == p,
            Err(e) => r == Err::<usize, ProtocolError<E>>(e),
        },
{
    let entry_len: usize = DATA_LEN + 1;
    let mut entries: Vec<Option<Vec<u8>>> = Vec::new();
    let mut i: usize = 0;
    while i < commands.len()
        invariant
            i <= commands@.len(),
            entry_len == DATA_LEN + 1,
            entry_views(entries@) == commands@.take(i as int).map_values(|c: SyncWriteData<DATA_LEN>| raw_entry(c)),
            forall|k: int| 0 <= k < entries@.len() && (#[trigger] entries@[k]) is Some ==> entries@[k]->0@.len() == entry_len,
        decreases commands@.len() - i,
    {
        let c = commands[i];
        let mut e: Vec<u8> = Vec::new();
        e.push(c.id);
        let mut t: usize = 0;
        while t < DATA_LEN
            invariant
                t <= DATA_LEN,
                c.data@.len() == DATA_LEN,
                e@ == seq![c.id] + c.data@.take(t as int),
            decreases DATA_LEN - t,
        {
            proof {
                assert(c.data@.take(t + 1) =~= c.data@.take(t as int).push(c.data@[t as int]));
            }
            e.push(c.data[t]);
            t = t + 1;
        }
        proof {
            assert(c.data@.take(DATA_LEN as int) =~= c.data@);
        }
        let entry = Some(e);
        let ghost old_entries = entries@;
        entries.push(entry);
        proof {
            assert(commands@.take(i + 1) =~= commands@.take(i as int).push(c));
            assert(entry_views(entries@) =~= entry_views(old_entries).push(raw_entry(c)));
            assert(entry_views(entries@) =~= commands@.take(i + 1).map_values(
                |c: SyncWriteData<DATA_LEN>| raw_entry(c),
            ));
        }
        i = i + 1;
    }
    proof {
        assert(commands@.take(i as int) =~= commands@);
    }
    pack_entries::<E>(entries.as_slice(), entry_len, true, payload)
}

/// An entry, as a sequence.
pub open spec fn entry_view(o: Option<Vec<u8>>) -> Option<Seq<u8>> {
    match o {
        Some(v) => Some(v@),
        None => None,
    }
}

/// The entries of `s`, as sequences.
pub open spec fn entry_views(s: Seq<Option<Vec<u8>>>) -> Seq<Option<Seq<u8>>> {
    s.map_values(|o: Option<Vec<u8>>| entry_view(o))
}

/// A packed payload is made of whole entries.
pub proof fn lemma_pack_len<E>(entries: Seq<Option<Seq<u8>>>, entry_len: nat, setting_first: bool)
    requires
        forall|i: int| 0 <= i < entries.len() && (#[trigger] entries[i]) is Some ==> entries[i]->0.len() == entry_len,
        pack::<E>(entries, entry_len, setting_first) is Ok,
    ensures
        pack::<E>(entries, entry_len, setting_first)->Ok_0.len() == entries.len() * entry_len,
        pack::<E>(entries, entry_len, setting_first)->Ok_0.len() <= PAYLOAD_CAPACITY,
    decreases entries.len(),
{
    if entries.len() > 0 {
        assert forall|i: int| 0 <= i < entries.drop_last().len() && (#[trigger] entries.drop_last()[i]) is Some implies entries.drop_last()[i]->0.len()
            == entry_len by {
            assert(entries.drop_last()[i] == entries[i]);
        }
        lemma_pack_len::<E>(entries.drop_last(), entry_len, setting_first);
        assert(entries.len() * entry_len == (entries.len() - 1) * entry_len + entry_len) by (nonlinear_arith);
    }
}

/// Packs `entries` (each `entry_len` bytes) at the start of `payload`;
/// returns the length used.
pub fn pack_entries<E>(
    entries: &[Option<Vec<u8>>],
    entry_len: usize,
    setting_first: bool,
    payload: &mut [u8; 256],
) -> (r: Result<usize, ProtocolError<E>>)
    requires
        forall|i: int|
            0 <= i < entries@.len() && (#[trigger] entries@[i]) is Some ==> entries@[i]->0@.len() == entry_len,
    ensures
        match pack::<E>(entry_views(entries@), entry_len as nat, setting_first) {
            Ok(p) => r == Ok::<usize, ProtocolError<E>>(p.len() as usize) && final(payload)@.take(p.len() as int) == p,
            Err(e) => r == Err::<usize, ProtocolError<E>>(e),
        },
{
    let ghost view = entry_views(entries@);
    let mut offset: usize = 0;
    let mut i: usize = 0;
    proof {
        assert(view.take(0) =~= Seq::<Option<Seq<u8>>>::empty());
        assert(payload@.take(0) =~= Seq::<u8>::empty());
    }
    while i < entries.len()
        invariant
            view == entry_views(entries@),
            forall|k: int|
                0 <= k < entries@.len() && (#[trigger] entries@[k]) is Some ==> entries@[k]->0@.len() == entry_len,
            i <= entries@.len(),
            offset <= PAYLOAD_CAPACITY,
            payload@.len() == 256,
            pack::<E>(view.take(i as int), entry_len as nat, setting_first) == Ok::<Seq<u8>, ProtocolError<E>>(
                payload@.take(offset as int),
            ),
        decreases entries@.len() - i,
    {
        let ghost before = payload@.take(offset as int);
        proof {
            assert(view.take(i + 1).drop_last() =~= view.take(i as int));
            assert(view.take(i + 1).last() == view[i as int]);
        }
        let overflow = entry_len > PAYLOAD_CAPACITY - offset;
        match &entries[i] {
            None => {
                if overflow && !setting_first {
                    proof {
                        lemma_pack_extend_err::<E>(view, i as int, entry_len as nat, setting_first);
                    }
                    return Err(ProtocolError::InvalidLength);
                } else {
                    proof {
                        lemma_pack_extend_err::<E>(view, i as int, entry_len as nat, setting_first);
                    }
                    return Err(ProtocolError::InvalidSetting);
                }
            },
            Some(bytes) => {
                if overflow {
                    proof {
                        lemma_pack_extend_err::<E>(view, i as int, entry_len as nat, setting_first);
                    }
                    return Err(ProtocolError::InvalidLength);
                }
                let mut t: usize = 0;
                while t < entry_len
                    invariant
                        t <= entry_len,
                        bytes@.len() == entry_len,
                        offset + entry_len <= PAYLOAD_CAPACITY,
                        payload@.len() == 256,
                        payload@.take(offset as int) == before,
                        forall|u: int| 0 <= u < t ==> payload@[offset + u] == bytes@[u],
                    decreases entry_len - t,
                {
                    proof {
                        assert(payload@.take(offset as int) =~= payload@.update(offset + t, bytes@[t as int]).take(offset as int));
                    }
                    payload[offset + t] = bytes[t];
                    t = t + 1;
                }
                proof {
                    assert(payload@.take(offset + entry_len) =~= before + bytes@);
                }
                offset = offset + entry_len;
            },
        }
        i = i + 1;
    }
    proof {
        assert(view.take(i as int) =~= view);
    }
    Ok(offset)
}

/// Once an entry fails, packing the rest fails the same way.
proof fn lemma_pack_extend_err<E>(view: Seq<Option<Seq<u8>>>, i: int, entry_len: nat, setting_first: bool)
    requires
        0 <= i < view.len(),
        pack::<E>(view.take(i + 1), entry_len, setting_first) is Err,
    ensures
        pack::<E>(view, entry_len, setting_first) == pack::<E>(view.take(i + 1), entry_len, setting_first),
    decreases view.len() - i,
{
    if i + 1 == view.len() {
        assert(view.take(i + 1) =~= view);
    } else {
        assert(view.drop_last().take(i + 1) =~= view.take(i + 1));
        lemma_pack_extend_err::<E>(view.drop_last(), i, entry_len, setting_first);
    }
}

} // verus!
