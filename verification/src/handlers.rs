//! The sync-side request handlers: the iteration engine that turns a
//! peer's request into a bounded, delimited stream of frames, and the
//! per-block handlers for each protocol.
use crate::class::Class;
use crate::class::ClassId;
use crate::class::ClassesMsg;
use crate::class::cairo0_dto_ok;
use crate::class::cairo1_dto_ok;
use crate::class::spec_class_hash;
use crate::data::BlockHash;
use crate::data::BlockNumber;
use crate::data::CasmHash;
use crate::data::ClassHash;
use crate::data::Event;
use crate::data::MAX_BLOCK_NUMBER;
use crate::data::Receipt;
use crate::data::SierraHash;
use crate::data::StateUpdateV;
use crate::data::Transaction;
use crate::data::TransactionHash;
use crate::data::clone_event;
use crate::data::clone_receipt;
use crate::data::clone_state_update;
use crate::data::copy_vec;
use crate::store::StorageView;
use crate::store::StoredClass;
use crate::store::find_block;
use crate::store::find_block_by_hash;
use crate::store::find_casm;
use crate::store::find_class;
use crate::wire::BlockId;
use crate::wire::BlockNumberOrHash;
use crate::wire::Direction;
use crate::wire::Fin;
use crate::wire::Frame;
use crate::wire::FrameBody;
use crate::wire::Iteration;
use crate::wire::Step;
use crate::wire::SyncError;
use vstd::prelude::*;

verus! {

/// The implementation ceiling on blocks answered per request.
pub const MAX_BLOCKS_COUNT: u64 = 100;

/// Which sync protocol a request belongs to.
#[derive(Clone, Copy, PartialEq, Eq, Structural, Debug)]
pub enum SyncRequestKind {
    Headers,
    Bodies,
    Transactions,
    Receipts,
    Events,
}

/// The block one step further in the given direction, when it exists:
/// forward walks stop past the largest representable number, backward
/// walks stop below zero.
pub open spec fn next_block(n: u64, step: u64, dir: Direction) -> Option<u64> {
    match dir {
        Direction::Forward => if n + step <= MAX_BLOCK_NUMBER {
            Some((n + step) as u64)
        } else {
            None
        },
        Direction::Backward => if n >= step && n - step <= MAX_BLOCK_NUMBER {
            Some((n - step) as u64)
        } else {
            None
        },
    }
}

/// Returns the next block number considering direction; `None` when the
/// walk leaves the representable range.
pub fn get_next_block_number(current: BlockNumber, step: Step, direction: Direction) -> (r: Option<
    BlockNumber,
>)
    ensures
        match next_block(current.0, step.spec_inner(), direction) {
            Some(m) => r == Some(BlockNumber(m)),
            None => r is None,
        },
{
    let n = current.get();
    let s = step.into_inner();
    match direction {
        Direction::Forward => {
            if s <= u64::MAX - n {
                BlockNumber::new(n + s)
            } else {
                None
            }
        },
        Direction::Backward => {
            if n >= s {
                BlockNumber::new(n - s)
            } else {
                None
            }
        },
    }
}

/// Where an iteration starts: a number stands for itself when it is
/// representable; a hash resolves through the store.
pub open spec fn resolve_start(store: StorageView, start: BlockNumberOrHash) -> Option<u64> {
    match start {
        BlockNumberOrHash::Number(n) => if n <= MAX_BLOCK_NUMBER {
            Some(n)
        } else {
            None
        },
        BlockNumberOrHash::Hash(h) => match find_block_by_hash(store.blocks@, h.0@) {
            Some(rec) => Some(rec.header.number),
            None => None,
        },
    }
}

/// Resolves a request's `start` to a block number.
pub fn get_start_block_number(start: BlockNumberOrHash, store: &StorageView) -> (r: Option<
    BlockNumber,
>)
    ensures
        match resolve_start(*store, start) {
            Some(n) => r == Some(BlockNumber(n)),
            None => r is None,
        },
{
    match start {
        BlockNumberOrHash::Number(n) => BlockNumber::new(n),
        BlockNumberOrHash::Hash(h) => match store.find_block_by_hash_ref(&h.0) {
            Some(rec) => Some(BlockNumber(rec.header.number)),
            None => None,
        },
    }
}

/// Whether the store can answer for this block under the given protocol.
pub open spec fn block_present(store: StorageView, kind: SyncRequestKind, n: u64) -> bool {
    match kind {
        SyncRequestKind::Headers => find_block(store.blocks@, n) is Some,
        SyncRequestKind::Bodies => find_block(store.blocks@, n) matches Some(rec)
            && rec.state_update is Some,
        _ => find_block(store.blocks@, n) matches Some(rec) && rec.transaction_data is Some,
    }
}

/// The classes a state update declares, legacy classes first, in order.
pub open spec fn class_ids_of(su: StateUpdateV) -> Seq<ClassId> {
    su.declared_cairo_classes.map_values(|h: ClassHash| ClassId::Cairo(h))
        + su.declared_sierra_classes.map_values(
        |p: (SierraHash, CasmHash)| ClassId::Sierra(p.0, p.1),
    )
}

/// Why one declared class cannot be served, if it cannot: its definition
/// is missing at this block, or the stored form does not match its kind.
pub open spec fn class_resolution_error(store: StorageView, n: u64, id: ClassId) -> Option<
    SyncError,
> {
    let h = spec_class_hash(id);
    match find_class(store.class_definitions@, h.0@, n) {
        None => Some(SyncError::ClassDefinitionNotFound),
        Some(def) => {
            let casm = find_casm(store.casm_definitions@, h.0@);
            if (id matches ClassId::Cairo(_) && def is Cairo && casm is None) || (id matches
                ClassId::Sierra(_, _) && def is Sierra && casm is Some) {
                None
            } else {
                Some(SyncError::ClassDefinitionMismatch)
            }
        },
    }
}

/// The first error among the declared classes, in declaration order.
pub open spec fn first_class_error(store: StorageView, n: u64, ids: Seq<ClassId>) -> Option<
    SyncError,
>
    decreases ids.len(),
{
    if ids.len() == 0 {
        None
    } else {
        match class_resolution_error(store, n, ids[0]) {
            Some(e) => Some(e),
            None => first_class_error(store, n, ids.drop_first()),
        }
    }
}

/// Why a block's handler fails, if it fails; only the bodies protocol can.
pub open spec fn block_error(store: StorageView, kind: SyncRequestKind, n: u64) -> Option<
    SyncError,
> {
    if kind is Bodies {
        match find_block(store.blocks@, n) {
            Some(rec) => match rec.state_update {
                Some(su) => first_class_error(store, n, class_ids_of(su@)),
                None => None,
            },
            None => None,
        }
    } else {
        None
    }
}

/// The wire form a declared class is served in: the stored definition of
/// its hash, converted.
pub open spec fn class_dto_ok(store: StorageView, n: u64, id: ClassId, c: Class) -> bool {
    let h = spec_class_hash(id);
    match find_class(store.class_definitions@, h.0@, n) {
        Some(StoredClass::Cairo(d)) => c matches Class::Cairo0(r) && cairo0_dto_ok(r, d),
        Some(StoredClass::Sierra(d)) => c matches Class::Cairo1(r) && (find_casm(
            store.casm_definitions@,
            h.0@,
        ) matches Some(casm) && cairo1_dto_ok(r, d, casm@)),
        None => false,
    }
}

/// A frame pertains to the given block.
pub open spec fn frame_id_ok(f: Frame, n: u64, h: BlockHash) -> bool {
    f.id matches Some(id) && id.number == n && id.hash.0 == h.0
}

/// The terminal frame of an iteration: a bare `Fin`.
pub open spec fn fin_frame(fin: Fin) -> Frame {
    Frame { id: None, body: FrameBody::Fin(fin) }
}

/// The `Fin::ok()` frame that seals one block's data.
pub open spec fn block_fin_ok(f: Frame, n: u64, h: BlockHash) -> bool {
    frame_id_ok(f, n, h) && f.body == FrameBody::Fin(Fin::Success)
}

/// How many frames one block contributes under the given protocol.
pub open spec fn block_frame_count(store: StorageView, kind: SyncRequestKind, n: u64) -> nat {
    match kind {
        SyncRequestKind::Headers => match find_block(store.blocks@, n) {
            Some(rec) => if rec.signature is Some {
                3nat
            } else {
                2nat
            },
            None => 0,
        },
        SyncRequestKind::Bodies => 3,
        _ => 2,
    }
}

/// The frames the headers protocol serves for one block: the header,
/// its signature when one is stored, and a sealing `Fin::ok()`.
pub open spec fn header_frames_ok(store: StorageView, n: u64, fs: Seq<Frame>) -> bool {
    match find_block(store.blocks@, n) {
        Some(rec) => {
            let h = rec.header.hash;
            &&& fs.len() == block_frame_count(store, SyncRequestKind::Headers, n)
            &&& fs[0].body matches FrameBody::Header(hd) && hd == rec.header
            &&& frame_id_ok(fs[0], n, h)
            &&& match rec.signature {
                Some(sig) => fs[1].body matches FrameBody::Signatures(sigs) && (sigs@ == seq![sig]
                    && frame_id_ok(fs[1], n, h)),
                None => true,
            }
            &&& block_fin_ok(fs[fs.len() - 1], n, h)
        },
        None => false,
    }
}

/// The one classes payload a block's body answer carries.
pub open spec fn classes_msg_ok(store: StorageView, n: u64, su: StateUpdateV, m: ClassesMsg) -> bool {
    classes_of_ids_ok(store, n, class_ids_of(su), m)
}

/// The frames the bodies protocol serves for one block: the state diff,
/// the declared classes, and a sealing `Fin::ok()`.
pub open spec fn body_frames_ok(store: StorageView, n: u64, fs: Seq<Frame>) -> bool {
    match find_block(store.blocks@, n) {
        Some(rec) => match rec.state_update {
            Some(su) => {
                let h = su.block_hash;
                &&& fs.len() == 3
                &&& fs[0].body matches FrameBody::Diff(d) && d@ == su@
                &&& frame_id_ok(fs[0], n, h)
                &&& fs[1].body matches FrameBody::Classes(m) && classes_msg_ok(store, n, su@, m)
                &&& frame_id_ok(fs[1], n, h)
                &&& block_fin_ok(fs[2], n, h)
            },
            None => false,
        },
        None => false,
    }
}

/// The frames the transactions protocol serves for one block.
pub open spec fn transactions_frames_ok(store: StorageView, n: u64, fs: Seq<Frame>) -> bool {
    match find_block(store.blocks@, n) {
        Some(rec) => match rec.transaction_data {
            Some(td) => {
                let h = rec.header.hash;
                &&& fs.len() == 2
                &&& fs[0].body matches FrameBody::Transactions(items) && items@ == td@.map_values(
                    |p: (Transaction, Receipt)| p.0,
                )
                &&& frame_id_ok(fs[0], n, h)
                &&& block_fin_ok(fs[1], n, h)
            },
            None => false,
        },
        None => false,
    }
}

/// The frames the receipts protocol serves for one block.
pub open spec fn receipts_frames_ok(store: StorageView, n: u64, fs: Seq<Frame>) -> bool {
    match find_block(store.blocks@, n) {
        Some(rec) => match rec.transaction_data {
            Some(td) => {
                let h = rec.header.hash;
                &&& fs.len() == 2
                &&& fs[0].body matches FrameBody::Receipts(items) && items@.map_values(
                    |x: Receipt| x@,
                ) == td@.map_values(|p: (Transaction, Receipt)| p.1@)
                &&& frame_id_ok(fs[0], n, h)
                &&& block_fin_ok(fs[1], n, h)
            },
            None => false,
        },
        None => false,
    }
}

/// The `(transaction hash, event)` pairs of a block, flattened in
/// per-receipt order.
pub open spec fn events_of(td: Seq<(Transaction, Receipt)>) -> Seq<
    (TransactionHash, crate::data::EventV),
>
    decreases td.len(),
{
    if td.len() == 0 {
        Seq::empty()
    } else {
        td[0].1@.events.map_values(
            |e: crate::data::EventV| (td[0].1.transaction_hash, e),
        ) + events_of(td.drop_first())
    }
}

/// The frames the events protocol serves for one block.
pub open spec fn events_frames_ok(store: StorageView, n: u64, fs: Seq<Frame>) -> bool {
    match find_block(store.blocks@, n) {
        Some(rec) => match rec.transaction_data {
            Some(td) => {
                let h = rec.header.hash;
                &&& fs.len() == 2
                &&& fs[0].body matches FrameBody::Events(items) && items@.map_values(
                    |p: (TransactionHash, Event)| (p.0, p.1@),
                ) == events_of(td@)
                &&& frame_id_ok(fs[0], n, h)
                &&& block_fin_ok(fs[1], n, h)
            },
            None => false,
        },
        None => false,
    }
}

/// Serves one block for the headers protocol; `true` exactly when the
/// store holds the block, with its frames appended and sealed.
pub fn get_header(store: &StorageView, block_number: BlockNumber, parts: &mut Vec<Frame>) -> (r:
    bool)
    ensures
        r == block_present(*store, SyncRequestKind::Headers, block_number.0),
        final(parts)@.take(old(parts)@.len() as int) == old(parts)@,
        r ==> final(parts)@.len() == old(parts)@.len() + block_frame_count(
            *store,
            SyncRequestKind::Headers,
            block_number.0,
        ) && header_frames_ok(
            *store,
            block_number.0,
            final(parts)@.skip(old(parts)@.len() as int),
        ),
        !r ==> final(parts)@ == old(parts)@,
{
    let n = block_number.get();
    let ghost old_len = parts@.len() as int;
    match store.block_header(n) {
        Some(header) => {
            let id = Some(BlockId { number: n, hash: crate::wire::Hash(header.hash.0) });
            parts.push(Frame { id, body: FrameBody::Header(header) });
            match store.signature(n) {
                Some(sig) => {
                    let mut sigs: Vec<crate::data::ConsensusSignature> = Vec::new();
                    sigs.push(sig);
                    proof {
                        assert(sigs@ =~= seq![sig]);
                    }
                    parts.push(Frame { id, body: FrameBody::Signatures(sigs) });
                },
                None => {},
            }
            parts.push(Frame { id, body: FrameBody::Fin(Fin::ok()) });
            proof {
                assert(parts@.take(old_len) =~= old(parts)@);
                let fs = parts@.skip(old_len);
                assert(fs[0] == parts@[old_len]);
                assert(fs[fs.len() - 1] == parts@[parts@.len() - 1]);
                if fs.len() == 3 {
                    assert(fs[1] == parts@[old_len + 1]);
                }
            }
            true
        },
        None => {
            proof {
                assert(parts@.take(old_len) =~= old(parts)@);
            }
            false
        },
    }
}

/// Serves one block for the transactions protocol.
pub fn get_transactions_for_block(
    store: &StorageView,
    block_number: BlockNumber,
    responses: &mut Vec<Frame>,
) -> (r: bool)
    ensures
        r == block_present(*store, SyncRequestKind::Transactions, block_number.0),
        final(responses)@.take(old(responses)@.len() as int) == old(responses)@,
        r ==> final(responses)@.len() == old(responses)@.len() + 2 && transactions_frames_ok(
            *store,
            block_number.0,
            final(responses)@.skip(old(responses)@.len() as int),
        ),
        !r ==> final(responses)@ == old(responses)@,
{
    let n = block_number.get();
    let ghost old_len = responses@.len() as int;
    match store.find_block_ref(n) {
        Some(rec) => {
            match &rec.transaction_data {
                Some(td) => {
                    let mut items: Vec<Transaction> = Vec::new();
                    let mut i: usize = 0;
                    while i < td.len()
                        invariant
                            i <= td@.len(),
                            items@.len() == i,
                            forall|j: int| 0 <= j < i ==> items@[j] == #[trigger] td@[j].0,
                        decreases td@.len() - i,
                    {
                        items.push(td[i].0);
                        i = i + 1;
                    }
                    proof {
                        assert(items@ =~= td@.map_values(|p: (Transaction, Receipt)| p.0));
                    }
                    let id = Some(BlockId { number: n, hash: crate::wire::Hash(rec.header.hash.0) });
                    responses.push(Frame { id, body: FrameBody::Transactions(items) });
                    responses.push(Frame { id, body: FrameBody::Fin(Fin::ok()) });
                    proof {
                        assert(responses@.take(old_len) =~= old(responses)@);
                        let fs = responses@.skip(old_len);
                        assert(fs[0] == responses@[old_len]);
                        assert(fs[1] == responses@[old_len + 1]);
                    }
                    true
                },
                None => {
                    proof {
                        assert(responses@.take(old_len) =~= old(responses)@);
                    }
                    false
                },
            }
        },
        None => {
            proof {
                assert(responses@.take(old_len) =~= old(responses)@);
            }
            false
        },
    }
}

/// Serves one block for the receipts protocol.
pub fn get_receipts_for_block(
    store: &StorageView,
    block_number: BlockNumber,
    responses: &mut Vec<Frame>,
) -> (r: bool)
    ensures
        r == block_present(*store, SyncRequestKind::Receipts, block_number.0),
        final(responses)@.take(old(responses)@.len() as int) == old(responses)@,
        r ==> final(responses)@.len() == old(responses)@.len() + 2 && receipts_frames_ok(
            *store,
            block_number.0,
            final(responses)@.skip(old(responses)@.len() as int),
        ),
        !r ==> final(responses)@ == old(responses)@,
{
    let n = block_number.get();
    let ghost old_len = responses@.len() as int;
    match store.find_block_ref(n) {
        Some(rec) => {
            match &rec.transaction_data {
                Some(td) => {
                    let mut items: Vec<Receipt> = Vec::new();
                    let mut i: usize = 0;
                    while i < td.len()
                        invariant
                            i <= td@.len(),
                            items@.len() == i,
                            forall|j: int| 0 <= j < i ==> items@[j]@ == #[trigger] td@[j].1@,
                        decreases td@.len() - i,
                    {
                        items.push(clone_receipt(&td[i].1));
                        i = i + 1;
                    }
                    proof {
                        assert(items@.map_values(|x: Receipt| x@) =~= td@.map_values(
                            |p: (Transaction, Receipt)| p.1@,
                        ));
                    }
                    let id = Some(BlockId { number: n, hash: crate::wire::Hash(rec.header.hash.0) });
                    responses.push(Frame { id, body: FrameBody::Receipts(items) });
                    responses.push(Frame { id, body: FrameBody::Fin(Fin::ok()) });
                    proof {
                        assert(responses@.take(old_len) =~= old(responses)@);
                        let fs = responses@.skip(old_len);
                        assert(fs[0] == responses@[old_len]);
                        assert(fs[1] == responses@[old_len + 1]);
                    }
                    true
                },
                None => {
                    proof {
                        assert(responses@.take(old_len) =~= old(responses)@);
                    }
                    false
                },
            }
        },
        None => {
            proof {
                assert(responses@.take(old_len) =~= old(responses)@);
            }
            false
        },
    }
}

/// Appending one more transaction extends the flattened event pairs by
/// that transaction's events.
proof fn lemma_events_of_push(td: Seq<(Transaction, Receipt)>, x: (Transaction, Receipt))
    ensures
        events_of(td.push(x)) == events_of(td) + x.1@.events.map_values(
            |e: crate::data::EventV| (x.1.transaction_hash, e),
        ),
    decreases td.len(),
{
    let xpart = x.1@.events.map_values(|e: crate::data::EventV| (x.1.transaction_hash, e));
    if td.len() == 0 {
        let s = td.push(x);
        assert(s[0] == x);
        assert(s.drop_first() =~= Seq::<(Transaction, Receipt)>::empty());
        assert(events_of(Seq::<(Transaction, Receipt)>::empty()) =~= Seq::<
            (TransactionHash, crate::data::EventV),
        >::empty());
        assert(events_of(s) == s[0].1@.events.map_values(
            |e: crate::data::EventV| (s[0].1.transaction_hash, e),
        ) + events_of(s.drop_first()));
        assert(s[0].1@.events.map_values(|e: crate::data::EventV| (s[0].1.transaction_hash, e))
            =~= xpart);
        assert(events_of(s) =~= xpart);
        assert(events_of(td) + xpart =~= xpart);
    } else {
        assert(td.push(x)[0] == td[0]);
        assert(td.push(x).drop_first() =~= td.drop_first().push(x));
        lemma_events_of_push(td.drop_first(), x);
        let head = td[0].1@.events.map_values(
            |e: crate::data::EventV| (td[0].1.transaction_hash, e),
        );
        assert(events_of(td.push(x)) == head + (events_of(td.drop_first()) + xpart));
        assert(head + (events_of(td.drop_first()) + xpart) =~= (head + events_of(td.drop_first()))
            + xpart);
    }
}

/// Serves one block for the events protocol.
pub fn get_events_for_block(
    store: &StorageView,
    block_number: BlockNumber,
    responses: &mut Vec<Frame>,
) -> (r: bool)
    ensures
        r == block_present(*store, SyncRequestKind::Events, block_number.0),
        final(responses)@.take(old(responses)@.len() as int) == old(responses)@,
        r ==> final(responses)@.len() == old(responses)@.len() + 2 && events_frames_ok(
            *store,
            block_number.0,
            final(responses)@.skip(old(responses)@.len() as int),
        ),
        !r ==> final(responses)@ == old(responses)@,
{
    let n = block_number.get();
    let ghost old_len = responses@.len() as int;
    match store.find_block_ref(n) {
        Some(rec) => {
            match &rec.transaction_data {
                Some(td) => {
                    let ghost pairf = |p: (TransactionHash, Event)| (p.0, p.1@);
                    let mut items: Vec<(TransactionHash, Event)> = Vec::new();
                    let mut i: usize = 0;
                    proof {
                        assert(td@.take(0) =~= Seq::<(Transaction, Receipt)>::empty());
                        assert(items@.map_values(pairf) =~= events_of(td@.take(0)));
                    }
                    while i < td.len()
                        invariant
                            i <= td@.len(),
                            pairf == (|p: (TransactionHash, Event)| (p.0, p.1@)),
                            items@.map_values(pairf) == events_of(td@.take(i as int)),
                        decreases td@.len() - i,
                    {
                        let evs = &td[i].1.events;
                        let ghost evf = |e: crate::data::EventV| (td@[i as int].1.transaction_hash,
                            e);
                        let mut j: usize = 0;
                        while j < evs.len()
                            invariant
                                j <= evs@.len(),
                                i < td@.len(),
                                evs == &td@[i as int].1.events,
                                pairf == (|p: (TransactionHash, Event)| (p.0, p.1@)),
                                evf == (|e: crate::data::EventV| (
                                    td@[i as int].1.transaction_hash,
                                    e,
                                )),
                                items@.map_values(pairf) == events_of(td@.take(i as int))
                                    + td@[i as int].1@.events.take(j as int).map_values(evf),
                            decreases evs@.len() - j,
                        {
                            let pair = (td[i].1.transaction_hash, clone_event(&evs[j]));
                            let ghost prev = items@.map_values(pairf);
                            items.push(pair);
                            proof {
                                assert(items@.map_values(pairf) =~= prev.push(pairf(pair)));
                                assert(td@[i as int].1@.events.take(j + 1) =~= td@[i as int].1@
                                    .events.take(j as int).push(td@[i as int].1@.events[j as int]));
                                assert(td@[i as int].1@.events.take(j + 1).map_values(evf)
                                    =~= td@[i as int].1@.events.take(j as int).map_values(
                                    evf,
                                ).push(evf(td@[i as int].1@.events[j as int])));
                                assert(pairf(pair) == evf(td@[i as int].1@.events[j as int]));
                                assert(events_of(td@.take(i as int)) + td@[i as int].1@.events.take(
                                    j + 1,
                                ).map_values(evf) =~= (events_of(td@.take(i as int)) + td@[
                                    i as int].1@.events.take(j as int).map_values(evf)).push(
                                    evf(td@[i as int].1@.events[j as int]),
                                ));
                            }
                            j = j + 1;
                        }
                        proof {
                            assert(td@[i as int].1@.events.take(evs@.len() as int) =~= td@[
                                i as int].1@.events);
                            assert(td@.take(i + 1) =~= td@.take(i as int).push(td@[i as int]));
                            lemma_events_of_push(td@.take(i as int), td@[i as int]);
                        }
                        i = i + 1;
                    }
                    proof {
                        assert(td@.take(td@.len() as int) =~= td@);
                    }
                    let id = Some(BlockId { number: n, hash: crate::wire::Hash(rec.header.hash.0) });
                    responses.push(Frame { id, body: FrameBody::Events(items) });
                    responses.push(Frame { id, body: FrameBody::Fin(Fin::ok()) });
                    proof {
                        assert(responses@.take(old_len) =~= old(responses)@);
                        let fs = responses@.skip(old_len);
                        assert(fs[0] == responses@[old_len]);
                        assert(fs[1] == responses@[old_len + 1]);
                    }
                    true
                },
                None => {
                    proof {
                        assert(responses@.take(old_len) =~= old(responses)@);
                    }
                    false
                },
            }
        },
        None => {
            proof {
                assert(responses@.take(old_len) =~= old(responses)@);
            }
            false
        },
    }
}

/// Serves the declared classes of one block as a single classes payload,
/// or reports the first class whose stored data does not serve.
pub fn classes(
    store: &StorageView,
    block_number: u64,
    block_hash: BlockHash,
    new_class_ids: Vec<ClassId>,
    responses: &mut Vec<Frame>,
) -> (r: Result<(), SyncError>)
    ensures
        final(responses)@.take(old(responses)@.len() as int) == old(responses)@,
        match r {
            Ok(_) => first_class_error(*store, block_number, new_class_ids@) is None
                && final(responses)@.len() == old(responses)@.len() + 1
                && (final(responses)@.last().body matches FrameBody::Classes(m)
                && classes_of_ids_ok(*store, block_number, new_class_ids@, m))
                && frame_id_ok(final(responses)@.last(), block_number, block_hash),
            Err(e) => first_class_error(*store, block_number, new_class_ids@) == Some(e)
                && final(responses)@ == old(responses)@,
        },
{
    let ghost ids = new_class_ids@;
    let mut classes_out: Vec<Class> = Vec::new();
    let mut i: usize = 0;
    proof {
        assert(ids.skip(0) =~= ids);
    }
    while i < new_class_ids.len()
        invariant
            i <= ids.len(),
            new_class_ids@ == ids,
            first_class_error(*store, block_number, ids) == first_class_error(
                *store,
                block_number,
                ids.skip(i as int),
            ),
            classes_out@.len() == i,
            forall|j: int|
                0 <= j < i ==> class_dto_ok(*store, block_number, ids[j], #[trigger] classes_out@[j]),
        decreases ids.len() - i,
    {
        let class_id = new_class_ids[i];
        let class_hash = class_id.class_hash();
        proof {
            assert(ids.skip(i as int)[0] == ids[i as int]);
            assert(ids.skip(i as int).drop_first() =~= ids.skip(i + 1));
        }
        match store.class_definition_at(block_number, &class_hash) {
            None => {
                proof {
                    assert(responses@.take(responses@.len() as int) =~= responses@);
                }
                return Err(SyncError::ClassDefinitionNotFound);
            },
            Some(def) => {
                let casm = store.casm_definition(&class_hash);
                match def {
                    StoredClass::Cairo(c) => {
                        match class_id {
                            ClassId::Cairo(_) => {
                                match casm {
                                    None => {
                                        let dto = crate::class::clone_cairo(c).into_dto();
                                        classes_out.push(Class::Cairo0(dto));
                                    },
                                    Some(_) => {
                                        proof {
                                            assert(responses@.take(responses@.len() as int)
                                                =~= responses@);
                                        }
                                        return Err(SyncError::ClassDefinitionMismatch);
                                    },
                                }
                            },
                            _ => {
                                proof {
                                    assert(responses@.take(responses@.len() as int)
                                        =~= responses@);
                                }
                                return Err(SyncError::ClassDefinitionMismatch);
                            },
                        }
                    },
                    StoredClass::Sierra(s) => {
                        match class_id {
                            ClassId::Sierra(_, _) => {
                                match casm {
                                    Some(blob) => {
                                        let dto = crate::class::clone_sierra(s).into_dto(
                                            copy_vec(blob),
                                        );
                                        classes_out.push(Class::Cairo1(dto));
                                    },
                                    None => {
                                        proof {
                                            assert(responses@.take(responses@.len() as int)
                                                =~= responses@);
                                        }
                                        return Err(SyncError::ClassDefinitionMismatch);
                                    },
                                }
                            },
                            _ => {
                                proof {
                                    assert(responses@.take(responses@.len() as int)
                                        =~= responses@);
                                }
                                return Err(SyncError::ClassDefinitionMismatch);
                            },
                        }
                    },
                }
            },
        }
        i = i + 1;
    }
    proof {
        assert(ids.skip(ids.len() as int).len() == 0);
    }
    let id = Some(BlockId { number: block_number, hash: crate::wire::Hash(block_hash.0) });
    responses.push(
        Frame { id, body: FrameBody::Classes(ClassesMsg { domain: 0, classes: classes_out }) },
    );
    proof {
        assert(responses@.take(old(responses)@.len() as int) =~= old(responses)@);
    }
    Ok(())
}

/// The classes payload serves exactly the given declared classes.
pub open spec fn classes_of_ids_ok(
    store: StorageView,
    n: u64,
    ids: Seq<ClassId>,
    m: ClassesMsg,
) -> bool {
    &&& m.domain == 0
    &&& m.classes@.len() == ids.len()
    &&& forall|j: int|
        0 <= j < ids.len() ==> class_dto_ok(store, n, ids[j], #[trigger] m.classes@[j])
}

/// Serves one block for the bodies protocol: its state diff and declared
/// classes; an error aborts the request.
pub fn get_body(store: &StorageView, block_number: BlockNumber, responses: &mut Vec<Frame>) -> (r:
    Result<bool, SyncError>)
    ensures
        final(responses)@.take(old(responses)@.len() as int) == old(responses)@,
        match r {
            Ok(true) => block_present(*store, SyncRequestKind::Bodies, block_number.0)
                && block_error(*store, SyncRequestKind::Bodies, block_number.0) is None
                && final(responses)@.len() == old(responses)@.len() + 3 && body_frames_ok(
                *store,
                block_number.0,
                final(responses)@.skip(old(responses)@.len() as int),
            ),
            Ok(false) => !block_present(*store, SyncRequestKind::Bodies, block_number.0)
                && final(responses)@ == old(responses)@,
            Err(e) => block_error(*store, SyncRequestKind::Bodies, block_number.0) == Some(e)
                && final(responses)@.len() == old(responses)@.len() + 1,
        },
{
    let n = block_number.get();
    let ghost old_len = responses@.len() as int;
    match store.state_update(n) {
        None => {
            proof {
                assert(responses@.take(old_len) =~= old(responses)@);
            }
            Ok(false)
        },
        Some(su) => {
            let mut new_classes: Vec<ClassId> = Vec::new();
            let mut i: usize = 0;
            while i < su.declared_cairo_classes.len()
                invariant
                    i <= su.declared_cairo_classes@.len(),
                    new_classes@.len() == i,
                    forall|j: int|
                        0 <= j < i ==> new_classes@[j] == ClassId::Cairo(
                            #[trigger] su.declared_cairo_classes@[j],
                        ),
                decreases su.declared_cairo_classes@.len() - i,
            {
                new_classes.push(ClassId::Cairo(su.declared_cairo_classes[i]));
                i = i + 1;
            }
            let ghost len_a = su.declared_cairo_classes@.len() as int;
            let mut k: usize = 0;
            while k < su.declared_sierra_classes.len()
                invariant
                    k <= su.declared_sierra_classes@.len(),
                    new_classes@.len() == len_a + k,
                    len_a == su.declared_cairo_classes@.len(),
                    forall|j: int|
                        0 <= j < len_a ==> new_classes@[j] == ClassId::Cairo(
                            #[trigger] su.declared_cairo_classes@[j],
                        ),
                    forall|j: int|
                        0 <= j < k ==> new_classes@[len_a + j] == ClassId::Sierra(
                            (#[trigger] su.declared_sierra_classes@[j]).0,
                            su.declared_sierra_classes@[j].1,
                        ),
                decreases su.declared_sierra_classes@.len() - k,
            {
                let p = su.declared_sierra_classes[k];
                new_classes.push(ClassId::Sierra(p.0, p.1));
                k = k + 1;
            }
            proof {
                assert(new_classes@ =~= class_ids_of(su@));
            }
            let block_hash = su.block_hash;
            let su_owned = clone_state_update(su);
            let id = Some(BlockId { number: n, hash: crate::wire::Hash(block_hash.0) });
            responses.push(Frame { id, body: FrameBody::Diff(su_owned) });
            let ghost mid = responses@;
            match classes(store, n, block_hash, new_classes, responses) {
                Ok(_) => {},
                Err(e) => {
                    proof {
                        assert(responses@.take(mid.len() as int) == mid);
                        assert forall|j: int| 0 <= j < old_len implies responses@[j] == old(
                            responses,
                        )@[j] by {
                            assert(responses@.take(mid.len() as int)[j] == responses@[j]);
                        }
                        assert(responses@.take(old_len) =~= old(responses)@);
                    }
                    return Err(e);
                },
            }
            let ghost mid2 = responses@;
            responses.push(Frame { id, body: FrameBody::Fin(Fin::ok()) });
            proof {
                assert(mid2.take(mid.len() as int) == mid);
                assert(mid2[old_len] == mid2.take(mid.len() as int)[old_len]);
                assert(mid2[old_len] == mid[old_len]);
                assert(mid2[old_len + 1] == mid2.last());
                assert forall|j: int| 0 <= j < old_len implies responses@[j] == old(
                    responses,
                )@[j] by {
                    assert(mid2.take(mid.len() as int)[j] == mid2[j]);
                }
                assert(responses@.take(old_len) =~= old(responses)@);
                let fs = responses@.skip(old_len);
                assert(fs.len() == 3);
                assert(fs[0] == responses@[old_len]);
                assert(fs[1] == responses@[old_len + 1]);
                assert(fs[2] == responses@[old_len + 2]);
                assert(fs[0] == mid[old_len]);
                assert(fs[1] == mid2.last());
                assert(fs[0].body matches FrameBody::Diff(d) && d@ == (*su)@);
                assert(frame_id_ok(fs[0], n, su.block_hash));
                assert(fs[1].body matches FrameBody::Classes(m) && classes_msg_ok(
                    *store,
                    n,
                    (*su)@,
                    m,
                ));
                assert(frame_id_ok(fs[1], n, su.block_hash));
                assert(block_fin_ok(fs[2], n, su.block_hash));
                assert(body_frames_ok(*store, n, fs));
            }
            Ok(true)
        },
    }
}

/// The frames one block contributes under the given protocol.
pub open spec fn block_frames_ok(
    store: StorageView,
    kind: SyncRequestKind,
    n: u64,
    fs: Seq<Frame>,
) -> bool {
    match kind {
        SyncRequestKind::Headers => header_frames_ok(store, n, fs),
        SyncRequestKind::Bodies => body_frames_ok(store, n, fs),
        SyncRequestKind::Transactions => transactions_frames_ok(store, n, fs),
        SyncRequestKind::Receipts => receipts_frames_ok(store, n, fs),
        SyncRequestKind::Events => events_frames_ok(store, n, fs),
    }
}

/// Serves one block under the given protocol, appending its frames.
pub fn handle_block(
    store: &StorageView,
    kind: SyncRequestKind,
    block_number: BlockNumber,
    responses: &mut Vec<Frame>,
) -> (r: Result<bool, SyncError>)
    ensures
        final(responses)@.take(old(responses)@.len() as int) == old(responses)@,
        match r {
            Ok(true) => block_present(*store, kind, block_number.0) && block_error(
                *store,
                kind,
                block_number.0,
            ) is None && final(responses)@.len() == old(responses)@.len() + block_frame_count(
                *store,
                kind,
                block_number.0,
            ) && block_frames_ok(
                *store,
                kind,
                block_number.0,
                final(responses)@.skip(old(responses)@.len() as int),
            ),
            Ok(false) => !block_present(*store, kind, block_number.0) && final(responses)@ == old(
                responses,
            )@,
            Err(e) => block_error(*store, kind, block_number.0) == Some(e),
        },
{
    match kind {
        SyncRequestKind::Headers => Ok(get_header(store, block_number, responses)),
        SyncRequestKind::Bodies => get_body(store, block_number, responses),
        SyncRequestKind::Transactions => Ok(
            get_transactions_for_block(store, block_number, responses),
        ),
        SyncRequestKind::Receipts => Ok(get_receipts_for_block(store, block_number, responses)),
        SyncRequestKind::Events => Ok(get_events_for_block(store, block_number, responses)),
    }
}

/// How a walk over requested blocks ends: it visits every asked block, or
/// runs off the known chain, or a block's data cannot be served.
#[derive(Clone, Copy, PartialEq, Eq, Structural, Debug)]
pub enum WalkEnd {
    Complete,
    Ended,
    Failed(SyncError),
}

/// The blocks an iteration visits, starting at `n` and taking up to `rem`
/// blocks `step` apart, with how the walk ends. A missing block ends the
/// walk; stepping outside the representable range ends it too; after the
/// last asked block no further step is attempted.
pub open spec fn walk_blocks(
    store: StorageView,
    kind: SyncRequestKind,
    n: u64,
    step: u64,
    dir: Direction,
    rem: nat,
) -> (Seq<u64>, WalkEnd)
    decreases rem,
{
    if rem == 0 {
        (Seq::empty(), WalkEnd::Complete)
    } else if !block_present(store, kind, n) {
        (Seq::empty(), WalkEnd::Ended)
    } else {
        match block_error(store, kind, n) {
            Some(e) => (Seq::empty(), WalkEnd::Failed(e)),
            None => if rem == 1 {
                (seq![n], WalkEnd::Complete)
            } else {
                match next_block(n, step, dir) {
                    None => (seq![n], WalkEnd::Ended),
                    Some(m) => {
                        let rest = walk_blocks(store, kind, m, step, dir, (rem - 1) as nat);
                        (seq![n] + rest.0, rest.1)
                    },
                }
            },
        }
    }
}

/// A frame sequence serves exactly the given blocks, in order, each block
/// contributing its own frames.
pub open spec fn frames_match_blocks(
    store: StorageView,
    kind: SyncRequestKind,
    bs: Seq<u64>,
    fs: Seq<Frame>,
) -> bool
    decreases bs.len(),
{
    if bs.len() == 0 {
        fs.len() == 0
    } else {
        let c = block_frame_count(store, kind, bs[0]) as int;
        &&& fs.len() >= c
        &&& block_frames_ok(store, kind, bs[0], fs.take(c))
        &&& frames_match_blocks(store, kind, bs.drop_first(), fs.skip(c))
    }
}

/// Serving one more block extends a matching frame sequence by that
/// block's frames.
pub proof fn lemma_frames_match_append(
    store: StorageView,
    kind: SyncRequestKind,
    bs: Seq<u64>,
    fs: Seq<Frame>,
    b: u64,
    bfs: Seq<Frame>,
)
    requires
        frames_match_blocks(store, kind, bs, fs),
        bfs.len() == block_frame_count(store, kind, b),
        block_frames_ok(store, kind, b, bfs),
    ensures
        frames_match_blocks(store, kind, bs.push(b), fs + bfs),
    decreases bs.len(),
{
    let c0 = block_frame_count(store, kind, b) as int;
    if bs.len() == 0 {
        assert(fs.len() == 0);
        assert((fs + bfs) =~= bfs);
        assert(bs.push(b)[0] == b);
        assert(bfs.take(c0) =~= bfs);
        assert(bfs.skip(c0) =~= Seq::<Frame>::empty());
        assert(bs.push(b).drop_first() =~= Seq::<u64>::empty());
        assert(frames_match_blocks(store, kind, bs.push(b).drop_first(), bfs.skip(c0)));
        assert(block_frames_ok(store, kind, b, (fs + bfs).take(c0)));
        assert(frames_match_blocks(store, kind, bs.push(b), fs + bfs));
    } else {
        let c = block_frame_count(store, kind, bs[0]) as int;
        assert(fs.len() >= c && block_frames_ok(store, kind, bs[0], fs.take(c))
            && frames_match_blocks(store, kind, bs.drop_first(), fs.skip(c)));
        assert(bs.push(b)[0] == bs[0]);
        lemma_frames_match_append(store, kind, bs.drop_first(), fs.skip(c), b, bfs);
        assert(bs.push(b).drop_first() =~= bs.drop_first().push(b));
        assert((fs + bfs).take(c) =~= fs.take(c));
        assert((fs + bfs).skip(c) =~= fs.skip(c) + bfs);
        assert(frames_match_blocks(store, kind, bs.push(b).drop_first(), (fs + bfs).skip(c)));
        assert(block_frames_ok(store, kind, bs.push(b)[0], (fs + bfs).take(c)));
        assert(frames_match_blocks(store, kind, bs.push(b), fs + bfs));
    }
}

/// What a finished iteration returns: nothing but a lone `Fin` for an
/// empty or unresolvable request; otherwise the frames of the blocks the
/// walk visits, closed by a terminal marker exactly when the walk was cut
/// short or the request was clipped at the ceiling.
pub open spec fn iterate_post(
    store: StorageView,
    iteration: Iteration,
    kind: SyncRequestKind,
    ceiling: u64,
    r: Result<Vec<Frame>, SyncError>,
) -> bool {
    let limit = iteration.limit;
    let step = iteration.step.spec_inner();
    let dir = iteration.direction;
    if limit == 0 {
        r matches Ok(v) && v@ == seq![fin_frame(Fin::Success)]
    } else {
        match resolve_start(store, iteration.start) {
            None => r matches Ok(v) && v@ == seq![fin_frame(Fin::Unknown)],
            Some(n0) => {
                let clamped = (if limit > ceiling {
                    ceiling
                } else {
                    limit
                }) as nat;
                let walk = walk_blocks(store, kind, n0, step, dir, clamped);
                match walk.1 {
                    WalkEnd::Failed(e) => r matches Err(err) && err == e,
                    WalkEnd::Ended => r matches Ok(v) && (v@.len() >= 1 && v@.last() == fin_frame(
                        Fin::Unknown,
                    ) && frames_match_blocks(store, kind, walk.0, v@.drop_last())),
                    WalkEnd::Complete => if limit > ceiling {
                        r matches Ok(v) && (v@.len() >= 1 && v@.last() == fin_frame(Fin::TooMuch)
                            && frames_match_blocks(store, kind, walk.0, v@.drop_last()))
                    } else {
                        r matches Ok(v) && frames_match_blocks(store, kind, walk.0, v@)
                    },
                }
            },
        }
    }
}

/// Turns an iteration request into a bounded, delimited stream of frames:
/// up to `max_blocks` blocks are visited, each contributing its frames and
/// a sealing `Fin::ok()`, and the stream is closed by `Fin::unknown()` when
/// the walk was cut short or `Fin::too_much()` when the request was clipped.
pub fn iterate(
    store: &StorageView,
    iteration: Iteration,
    kind: SyncRequestKind,
    max_blocks: u64,
) -> (r: Result<Vec<Frame>, SyncError>)
    requires
        max_blocks >= 1,
    ensures
        iterate_post(*store, iteration, kind, max_blocks, r),
{
    let start = iteration.start;
    let direction = iteration.direction;
    let limit = iteration.limit;
    let step = iteration.step;
    if limit == 0 {
        let mut v: Vec<Frame> = Vec::new();
        v.push(Frame::terminal(Fin::ok()));
        proof {
            assert(v@ =~= seq![fin_frame(Fin::Success)]);
        }
        return Ok(v);
    }
    let block_number0 = match get_start_block_number(start, store) {
        Some(x) => x,
        None => {
            let mut v: Vec<Frame> = Vec::new();
            v.push(Frame::terminal(Fin::unknown()));
            proof {
                assert(v@ =~= seq![fin_frame(Fin::Unknown)]);
            }
            return Ok(v);
        },
    };
    let limit2: u64 = if limit > max_blocks {
        max_blocks
    } else {
        limit
    };
    let mut ending_marker: Option<Fin> = if limit > max_blocks {
        Some(Fin::too_much())
    } else {
        None
    };
    let ghost step_s = step.spec_inner();
    let ghost walk = walk_blocks(*store, kind, block_number0.0, step_s, direction, limit2 as nat);
    let mut responses: Vec<Frame> = Vec::new();
    let mut block_number = block_number0;
    let mut i: u64 = 0;
    let ghost mut done: Seq<u64> = Seq::empty();
    while i < limit2
        invariant_except_break
            i <= limit2,
            limit2 >= 1,
            limit >= 1,
            max_blocks >= 1,
            limit == iteration.limit,
            direction == iteration.direction,
            step == iteration.step,
            start == iteration.start,
            limit2 == (if limit > max_blocks {
                max_blocks
            } else {
                limit
            }),
            resolve_start(*store, start) == Some(block_number0.0),
            step_s == step.spec_inner(),
            walk == walk_blocks(*store, kind, block_number0.0, step_s, direction, limit2 as nat),
            ending_marker == (if limit > max_blocks {
                Some(Fin::TooMuch)
            } else {
                None::<Fin>
            }),
            done.len() == i,
            frames_match_blocks(*store, kind, done, responses@),
            walk.0 == done + walk_blocks(
                *store,
                kind,
                block_number.0,
                step_s,
                direction,
                (limit2 - i) as nat,
            ).0,
            walk.1 == walk_blocks(
                *store,
                kind,
                block_number.0,
                step_s,
                direction,
                (limit2 - i) as nat,
            ).1,
        ensures
            frames_match_blocks(*store, kind, done, responses@),
            done == walk.0,
            (walk.1 == WalkEnd::Complete && ending_marker == (if limit > max_blocks {
                Some(Fin::TooMuch)
            } else {
                None::<Fin>
            })) || (walk.1 == WalkEnd::Ended && ending_marker == Some(Fin::Unknown)),
        decreases limit2 - i,
    {
        let ghost rem = (limit2 - i) as nat;
        let ghost cur = block_number.0;
        let ghost prev = responses@;
        match handle_block(store, kind, block_number, &mut responses) {
            Err(e) => {
                proof {
                    assert(walk_blocks(*store, kind, cur, step_s, direction, rem).1
                        == WalkEnd::Failed(e));
                }
                return Err(e);
            },
            Ok(false) => {
                proof {
                    assert(walk_blocks(*store, kind, cur, step_s, direction, rem).0
                        =~= Seq::<u64>::empty());
                    assert(walk.0 =~= done);
                }
                ending_marker = Some(Fin::unknown());
                break ;
            },
            Ok(true) => {
                proof {
                    let bfs = responses@.skip(prev.len() as int);
                    lemma_frames_match_append(*store, kind, done, prev, cur, bfs);
                    assert(prev + bfs =~= responses@);
                    done = done.push(cur);
                }
            },
        }
        if i < limit2 - 1 {
            match get_next_block_number(block_number, step, direction) {
                Some(x) => {
                    proof {
                        assert(walk_blocks(*store, kind, cur, step_s, direction, rem).0 == seq![cur]
                            + walk_blocks(
                            *store,
                            kind,
                            x.0,
                            step_s,
                            direction,
                            (rem - 1) as nat,
                        ).0);
                        assert(done + walk_blocks(
                            *store,
                            kind,
                            x.0,
                            step_s,
                            direction,
                            (rem - 1) as nat,
                        ).0 =~= done.drop_last() + walk_blocks(
                            *store,
                            kind,
                            cur,
                            step_s,
                            direction,
                            rem,
                        ).0);
                    }
                    block_number = x;
                },
                None => {
                    proof {
                        assert(walk_blocks(*store, kind, cur, step_s, direction, rem).0
                            =~= seq![cur]);
                        assert(walk.0 =~= done);
                    }
                    ending_marker = Some(Fin::unknown());
                    break ;
                },
            }
        } else {
            proof {
                assert(walk_blocks(*store, kind, cur, step_s, direction, rem).0 =~= seq![cur]);
                assert(walk.0 =~= done);
                assert(walk_blocks(*store, kind, block_number.0, step_s, direction, 0).0
                    =~= Seq::<u64>::empty());
                assert(walk.0 =~= done + walk_blocks(
                    *store,
                    kind,
                    block_number.0,
                    step_s,
                    direction,
                    0,
                ).0);
            }
        }
        i = i + 1;
    }
    match ending_marker {
        Some(end) => {
            let ghost before = responses@;
            responses.push(Frame::terminal(end));
            proof {
                assert(responses@.drop_last() =~= before);
            }
        },
        None => {},
    }
    Ok(responses)
}

/// Answers a headers request: up to the ceiling many blocks from the
/// requested walk, each as header, optional signature and `Fin::ok()`.
pub fn get_headers(store: &StorageView, request: Iteration) -> (r: Result<Vec<Frame>, SyncError>)
    ensures
        iterate_post(*store, request, SyncRequestKind::Headers, MAX_BLOCKS_COUNT, r),
{
    iterate(store, request, SyncRequestKind::Headers, MAX_BLOCKS_COUNT)
}

/// Answers a bodies request: per block the state diff, the declared
/// classes and `Fin::ok()`.
pub fn get_bodies(store: &StorageView, request: Iteration) -> (r: Result<Vec<Frame>, SyncError>)
    ensures
        iterate_post(*store, request, SyncRequestKind::Bodies, MAX_BLOCKS_COUNT, r),
{
    iterate(store, request, SyncRequestKind::Bodies, MAX_BLOCKS_COUNT)
}

/// Answers a transactions request: per block its transactions and
/// `Fin::ok()`.
pub fn get_transactions(store: &StorageView, request: Iteration) -> (r: Result<
    Vec<Frame>,
    SyncError,
>)
    ensures
        iterate_post(*store, request, SyncRequestKind::Transactions, MAX_BLOCKS_COUNT, r),
{
    iterate(store, request, SyncRequestKind::Transactions, MAX_BLOCKS_COUNT)
}

/// Answers a receipts request: per block its receipts and `Fin::ok()`.
pub fn get_receipts(store: &StorageView, request: Iteration) -> (r: Result<Vec<Frame>, SyncError>)
    ensures
        iterate_post(*store, request, SyncRequestKind::Receipts, MAX_BLOCKS_COUNT, r),
{
    iterate(store, request, SyncRequestKind::Receipts, MAX_BLOCKS_COUNT)
}

/// Answers an events request: per block its `(transaction, event)` pairs
/// and `Fin::ok()`.
pub fn get_events(store: &StorageView, request: Iteration) -> (r: Result<Vec<Frame>, SyncError>)
    ensures
        iterate_post(*store, request, SyncRequestKind::Events, MAX_BLOCKS_COUNT, r),
{
    iterate(store, request, SyncRequestKind::Events, MAX_BLOCKS_COUNT)
}

/// How many payload groups a frame sequence holds, counted by their
/// sealing `Fin::ok()` markers.
pub open spec fn count_ok_fins(fs: Seq<Frame>) -> nat
    decreases fs.len(),
{
    if fs.len() == 0 {
        0
    } else {
        count_ok_fins(fs.drop_last()) + (if fs.last().body == FrameBody::Fin(Fin::Success) {
            1nat
        } else {
            0nat
        })
    }
}

/// Payload-group counts add over concatenation.
pub proof fn lemma_count_ok_fins_concat(a: Seq<Frame>, b: Seq<Frame>)
    ensures
        count_ok_fins(a + b) == count_ok_fins(a) + count_ok_fins(b),
    decreases b.len(),
{
    if b.len() == 0 {
        assert(a + b =~= a);
    } else {
        assert((a + b).drop_last() =~= a + b.drop_last());
        assert((a + b).last() == b.last());
        lemma_count_ok_fins_concat(a, b.drop_last());
    }
}

/// One block's frames hold exactly one sealing `Fin::ok()`.
pub proof fn lemma_block_frames_one_fin(
    store: StorageView,
    kind: SyncRequestKind,
    n: u64,
    fs: Seq<Frame>,
)
    requires
        block_frames_ok(store, kind, n, fs),
    ensures
        count_ok_fins(fs) == 1,
{
    if fs.len() == 2 {
        assert(fs.drop_last().drop_last() =~= Seq::<Frame>::empty());
        assert(fs.drop_last().last() == fs[0]);
        assert(!(fs[0].body matches FrameBody::Fin(_)));
        assert(count_ok_fins(fs.drop_last().drop_last()) == 0);
        assert(count_ok_fins(fs.drop_last()) == 0);
        assert(fs.last().body == FrameBody::Fin(Fin::Success));
        assert(count_ok_fins(fs) == 1);
    } else {
        assert(fs.len() == 3);
        assert(fs.drop_last().drop_last().drop_last() =~= Seq::<Frame>::empty());
        assert(fs.drop_last().last() == fs[1]);
        assert(fs.drop_last().drop_last().last() == fs[0]);
        assert(!(fs[0].body matches FrameBody::Fin(_)));
        assert(!(fs[1].body matches FrameBody::Fin(_)));
        assert(count_ok_fins(fs.drop_last().drop_last().drop_last()) == 0);
        assert(count_ok_fins(fs.drop_last().drop_last()) == 0);
        assert(count_ok_fins(fs.drop_last()) == 0);
        assert(fs.last().body == FrameBody::Fin(Fin::Success));
        assert(count_ok_fins(fs) == 1);
    }
}

/// A matching response holds exactly one sealing `Fin::ok()` per served
/// block.
pub proof fn lemma_group_count(
    store: StorageView,
    kind: SyncRequestKind,
    bs: Seq<u64>,
    fs: Seq<Frame>,
)
    requires
        frames_match_blocks(store, kind, bs, fs),
    ensures
        count_ok_fins(fs) == bs.len(),
    decreases bs.len(),
{
    if bs.len() == 0 {
        assert(fs =~= Seq::<Frame>::empty());
    } else {
        let c = block_frame_count(store, kind, bs[0]) as int;
        lemma_block_frames_one_fin(store, kind, bs[0], fs.take(c));
        lemma_group_count(store, kind, bs.drop_first(), fs.skip(c));
        assert(fs =~= fs.take(c) + fs.skip(c));
        lemma_count_ok_fins_concat(fs.take(c), fs.skip(c));
    }
}

/// The block a walk reaches after `i` steps, when the walk stays in
/// range.
pub open spec fn stepped(n0: u64, step: u64, dir: Direction, i: nat) -> Option<u64>
    decreases i,
{
    if i == 0 {
        Some(n0)
    } else {
        match stepped(n0, step, dir, (i - 1) as nat) {
            Some(m) => next_block(m, step, dir),
            None => None,
        }
    }
}

proof fn lemma_stepped_shift(n0: u64, m: u64, step: u64, dir: Direction, i: nat)
    requires
        next_block(n0, step, dir) == Some(m),
    ensures
        stepped(n0, step, dir, i + 1) == stepped(m, step, dir, i),
    decreases i,
{
    if i == 0 {
        assert(stepped(n0, step, dir, 0) == Some(n0));
        assert(stepped(n0, step, dir, 1) == next_block(n0, step, dir));
    } else {
        lemma_stepped_shift(n0, m, step, dir, (i - 1) as nat);
        assert(stepped(n0, step, dir, i + 1) == match stepped(n0, step, dir, i) {
            Some(x) => next_block(x, step, dir),
            None => None,
        });
        assert(stepped(m, step, dir, i) == match stepped(m, step, dir, (i - 1) as nat) {
            Some(x) => next_block(x, step, dir),
            None => None,
        });
    }
}

/// Iteration completeness: a walk that does not fail visits exactly the
/// consecutive run of present blocks along the stepped sequence — all
/// `rem` of them exactly when it completes — and every visited block is
/// the stepped block of its position.
pub proof fn lemma_iteration_completeness(
    store: StorageView,
    kind: SyncRequestKind,
    n0: u64,
    step: u64,
    dir: Direction,
    rem: nat,
)
    requires
        !(walk_blocks(store, kind, n0, step, dir, rem).1 matches WalkEnd::Failed(_)),
    ensures
        ({
            let walk = walk_blocks(store, kind, n0, step, dir, rem);
            &&& walk.0.len() <= rem
            &&& (walk.1 == WalkEnd::Complete <==> walk.0.len() == rem)
            &&& forall|j: int|
                0 <= j < walk.0.len() ==> stepped(n0, step, dir, j as nat) == Some(
                    #[trigger] walk.0[j],
                ) && block_present(store, kind, walk.0[j])
        }),
    decreases rem,
{
    let walk = walk_blocks(store, kind, n0, step, dir, rem);
    if rem == 0 {
    } else if !block_present(store, kind, n0) {
    } else if block_error(store, kind, n0) is Some {
    } else if rem == 1 {
        assert(stepped(n0, step, dir, 0) == Some(n0));
    } else {
        match next_block(n0, step, dir) {
            None => {
                assert(stepped(n0, step, dir, 0) == Some(n0));
            },
            Some(m) => {
                lemma_iteration_completeness(store, kind, m, step, dir, (rem - 1) as nat);
                let rest = walk_blocks(store, kind, m, step, dir, (rem - 1) as nat);
                assert(stepped(n0, step, dir, 0) == Some(n0));
                assert forall|j: int| 0 <= j < walk.0.len() implies stepped(
                    n0,
                    step,
                    dir,
                    j as nat,
                ) == Some(#[trigger] walk.0[j]) && block_present(store, kind, walk.0[j]) by {
                    if j > 0 {
                        assert(walk.0[j] == rest.0[j - 1]);
                        assert(stepped(m, step, dir, (j - 1) as nat) == Some(rest.0[j - 1]));
                        lemma_stepped_shift(n0, m, step, dir, (j - 1) as nat);
                    }
                }
            },
        }
    }
}

/// Iteration completeness, seen on the response: for a request within the
/// ceiling whose start resolves and whose walk does not fail, the
/// response holds one sealed payload group per visited block — all
/// `limit` of them exactly when the walk completes, in which case no
/// terminal marker is appended; a walk cut short ends the response with
/// `Fin::unknown()`.
pub proof fn lemma_response_completeness(
    store: StorageView,
    iteration: Iteration,
    kind: SyncRequestKind,
    ceiling: u64,
    r: Result<Vec<Frame>, SyncError>,
)
    requires
        iterate_post(store, iteration, kind, ceiling, r),
        1 <= iteration.limit <= ceiling,
        resolve_start(store, iteration.start) matches Some(n0) && !(walk_blocks(
            store,
            kind,
            n0,
            iteration.step.spec_inner(),
            iteration.direction,
            iteration.limit as nat,
        ).1 matches WalkEnd::Failed(_)),
    ensures
        ({
            let n0 = resolve_start(store, iteration.start)->0;
            let walk = walk_blocks(
                store,
                kind,
                n0,
                iteration.step.spec_inner(),
                iteration.direction,
                iteration.limit as nat,
            );
            &&& r is Ok
            &&& walk.0.len() <= iteration.limit
            &&& (walk.1 == WalkEnd::Complete <==> walk.0.len() == iteration.limit)
            &&& (walk.1 == WalkEnd::Complete ==> count_ok_fins(r->Ok_0@) == iteration.limit)
            &&& (walk.1 == WalkEnd::Ended ==> count_ok_fins(r->Ok_0@) == walk.0.len() && r->Ok_0@
                .last() == fin_frame(Fin::Unknown))
        }),
{
    let n0 = resolve_start(store, iteration.start)->0;
    let step = iteration.step.spec_inner();
    let dir = iteration.direction;
    let walk = walk_blocks(store, kind, n0, step, dir, iteration.limit as nat);
    lemma_iteration_completeness(store, kind, n0, step, dir, iteration.limit as nat);
    let v = r->Ok_0;
    match walk.1 {
        WalkEnd::Complete => {
            lemma_group_count(store, kind, walk.0, v@);
        },
        WalkEnd::Ended => {
            lemma_group_count(store, kind, walk.0, v@.drop_last());
            assert(v@ =~= v@.drop_last() + seq![v@.last()]);
            lemma_count_ok_fins_concat(v@.drop_last(), seq![v@.last()]);
            assert(seq![v@.last()].drop_last() =~= Seq::<Frame>::empty());
            assert(count_ok_fins(seq![v@.last()]) == 0);
        },
        WalkEnd::Failed(_) => {},
    }
}

/// Ceiling enforcement: when a request asks for more than the ceiling and
/// the chain reaches that far, the response carries exactly the ceiling
/// many payload groups and closes with `Fin::too_much()`.
pub proof fn lemma_ceiling_enforcement(
    store: StorageView,
    iteration: Iteration,
    kind: SyncRequestKind,
    ceiling: u64,
    r: Result<Vec<Frame>, SyncError>,
)
    requires
        iterate_post(store, iteration, kind, ceiling, r),
        iteration.limit > ceiling,
        resolve_start(store, iteration.start) matches Some(n0) && walk_blocks(
            store,
            kind,
            n0,
            iteration.step.spec_inner(),
            iteration.direction,
            ceiling as nat,
        ).1 == WalkEnd::Complete,
    ensures
        r matches Ok(v) && (v@.len() >= 1 && v@.last() == fin_frame(Fin::TooMuch) && count_ok_fins(
            v@,
        ) == ceiling),
{
    let n0 = resolve_start(store, iteration.start)->0;
    let walk = walk_blocks(
        store,
        kind,
        n0,
        iteration.step.spec_inner(),
        iteration.direction,
        ceiling as nat,
    );
    lemma_iteration_completeness(
        store,
        kind,
        n0,
        iteration.step.spec_inner(),
        iteration.direction,
        ceiling as nat,
    );
    let v = r->Ok_0;
    lemma_group_count(store, kind, walk.0, v@.drop_last());
    assert(v@ =~= v@.drop_last() + seq![v@.last()]);
    lemma_count_ok_fins_concat(v@.drop_last(), seq![v@.last()]);
    assert(seq![v@.last()].drop_last() =~= Seq::<Frame>::empty());
    assert(count_ok_fins(seq![v@.last()]) == 0);
}

} // verus!
