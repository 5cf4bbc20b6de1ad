//! The upload of one encoding, chunk by chunk: which remote call to start
//! next, under the budget of calls in flight, and the gathering of the chunk
//! identifiers by the position of their chunk, in whatever order the calls
//! end.

use crate::chunks::{chunk, chunk_count, lemma_chunks_reassemble, spec_chunk_count, spec_chunks};
use crate::semaphores::Semaphore;
use candid::Nat;
use vstd::prelude::*;

verus! {

/// An arbitrary-precision natural number of the remote store's interface. A
/// chunk identifier is one; nothing here looks inside it.
#[verifier::external_type_specification]
#[verifier::external_body]
pub struct ExNat(candid::Nat);

/// How far the upload of one chunk has got.
pub enum ChunkSlot {
    /// The call that creates the chunk has not been started.
    Waiting,
    /// The call has been started and has not been reported back.
    InFlight,
    /// The remote store created the chunk under this identifier.
    Created(Nat),
    /// The call failed.
    Failed,
}

/// The number of calls in flight among `slots`.
pub open spec fn spec_count_in_flight(slots: Seq<ChunkSlot>) -> nat
    decreases slots.len(),
{
    if slots.len() == 0 {
        0
    } else {
        spec_count_in_flight(slots.drop_last()) + if slots.last() is InFlight {
            1nat
        } else {
            0nat
        }
    }
}

/// The slot that a call leaves behind: the identifier of the chunk it
/// created, or the mark of its failure.
pub open spec fn spec_reported_slot(outcome: Option<Nat>) -> ChunkSlot {
    match outcome {
        Some(chunk_id) => ChunkSlot::Created(chunk_id),
        None => ChunkSlot::Failed,
    }
}

/// The slots after the call for chunk `index` has been reported with
/// `outcome`. Only a call in flight can be reported; any other report
/// changes nothing.
pub open spec fn spec_record(slots: Seq<ChunkSlot>, index: int, outcome: Option<Nat>) -> Seq<
    ChunkSlot,
> {
    if 0 <= index < slots.len() && slots[index] is InFlight {
        slots.update(index, spec_reported_slot(outcome))
    } else {
        slots
    }
}

/// Whether every chunk of `slots` has been created.
pub open spec fn spec_all_created(slots: Seq<ChunkSlot>) -> bool {
    forall|index: int| 0 <= index < slots.len() ==> slots[index] is Created
}

/// Whether the call of some chunk of `slots` has failed.
pub open spec fn spec_any_failed(slots: Seq<ChunkSlot>) -> bool {
    exists|index: int| 0 <= index < slots.len() && slots[index] is Failed
}

/// The identifiers of the chunks of `slots`, by the position of their chunk.
pub open spec fn spec_chunk_ids(slots: Seq<ChunkSlot>) -> Seq<Nat>
    recommends
        spec_all_created(slots),
{
    Seq::new(slots.len(), |index: int| slots[index]->Created_0)
}

/// Changing one slot changes the number of calls in flight by what the slot
/// itself changes.
pub proof fn lemma_count_in_flight_update(slots: Seq<ChunkSlot>, index: int, slot: ChunkSlot)
    requires
        0 <= index < slots.len(),
    ensures
        spec_count_in_flight(slots.update(index, slot)) + (if slots[index] is InFlight {
            1nat
        } else {
            0nat
        }) == spec_count_in_flight(slots) + (if slot is InFlight {
            1nat
        } else {
            0nat
        }),
    decreases slots.len(),
{
    let updated = slots.update(index, slot);
    if index == slots.len() - 1 {
        assert(updated.drop_last() =~= slots.drop_last());
    } else {
        assert(updated.drop_last() =~= slots.drop_last().update(index, slot));
        lemma_count_in_flight_update(slots.drop_last(), index, slot);
    }
}

/// The calls of two different chunks may be reported in either order: the
/// slots end up the same. The identifiers are gathered by position, not by
/// the order in which the calls end.
pub proof fn lemma_record_order_is_irrelevant(
    slots: Seq<ChunkSlot>,
    first: int,
    first_outcome: Option<Nat>,
    second: int,
    second_outcome: Option<Nat>,
)
    requires
        first != second,
    ensures
        spec_record(spec_record(slots, first, first_outcome), second, second_outcome)
            == spec_record(spec_record(slots, second, second_outcome), first, first_outcome),
{
    assert(spec_record(spec_record(slots, first, first_outcome), second, second_outcome)
        =~= spec_record(spec_record(slots, second, second_outcome), first, first_outcome));
}

/// The slots after every call in flight has been given up: each of them
/// counts as failed, and the other slots are as they were.
pub open spec fn spec_abandoned(slots: Seq<ChunkSlot>) -> Seq<ChunkSlot> {
    Seq::new(
        slots.len(),
        |index: int|
            if slots[index] is InFlight {
                ChunkSlot::Failed
            } else {
                slots[index]
            },
    )
}

/// Calls are in flight exactly when some slot says so.
pub proof fn lemma_count_in_flight_is_zero(slots: Seq<ChunkSlot>)
    ensures
        spec_count_in_flight(slots) == 0 <==> forall|index: int|
            0 <= index < slots.len() ==> !(#[trigger] slots[index] is InFlight),
    decreases slots.len(),
{
    if slots.len() > 0 {
        let front = slots.drop_last();
        lemma_count_in_flight_is_zero(front);
        if spec_count_in_flight(slots) == 0 {
            assert forall|index: int| 0 <= index < slots.len() implies !(
            #[trigger] slots[index] is InFlight) by {
                if index < front.len() {
                    assert(front[index] == slots[index]);
                }
            }
        } else if !(slots.last() is InFlight) {
            let index = choose|index: int|
                0 <= index < front.len() && #[trigger] front[index] is InFlight;
            assert(slots[index] is InFlight);
        }
    }
}

/// What an upload is made of, as contracts speak of it.
pub struct ChunkUploadView {
    /// The bytes to upload.
    pub payload: Seq<u8>,
    /// The content digest of the payload.
    pub sha256: Seq<u8>,
    /// How far each chunk has got, by ascending offset.
    pub slots: Seq<ChunkSlot>,
}

/// The upload of one payload in chunks.
pub struct ChunkUpload {
    payload: Vec<u8>,
    sha256: Vec<u8>,
    slots: Vec<ChunkSlot>,
    started: usize,
    in_flight: usize,
    failed: bool,
}

impl View for ChunkUpload {
    type V = ChunkUploadView;

    closed spec fn view(&self) -> ChunkUploadView {
        ChunkUploadView { payload: self.payload@, sha256: self.sha256@, slots: self.slots@ }
    }
}

impl ChunkUpload {
    /// The number of chunks whose call has been started. Calls are started
    /// by ascending offset.
    pub closed spec fn spec_started(&self) -> nat {
        self.started as nat
    }

    /// Whether the upload is in a state that its operations keep: one slot
    /// for each chunk of the payload, exactly the chunks that were not
    /// started waiting.
    pub closed spec fn wf(&self) -> bool {
        &&& self.slots@.len() == spec_chunk_count(self.payload@.len())
        &&& self.started <= self.slots@.len()
        &&& forall|index: int|
            0 <= index < self.slots@.len() ==> (self.slots@[index] is Waiting <==> index
                >= self.started)
        &&& self.in_flight == spec_count_in_flight(self.slots@)
        &&& self.failed == spec_any_failed(self.slots@)
    }

    /// What holds of every upload in a state that its operations keep.
    pub proof fn lemma_wf(&self)
        requires
            self.wf(),
        ensures
            self@.slots.len() == spec_chunk_count(self@.payload.len()),
            self.spec_started() <= self@.slots.len(),
            forall|index: int|
                0 <= index < self@.slots.len() ==> (self@.slots[index] is Waiting <==> index
                    >= self.spec_started()),
    {
    }

    /// An upload of `payload`, whose digest is `sha256`, with no call
    /// started.
    pub fn new(payload: Vec<u8>, sha256: Vec<u8>) -> (upload: ChunkUpload)
        ensures
            upload.wf(),
            upload@.payload == payload@,
            upload@.sha256 == sha256@,
            upload@.slots.len() == spec_chunk_count(payload@.len()),
            forall|index: int| 0 <= index < upload@.slots.len() ==> upload@.slots[index] is Waiting,
            upload.spec_started() == 0,
    {
        let count = chunk_count(payload.len());
        let mut slots: Vec<ChunkSlot> = Vec::new();
        while slots.len() < count
            invariant
                slots@.len() <= count,
                forall|index: int| 0 <= index < slots@.len() ==> slots@[index] is Waiting,
                spec_count_in_flight(slots@) == 0,
            decreases count - slots@.len(),
        {
            proof {
                assert(slots@.push(ChunkSlot::Waiting).drop_last() =~= slots@);
            }
            slots.push(ChunkSlot::Waiting);
        }
        ChunkUpload { payload, sha256, slots, started: 0, in_flight: 0, failed: false }
    }

    /// The number of chunks of the payload.
    pub fn chunk_count(&self) -> (count: usize)
        requires
            self.wf(),
        ensures
            count == spec_chunk_count(self@.payload.len()),
            count == self@.slots.len(),
    {
        self.slots.len()
    }

    /// The bytes of the payload.
    pub fn payload(&self) -> (payload: &[u8])
        ensures
            payload@ == self@.payload,
    {
        self.payload.as_slice()
    }

    /// The content digest of the payload.
    pub fn sha256(&self) -> (digest: &[u8])
        ensures
            digest@ == self@.sha256,
    {
        self.sha256.as_slice()
    }

    /// The bytes that the call for chunk `index` carries, if there is such a
    /// chunk.
    pub fn chunk(&self, index: usize) -> (bytes: Option<&[u8]>)
        ensures
            bytes is Some <==> index < spec_chunk_count(self@.payload.len()),
            bytes matches Some(found) ==> found@ == spec_chunks(self@.payload)[index as int],
    {
        chunk(self.payload.as_slice(), index)
    }

    /// The number of calls started and not yet reported back.
    pub fn in_flight(&self) -> (calls: usize)
        requires
            self.wf(),
        ensures
            calls == spec_count_in_flight(self@.slots),
    {
        self.in_flight
    }

    /// Whether the call of some chunk has failed. No call is started after
    /// that.
    pub fn has_failed(&self) -> (failed: bool)
        requires
            self.wf(),
        ensures
            failed == spec_any_failed(self@.slots),
    {
        self.failed
    }

    /// Whether every chunk has been created.
    pub fn is_complete(&self) -> (complete: bool)
        ensures
            complete == spec_all_created(self@.slots),
    {
        let mut index: usize = 0;
        while index < self.slots.len()
            invariant
                index <= self.slots@.len(),
                forall|at: int| 0 <= at < index ==> self.slots@[at] is Created,
            decreases self.slots@.len() - index,
        {
            match &self.slots[index] {
                ChunkSlot::Created(_) => {},
                _ => {
                    return false;
                },
            }
            index = index + 1;
        }
        true
    }

    /// Starts the call for the next chunk, by ascending offset, if there is
    /// a chunk left, no call has failed, and `network` has a permit to give.
    /// Returns the index of the chunk whose call the caller now makes; the
    /// call holds one permit until it is reported with [`Self::record`].
    /// Otherwise nothing changes.
    pub fn start_next(&mut self, network: &mut Semaphore) -> (next: Option<usize>)
        requires
            old(self).wf(),
        ensures
            final(self).wf(),
            final(self)@.payload == old(self)@.payload,
            final(self)@.sha256 == old(self)@.sha256,
            final(network).spec_capacity() == old(network).spec_capacity(),
            next is Some <==> (!spec_any_failed(old(self)@.slots) && old(self).spec_started() < old(
                self,
            )@.slots.len() && old(network).spec_held() < old(network).spec_capacity()),
            next matches Some(index) ==> {
                &&& index == old(self).spec_started()
                &&& final(self).spec_started() == index + 1
                &&& old(self)@.slots[index as int] is Waiting
                &&& final(self)@.slots == old(self)@.slots.update(index as int, ChunkSlot::InFlight)
                &&& final(network).spec_held() == old(network).spec_held() + 1
                &&& spec_count_in_flight(final(self)@.slots) == spec_count_in_flight(
                    old(self)@.slots,
                ) + 1
            },
            next is None ==> final(self)@ == old(self)@ && final(self).spec_started() == old(
                self,
            ).spec_started() && final(network).spec_held() == old(network).spec_held(),
    {
        if self.failed || self.started >= self.slots.len() {
            return None;
        }
        if !network.try_acquire(1) {
            return None;
        }
        let index = self.started;
        proof {
            lemma_count_in_flight_update(self.slots@, index as int, ChunkSlot::InFlight);
        }
        let ghost before = self.slots@;
        self.slots[index] = ChunkSlot::InFlight;
        self.started = index + 1;
        assert(self.in_flight < usize::MAX) by {
            lemma_count_in_flight_at_most_len(before);
            lemma_count_in_flight_at_most_len(self.slots@);
        }
        self.in_flight = self.in_flight + 1;
        proof {
            assert(!spec_any_failed(self.slots@)) by {
                if spec_any_failed(self.slots@) {
                    let at = choose|at: int| 0 <= at < self.slots@.len() && self.slots@[at] is Failed;
                    assert(before[at] is Failed);
                }
            }
        }
        Some(index)
    }

    /// Reports how the call for chunk `index` ended: with the identifier of
    /// the chunk that the remote store created, or with none when the call
    /// failed. A report is accepted for a call in flight whose permit
    /// `network` can take back; it fills the slot of the chunk and returns
    /// the permit. Any other report changes nothing. Returns whether the
    /// report was accepted.
    pub fn record(&mut self, network: &mut Semaphore, index: usize, outcome: Option<Nat>) -> (accepted:
        bool)
        requires
            old(self).wf(),
        ensures
            final(self).wf(),
            final(self)@.payload == old(self)@.payload,
            final(self)@.sha256 == old(self)@.sha256,
            final(self).spec_started() == old(self).spec_started(),
            final(network).spec_capacity() == old(network).spec_capacity(),
            accepted <==> (index < old(self)@.slots.len() && old(self)@.slots[index as int]
                is InFlight && old(network).spec_held() >= 1),
            accepted ==> {
                &&& final(self)@.slots == spec_record(old(self)@.slots, index as int, outcome)
                &&& final(self)@.slots[index as int] == spec_reported_slot(outcome)
                &&& final(network).spec_held() == old(network).spec_held() - 1
                &&& spec_count_in_flight(final(self)@.slots) == spec_count_in_flight(
                    old(self)@.slots,
                ) - 1
            },
            !accepted ==> final(self)@ == old(self)@ && final(network).spec_held() == old(
                network,
            ).spec_held(),
    {
        if index >= self.slots.len() {
            return false;
        }
        match &self.slots[index] {
            ChunkSlot::InFlight => {},
            _ => {
                return false;
            },
        }
        if !network.release(1) {
            return false;
        }
        let ghost before = self.slots@;
        let slot = match outcome {
            Some(chunk_id) => ChunkSlot::Created(chunk_id),
            None => ChunkSlot::Failed,
        };
        let failed = match &slot {
            ChunkSlot::Failed => true,
            _ => self.failed,
        };
        proof {
            lemma_count_in_flight_update(before, index as int, slot);
        }
        self.slots[index] = slot;
        self.in_flight = self.in_flight - 1;
        self.failed = failed;
        proof {
            if spec_any_failed(before) {
                let at = choose|at: int| 0 <= at < before.len() && before[at] is Failed;
                assert(self.slots@[at] is Failed);
            }
            if spec_any_failed(self.slots@) && !failed {
                let at = choose|at: int| 0 <= at < self.slots@.len() && self.slots@[at] is Failed;
                assert(before[at] is Failed);
            }
        }
        true
    }

    /// Gives up every call in flight: each of them counts as failed, and its
    /// permit goes back to `network` as far as `network` has permits out.
    /// Returns the number of calls given up. It is for the caller that stops
    /// waiting for its calls, so that no permit stays held for them.
    pub fn abandon(&mut self, network: &mut Semaphore) -> (given_up: usize)
        requires
            old(self).wf(),
        ensures
            final(self).wf(),
            final(self)@.payload == old(self)@.payload,
            final(self)@.sha256 == old(self)@.sha256,
            final(self).spec_started() == old(self).spec_started(),
            given_up == spec_count_in_flight(old(self)@.slots),
            final(self)@.slots == spec_abandoned(old(self)@.slots),
            spec_count_in_flight(final(self)@.slots) == 0,
            final(network).spec_capacity() == old(network).spec_capacity(),
            final(network).spec_held() == if given_up <= old(network).spec_held() {
                old(network).spec_held() - given_up
            } else {
                0
            },
    {
        let ghost before = self.slots@;
        let ghost entered = *self;
        let given_up = self.in_flight;
        let mut index: usize = 0;
        while index < self.slots.len()
            invariant
                entered.wf(),
                before == entered.slots@,
                self.payload == entered.payload,
                self.sha256 == entered.sha256,
                self.started == entered.started,
                self.in_flight == entered.in_flight,
                self.failed == entered.failed,
                given_up == entered.in_flight,
                index <= before.len(),
                self.slots@.len() == before.len(),
                forall|at: int|
                    0 <= at < before.len() ==> #[trigger] self.slots@[at] == (if at < index
                        && before[at] is InFlight {
                        ChunkSlot::Failed
                    } else {
                        before[at]
                    }),
            decreases before.len() - index,
        {
            let in_flight = match &self.slots[index] {
                ChunkSlot::InFlight => true,
                _ => false,
            };
            if in_flight {
                self.slots[index] = ChunkSlot::Failed;
            }
            index = index + 1;
        }
        self.in_flight = 0;
        if given_up > 0 {
            self.failed = true;
        }
        let held = network.held();
        let back = if given_up <= held {
            given_up
        } else {
            held
        };
        network.release(back);
        proof {
            assert(self.slots@ =~= spec_abandoned(before));
            lemma_count_in_flight_is_zero(self.slots@);
            lemma_count_in_flight_is_zero(before);
            if given_up > 0 {
                let at = choose|at: int| 0 <= at < before.len() && #[trigger] before[at] is InFlight;
                assert(self.slots@[at] is Failed);
            } else if spec_any_failed(self.slots@) {
                let at = choose|at: int| 0 <= at < self.slots@.len() && self.slots@[at] is Failed;
                assert(before[at] is Failed);
            }
            if spec_any_failed(before) {
                let at = choose|at: int| 0 <= at < before.len() && before[at] is Failed;
                assert(self.slots@[at] is Failed);
            }
        }
        given_up
    }

    /// Ends the upload. When every chunk has been created, the identifiers
    /// are handed out by the position of their chunk, with the digest of the
    /// payload. Otherwise the upload is handed back as it is.
    pub fn finish(self) -> (outcome: Result<(Vec<Nat>, Vec<u8>), ChunkUpload>)
        requires
            self.wf(),
        ensures
            outcome is Ok <==> spec_all_created(self@.slots),
            outcome matches Ok(done) ==> {
                &&& done.0@ == spec_chunk_ids(self@.slots)
                &&& done.0@.len() == spec_chunk_count(self@.payload.len())
                &&& done.1@ == self@.sha256
            },
            outcome matches Err(upload) ==> upload == self,
    {
        if !self.is_complete() {
            return Err(self);
        }
        let ghost slots = self.slots@;
        let mut rest = self.slots;
        let mut reversed: Vec<Nat> = Vec::new();
        while rest.len() > 0
            invariant
                rest@.len() + reversed@.len() == slots.len(),
                rest@ == slots.take(rest@.len() as int),
                spec_all_created(slots),
                forall|at: int|
                    0 <= at < reversed@.len() ==> reversed@[at] == slots[slots.len() - 1
                        - at]->Created_0,
            decreases rest@.len(),
        {
            let ghost last = rest@.len() - 1;
            let slot = rest.pop();
            assert(rest@ =~= slots.take(last));
            match slot {
                Some(ChunkSlot::Created(chunk_id)) => {
                    reversed.push(chunk_id);
                },
                _ => {
                    assert(slots[last] is Created);
                    assert(false);
                },
            }
        }
        let mut chunk_ids: Vec<Nat> = Vec::new();
        while reversed.len() > 0
            invariant
                chunk_ids@.len() + reversed@.len() == slots.len(),
                forall|at: int|
                    0 <= at < reversed@.len() ==> reversed@[at] == slots[slots.len() - 1
                        - at]->Created_0,
                forall|at: int| 0 <= at < chunk_ids@.len() ==> chunk_ids@[at] == slots[at]->Created_0,
            decreases reversed@.len(),
        {
            let chunk_id = reversed.pop();
            match chunk_id {
                Some(chunk_id) => {
                    chunk_ids.push(chunk_id);
                },
                None => {
                    assert(false);
                },
            }
        }
        assert(chunk_ids@ =~= spec_chunk_ids(slots));
        Ok((chunk_ids, self.sha256))
    }
}

/// What the calls of an upload carry, put together by the position of their
/// chunk, is the payload, and there is one identifier for each chunk once
/// all are created.
pub proof fn lemma_upload_reassembles(upload: ChunkUpload)
    requires
        upload.wf(),
    ensures
        spec_chunks(upload@.payload).len() == upload@.slots.len(),
        spec_chunks(upload@.payload).flatten() == upload@.payload,
        spec_chunk_ids(upload@.slots).len() == spec_chunks(upload@.payload).len(),
{
    upload.lemma_wf();
    lemma_chunks_reassemble(upload@.payload);
}

/// The number of calls in flight of all of `uploads` together.
pub open spec fn spec_total_in_flight(uploads: Seq<ChunkUpload>) -> nat
    decreases uploads.len(),
{
    if uploads.len() == 0 {
        0
    } else {
        spec_total_in_flight(uploads.drop_last()) + spec_count_in_flight(uploads.last()@.slots)
    }
}

/// Changing one upload changes the number of calls in flight of all
/// together by what the upload itself changes.
pub proof fn lemma_total_in_flight_update(
    uploads: Seq<ChunkUpload>,
    changed: int,
    upload: ChunkUpload,
)
    requires
        0 <= changed < uploads.len(),
    ensures
        spec_total_in_flight(uploads.update(changed, upload)) + spec_count_in_flight(
            uploads[changed]@.slots,
        ) == spec_total_in_flight(uploads) + spec_count_in_flight(upload@.slots),
    decreases uploads.len(),
{
    let updated = uploads.update(changed, upload);
    if changed == uploads.len() - 1 {
        assert(updated.drop_last() =~= uploads.drop_last());
    } else {
        assert(updated.drop_last() =~= uploads.drop_last().update(changed, upload));
        lemma_total_in_flight_update(uploads.drop_last(), changed, upload);
    }
}

/// The calls in flight of all uploads that share one budget never exceed
/// the permits handed out, and so never the capacity of the budget: an
/// operation on one upload that changes its calls in flight and the permits
/// handed out by the same amount, as starting, reporting and abandoning do,
/// keeps the bound.
pub proof fn lemma_calls_in_flight_within_budget(
    uploads: Seq<ChunkUpload>,
    held: nat,
    capacity: nat,
    changed: int,
    upload: ChunkUpload,
    held_after: nat,
)
    requires
        0 <= changed < uploads.len(),
        spec_total_in_flight(uploads) <= held <= capacity,
        held_after <= capacity,
        spec_count_in_flight(upload@.slots) - spec_count_in_flight(uploads[changed]@.slots)
            <= held_after - held,
    ensures
        spec_total_in_flight(uploads.update(changed, upload)) <= held_after <= capacity,
{
    lemma_total_in_flight_update(uploads, changed, upload);
}

/// No more calls are in flight than there are chunks.
pub proof fn lemma_count_in_flight_at_most_len(slots: Seq<ChunkSlot>)
    ensures
        spec_count_in_flight(slots) <= slots.len(),
    decreases slots.len(),
{
    if slots.len() > 0 {
        lemma_count_in_flight_at_most_len(slots.drop_last());
    }
}

} // verus!
