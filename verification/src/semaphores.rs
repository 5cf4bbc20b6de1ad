//! Permit accounting for the two budgets of an upload run: the megabytes of
//! file content held in memory at once, and the remote calls in flight.
//!
//! The types here only count. Waiting for a permit is left to the caller:
//! an acquisition that cannot be granted changes nothing and says so, and the
//! caller asks again after a release.

use vstd::prelude::*;

verus! {

/// The most megabytes any one file is considered to have for the purpose of
/// limiting the data loaded at once. Any file counts as at least one megabyte.
pub const MAX_COST_SINGLE_FILE_MB: usize = 45;

/// The number of bytes that one permit of the file budget stands for.
pub const BYTES_PER_PERMIT: u64 = 1_000_000;

/// The cost of loading a file of `file_size` bytes, in permits: its size in
/// whole megabytes, rounded up, at least one and at most
/// [`MAX_COST_SINGLE_FILE_MB`].
pub open spec fn spec_file_load_cost(file_size: nat) -> nat {
    let megabytes = (file_size + 999_999) / 1_000_000;
    if megabytes < 1 {
        1
    } else if megabytes > 45 {
        45
    } else {
        megabytes
    }
}

/// The cost of a file is its size in whole megabytes, rounded up: the least
/// number of permits that together stand for all its bytes, held between
/// one permit and [`MAX_COST_SINGLE_FILE_MB`] permits.
pub proof fn lemma_file_load_cost(file_size: nat)
    ensures
        1 <= spec_file_load_cost(file_size) <= MAX_COST_SINGLE_FILE_MB,
        0 < file_size <= 45_000_000 ==> (spec_file_load_cost(file_size) - 1) * 1_000_000 < file_size
            <= spec_file_load_cost(file_size) * 1_000_000,
        file_size == 0 ==> spec_file_load_cost(file_size) == 1,
        file_size > 45_000_000 ==> spec_file_load_cost(file_size) == MAX_COST_SINGLE_FILE_MB,
{
}

/// Computes the number of file permits that loading a file of `file_size`
/// bytes takes. No size overflows the computation.
pub fn file_load_cost(file_size: u64) -> (permits: usize)
    ensures
        permits == spec_file_load_cost(file_size as nat),
        1 <= permits <= MAX_COST_SINGLE_FILE_MB,
{
    let whole: u64 = file_size / BYTES_PER_PERMIT;
    let rest: u64 = file_size % BYTES_PER_PERMIT;
    let megabytes: u64 = if rest == 0 {
        whole
    } else {
        whole + 1
    };
    if megabytes < 1 {
        1
    } else if megabytes > 45 {
        MAX_COST_SINGLE_FILE_MB
    } else {
        megabytes as usize
    }
}

/// What can happen to a counting semaphore.
pub enum PermitEvent {
    /// A request for this many permits at once.
    Acquire(nat),
    /// The return of this many permits.
    Release(nat),
}

/// Whether a semaphore of `capacity` permits, `held` of them handed out,
/// accepts `event`: a request that fits in what is left, or a return of no
/// more than what is out.
pub open spec fn permit_event_accepted(capacity: nat, held: nat, event: PermitEvent) -> bool {
    match event {
        PermitEvent::Acquire(permits) => held + permits <= capacity,
        PermitEvent::Release(permits) => permits <= held,
    }
}

/// The number of permits handed out after `event`. An event that is not
/// accepted leaves the count as it was.
pub open spec fn permits_held_after(capacity: nat, held: nat, event: PermitEvent) -> nat {
    if permit_event_accepted(capacity, held, event) {
        match event {
            PermitEvent::Acquire(permits) => held + permits,
            PermitEvent::Release(permits) => (held - permits) as nat,
        }
    } else {
        held
    }
}

/// The number of permits handed out after a whole history of events, starting
/// from `held`.
pub open spec fn permits_held_after_all(capacity: nat, held: nat, events: Seq<PermitEvent>) -> nat
    decreases events.len(),
{
    if events.len() == 0 {
        held
    } else {
        permits_held_after(
            capacity,
            permits_held_after_all(capacity, held, events.drop_last()),
            events.last(),
        )
    }
}

/// Whatever is asked of a semaphore and in whatever order, the permits handed
/// out never exceed its capacity: the bound holds after every history of
/// events that starts within the bound.
pub proof fn lemma_held_never_exceeds_capacity(capacity: nat, held: nat, events: Seq<PermitEvent>)
    requires
        held <= capacity,
    ensures
        permits_held_after_all(capacity, held, events) <= capacity,
    decreases events.len(),
{
    if events.len() > 0 {
        lemma_held_never_exceeds_capacity(capacity, held, events.drop_last());
    }
}

/// The bound of [`lemma_held_never_exceeds_capacity`] at every instant of a
/// history, not only at its end.
pub proof fn lemma_held_within_capacity_at_every_instant(
    capacity: nat,
    events: Seq<PermitEvent>,
    instant: int,
)
    requires
        0 <= instant <= events.len(),
    ensures
        permits_held_after_all(capacity, 0, events.take(instant)) <= capacity,
{
    lemma_held_never_exceeds_capacity(capacity, 0, events.take(instant));
}

/// A file alone is always admitted: with nothing handed out and a capacity of
/// at least [`MAX_COST_SINGLE_FILE_MB`], the cost of a file of any size fits.
pub proof fn lemma_lone_file_is_admitted(capacity: nat, file_size: nat)
    requires
        capacity >= MAX_COST_SINGLE_FILE_MB,
    ensures
        permit_event_accepted(capacity, 0, PermitEvent::Acquire(spec_file_load_cost(file_size))),
{
}

/// A counting semaphore: a fixed number of permits, some of them handed out.
pub struct Semaphore {
    capacity: usize,
    held: usize,
}

impl Semaphore {
    #[verifier::type_invariant]
    spec fn within_capacity(self) -> bool {
        self.held <= self.capacity
    }

    /// The number of permits the semaphore was made with.
    pub closed spec fn spec_capacity(&self) -> nat {
        self.capacity as nat
    }

    /// The number of permits handed out and not yet returned.
    pub closed spec fn spec_held(&self) -> nat {
        self.held as nat
    }

    /// A semaphore of `capacity` permits, none of them handed out.
    pub fn new(capacity: usize) -> (semaphore: Semaphore)
        ensures
            semaphore.spec_capacity() == capacity,
            semaphore.spec_held() == 0,
    {
        Semaphore { capacity, held: 0 }
    }

    /// The number of permits the semaphore was made with.
    pub fn capacity(&self) -> (capacity: usize)
        ensures
            capacity == self.spec_capacity(),
    {
        self.capacity
    }

    /// The number of permits handed out and not yet returned, which is never
    /// more than the capacity.
    pub fn held(&self) -> (held: usize)
        ensures
            held == self.spec_held(),
            held <= self.spec_capacity(),
    {
        proof {
            use_type_invariant(self);
        }
        self.held
    }

    /// The number of permits that can still be handed out.
    pub fn available(&self) -> (available: usize)
        ensures
            available == self.spec_capacity() - self.spec_held(),
    {
        proof {
            use_type_invariant(self);
        }
        self.capacity - self.held
    }

    /// Hands out `permits` permits at once if that many are left, and
    /// otherwise changes nothing. Returns whether the permits were handed out.
    pub fn try_acquire(&mut self, permits: usize) -> (granted: bool)
        ensures
            final(self).spec_capacity() == old(self).spec_capacity(),
            granted == permit_event_accepted(
                old(self).spec_capacity(),
                old(self).spec_held(),
                PermitEvent::Acquire(permits as nat),
            ),
            final(self).spec_held() == permits_held_after(
                old(self).spec_capacity(),
                old(self).spec_held(),
                PermitEvent::Acquire(permits as nat),
            ),
            final(self).spec_held() <= final(self).spec_capacity(),
    {
        proof {
            use_type_invariant(&*self);
        }
        if permits <= self.capacity - self.held {
            self.held = self.held + permits;
            true
        } else {
            false
        }
    }

    /// Takes back `permits` permits if that many are out, and otherwise
    /// changes nothing. Returns whether the permits were taken back.
    pub fn release(&mut self, permits: usize) -> (released: bool)
        ensures
            final(self).spec_capacity() == old(self).spec_capacity(),
            released == permit_event_accepted(
                old(self).spec_capacity(),
                old(self).spec_held(),
                PermitEvent::Release(permits as nat),
            ),
            final(self).spec_held() == permits_held_after(
                old(self).spec_capacity(),
                old(self).spec_held(),
                PermitEvent::Release(permits as nat),
            ),
            final(self).spec_held() <= final(self).spec_capacity(),
    {
        proof {
            use_type_invariant(&*self);
        }
        if permits <= self.held {
            self.held = self.held - permits;
            true
        } else {
            false
        }
    }
}

/// The permits that one file took from the file budget. It is handed out by
/// [`Semaphores::try_acquire_file`] and given back to
/// [`Semaphores::release_file`] on every path, failure included.
pub struct FilePermit {
    permits: usize,
}

impl FilePermit {
    /// The number of permits this grant stands for.
    pub closed spec fn spec_permits(&self) -> nat {
        self.permits as nat
    }

    /// The number of permits this grant stands for.
    pub fn permits(&self) -> (permits: usize)
        ensures
            permits == self.spec_permits(),
    {
        self.permits
    }
}

/// The two budgets of one upload run. They are sized and counted
/// independently of each other.
pub struct Semaphores {
    /// Bounds the megabytes of file content loaded at once.
    pub file: Semaphore,
    /// Bounds the remote chunk-creation calls in flight.
    pub create_chunk_call: Semaphore,
}

impl Semaphores {
    /// Budgets of `file_capacity` megabytes and `call_capacity` calls, with
    /// nothing handed out.
    pub fn new(file_capacity: usize, call_capacity: usize) -> (semaphores: Semaphores)
        ensures
            semaphores.file.spec_capacity() == file_capacity,
            semaphores.file.spec_held() == 0,
            semaphores.create_chunk_call.spec_capacity() == call_capacity,
            semaphores.create_chunk_call.spec_held() == 0,
    {
        Semaphores {
            file: Semaphore::new(file_capacity),
            create_chunk_call: Semaphore::new(call_capacity),
        }
    }

    /// Asks for the permits that loading a file of `file_size` bytes costs.
    /// They are granted exactly when that many are left in the file budget;
    /// the call budget is not touched.
    pub fn try_acquire_file(&mut self, file_size: u64) -> (grant: Option<FilePermit>)
        ensures
            final(self).create_chunk_call == old(self).create_chunk_call,
            final(self).file.spec_capacity() == old(self).file.spec_capacity(),
            grant is Some <==> old(self).file.spec_held() + spec_file_load_cost(file_size as nat)
                <= old(self).file.spec_capacity(),
            grant matches Some(permit) ==> permit.spec_permits() == spec_file_load_cost(
                file_size as nat,
            ) && final(self).file.spec_held() == old(self).file.spec_held()
                + permit.spec_permits(),
            grant is None ==> final(self).file.spec_held() == old(self).file.spec_held(),
            final(self).file.spec_held() <= final(self).file.spec_capacity(),
    {
        let permits = file_load_cost(file_size);
        if self.file.try_acquire(permits) {
            Some(FilePermit { permits })
        } else {
            None
        }
    }

    /// Gives the permits of one file back to the file budget. A grant for
    /// more permits than are out is refused and changes nothing. Returns
    /// whether the permits were taken back.
    pub fn release_file(&mut self, permit: FilePermit) -> (released: bool)
        ensures
            final(self).create_chunk_call == old(self).create_chunk_call,
            final(self).file.spec_capacity() == old(self).file.spec_capacity(),
            released <==> permit.spec_permits() <= old(self).file.spec_held(),
            released ==> final(self).file.spec_held() == old(self).file.spec_held()
                - permit.spec_permits(),
            !released ==> final(self).file.spec_held() == old(self).file.spec_held(),
            final(self).file.spec_held() <= final(self).file.spec_capacity(),
    {
        self.file.release(permit.permits)
    }
}

} // verus!
