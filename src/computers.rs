//! The computers that hold a code: which are unlocked, and when the next one is.
use vstd::prelude::*;

use crate::clock::{MAX_TIME, SECOND};
use crate::random::random_in;
use crate::space::COMPUTER_NUMBER;

verus! {

/// Id that follows `id` in the circular order of the computers.
pub open spec fn next_id(id: int) -> int {
    if id + 1 == COMPUTER_NUMBER as int {
        0
    } else {
        id + 1
    }
}

/// Steps from `from` forward to `to` in the circular order.
pub open spec fn distance(from: int, to: int) -> int {
    if to >= from {
        to - from
    } else {
        to - from + COMPUTER_NUMBER as int
    }
}

/// `ids` holds the computer `id`.
pub open spec fn holds(ids: Seq<i32>, id: int) -> bool {
    exists|k: int| 0 <= k < ids.len() && ids[k] as int == id
}

/// Strictly increasing valid ids: a set without repeats.
pub open spec fn sorted_ids(ids: Seq<i32>) -> bool {
    &&& forall|i: int, j: int| 0 <= i < j < ids.len() ==> ids[i] < ids[j]
    &&& forall|i: int| 0 <= i < ids.len() ==> 0 <= #[trigger] ids[i] < COMPUTER_NUMBER
}

/// The first id free in `ids` met walking forward from `id`, trying at most
/// `fuel` ids.
pub open spec fn probe(ids: Seq<i32>, id: int, fuel: nat) -> int
    decreases fuel,
{
    if fuel == 0 || !holds(ids, id) {
        id
    } else {
        probe(ids, next_id(id), (fuel - 1) as nat)
    }
}

/// The computer unlocked when `candidate` is drawn: the candidate itself, or
/// the first free one after it.
pub open spec fn unlocked_for(ids: Seq<i32>, candidate: int) -> int {
    probe(ids, candidate, COMPUTER_NUMBER as nat)
}

/// `after` is `before` with `id` added: still sorted, one longer, and holding
/// exactly the ids of `before` and `id`.
pub open spec fn spawned(before: Seq<i32>, after: Seq<i32>, id: int) -> bool {
    &&& sorted_ids(after)
    &&& !holds(before, id)
    &&& forall|i: int| holds(after, i) <==> (holds(before, i) || i == id)
    &&& after.len() == before.len() + 1
}

/// Unlocked computers never repeat: a sorted set of ids holds each id once,
/// and an unlock adds exactly one id that was not there.
pub proof fn lemma_unlocked_ids_unique(before: Seq<i32>, after: Seq<i32>, id: int)
    requires
        sorted_ids(before),
        spawned(before, after, id),
    ensures
        before.no_duplicates(),
        after.no_duplicates(),
        holds(after, id),
        !holds(before, id),
        after.len() == before.len() + 1,
{
    assert forall|i: int, j: int| 0 <= i < after.len() && 0 <= j < after.len() && i != j implies after[i]
        != after[j] by {
        if i < j {
            assert(after[i] < after[j]);
        } else {
            assert(after[j] < after[i]);
        }
    }
    assert forall|i: int, j: int| 0 <= i < before.len() && 0 <= j < before.len() && i != j implies before[i]
        != before[j] by {
        if i < j {
            assert(before[i] < before[j]);
        } else {
            assert(before[j] < before[i]);
        }
    }
}

/// Computers whose code can be taken, and when the last one was unlocked.
pub struct UnlockedComputers {
    pub unlocked_computers: Vec<i32>,
    pub last_unlock_time: u64,
}

proof fn lemma_ids_are_indices(ids: Seq<i32>, i: int)
    requires
        sorted_ids(ids),
        forall|id: int| 0 <= id < COMPUTER_NUMBER ==> #[trigger] holds(ids, id),
        0 <= i < ids.len(),
    ensures
        ids[i] == i,
    decreases i,
{
    if i > 0 {
        lemma_ids_are_indices(ids, i - 1);
        assert(ids[i - 1] < ids[i]);
    }
    assert(holds(ids, i));
    let k = choose|k: int| 0 <= k < ids.len() && ids[k] as int == i;
    if k < i {
        assert(ids[k] <= ids[i - 1]);
    } else if k > i {
        assert(ids[i] < ids[k]);
    }
}

/// A set of ids that lacks no computer is as long as the number of computers.
proof fn lemma_full(ids: Seq<i32>)
    requires
        sorted_ids(ids),
        forall|id: int| 0 <= id < COMPUTER_NUMBER ==> #[trigger] holds(ids, id),
    ensures
        ids.len() >= COMPUTER_NUMBER,
{
    assert(holds(ids, COMPUTER_NUMBER - 1));
    let k = choose|k: int| 0 <= k < ids.len() && ids[k] as int == COMPUTER_NUMBER - 1;
    lemma_ids_are_indices(ids, k);
}

/// Probing from `id` with `fuel` tries stays among the computers, and ends on
/// a taken id only if every id fewer than `fuel` steps ahead of `id` is taken.
proof fn lemma_probe(ids: Seq<i32>, id: int, fuel: nat)
    requires
        0 <= id < COMPUTER_NUMBER,
        fuel <= COMPUTER_NUMBER,
    ensures
        0 <= probe(ids, id, fuel) < COMPUTER_NUMBER,
        holds(ids, probe(ids, id, fuel)) ==> forall|j: int|
            0 <= j < COMPUTER_NUMBER && distance(id, j) < fuel ==> #[trigger] holds(ids, j),
    decreases fuel,
{
    if fuel > 0 && holds(ids, id) {
        lemma_probe(ids, next_id(id), (fuel - 1) as nat);
        if holds(ids, probe(ids, id, fuel)) {
            assert forall|j: int|
                0 <= j < COMPUTER_NUMBER && distance(id, j) < fuel implies #[trigger] holds(
                ids,
                j,
            ) by {
                if j != id {
                    assert(distance(next_id(id), j) == distance(id, j) - 1);
                }
            }
        }
    }
}

/// While some computer is still locked, whatever candidate is drawn, probing
/// forward from it ends on a computer that is locked: an unlock always finds
/// a free one.
pub proof fn lemma_unlock_finds_free_id(ids: Seq<i32>, candidate: int)
    requires
        sorted_ids(ids),
        ids.len() < COMPUTER_NUMBER,
        0 <= candidate < COMPUTER_NUMBER,
    ensures
        0 <= unlocked_for(ids, candidate) < COMPUTER_NUMBER,
        !holds(ids, unlocked_for(ids, candidate)),
{
    lemma_probe(ids, candidate, COMPUTER_NUMBER as nat);
    if holds(ids, unlocked_for(ids, candidate)) {
        assert forall|j: int| 0 <= j < COMPUTER_NUMBER implies #[trigger] holds(ids, j) by {
            assert(distance(candidate, j) < COMPUTER_NUMBER);
        }
        lemma_full(ids);
    }
}

fn contains_id(ids: &Vec<i32>, id: i32) -> (r: bool)
    ensures
        r == holds(ids@, id as int),
{
    let mut k: usize = 0;
    while k < ids.len()
        invariant
            k <= ids.len(),
            forall|j: int| 0 <= j < k ==> ids@[j] != id,
        decreases ids.len() - k,
    {
        if ids[k] == id {
            return true;
        }
        k = k + 1;
    }
    false
}

impl UnlockedComputers {
    /// Nothing unlocked yet; the clock of unlocks starts at `now`.
    pub fn new(now: u64) -> (r: Self)
        requires
            now <= MAX_TIME,
        ensures
            r.wf(),
            r.unlocked_computers@.len() == 0,
            r.last_unlock_time == now,
    {
        UnlockedComputers { unlocked_computers: Vec::new(), last_unlock_time: now }
    }

    /// The ids are sorted valid ids without repeats, and the last unlock is
    /// within the accepted time.
    pub open spec fn wf(&self) -> bool {
        sorted_ids(self.unlocked_computers@) && self.last_unlock_time <= MAX_TIME
    }

    /// Unlocks the computer that drawing `candidate` gives (see `unlocked_for`)
    /// and records `now` as the time of the last unlock. Returns its id.
    pub fn unlock(&mut self, candidate: i32, now: u64) -> (id: i32)
        requires
            old(self).wf(),
            old(self).unlocked_computers@.len() < COMPUTER_NUMBER,
            0 <= candidate < COMPUTER_NUMBER,
            now <= MAX_TIME,
        ensures
            final(self).wf(),
            id as int == unlocked_for(old(self).unlocked_computers@, candidate as int),
            spawned(old(self).unlocked_computers@, final(self).unlocked_computers@, id as int),
            final(self).last_unlock_time == now,
    {
        let ghost ids = self.unlocked_computers@;
        let mut id: i32 = candidate;
        let mut steps: i32 = 0;
        let mut taken = contains_id(&self.unlocked_computers, id);
        while taken && steps < COMPUTER_NUMBER
            invariant
                ids == self.unlocked_computers@,
                0 <= steps <= COMPUTER_NUMBER,
                0 <= id < COMPUTER_NUMBER,
                taken == holds(ids, id as int),
                unlocked_for(ids, candidate as int) == probe(
                    ids,
                    id as int,
                    (COMPUTER_NUMBER - steps) as nat,
                ),
            decreases COMPUTER_NUMBER - steps,
        {
            id = if id + 1 == COMPUTER_NUMBER {
                0
            } else {
                id + 1
            };
            steps = steps + 1;
            taken = contains_id(&self.unlocked_computers, id);
        }
        proof {
            lemma_unlock_finds_free_id(ids, candidate as int);
        }
        let mut p: usize = 0;
        while p < self.unlocked_computers.len() && self.unlocked_computers[p] < id
            invariant
                ids == self.unlocked_computers@,
                p <= ids.len(),
                forall|k: int| 0 <= k < p ==> ids[k] < id,
            decreases ids.len() - p,
        {
            p = p + 1;
        }
        assert forall|k: int| p <= k < ids.len() implies ids[k] > id by {
            assert(ids[p as int] != id);
            assert(ids[p as int] >= id);
        }
        self.unlocked_computers.insert(p, id);
        self.last_unlock_time = now;
        let ghost after = self.unlocked_computers@;
        assert forall|i: int| holds(after, i) <==> (holds(ids, i) || i == id) by {
            if holds(after, i) {
                let k = choose|k: int| 0 <= k < after.len() && after[k] as int == i;
                if k < p {
                    assert(ids[k] == after[k]);
                } else if k > p {
                    assert(ids[k - 1] == after[k]);
                }
            }
            if holds(ids, i) {
                let k = choose|k: int| 0 <= k < ids.len() && ids[k] as int == i;
                if k < p {
                    assert(after[k] == ids[k]);
                } else {
                    assert(after[k + 1] == ids[k]);
                }
            }
            if i == id {
                assert(after[p as int] == id);
            }
        }
        id
    }

    /// Whether an unlock is due at `now` once `wait` milliseconds must pass
    /// after the last one: some computer is still locked and the wait is over.
    pub open spec fn due(&self, now: int, wait: int) -> bool {
        self.unlocked_computers@.len() < COMPUTER_NUMBER && now > self.last_unlock_time + wait
    }
}

/// Wait, in seconds, before the first unlock after the last one.
pub const CODE_BASE_WAIT: u64 = 4;

/// Wait before the next unlock in the first schedule: four seconds, and one more
/// for each computer already unlocked.
pub open spec fn code_wait(uc: &UnlockedComputers) -> int {
    (CODE_BASE_WAIT + uc.unlocked_computers@.len()) * SECOND
}

/// Wait before the next unlock in the second schedule: one second for each
/// computer already unlocked, and `extra` more.
pub open spec fn computer_wait(uc: &UnlockedComputers, extra: int) -> int {
    (uc.unlocked_computers@.len() + extra) * SECOND
}

/// What a tick of a schedule does to `after`, and returns, when an unlock with
/// drawn `candidate` is due or not.
pub open spec fn tick_result(
    before: &UnlockedComputers,
    after: &UnlockedComputers,
    now: int,
    due: bool,
    candidate: int,
    r: Option<i32>,
) -> bool {
    if due {
        &&& r == Some(unlocked_for(before.unlocked_computers@, candidate) as i32)
        &&& spawned(
            before.unlocked_computers@,
            after.unlocked_computers@,
            unlocked_for(before.unlocked_computers@, candidate),
        )
        &&& after.last_unlock_time == now
    } else {
        &&& r is None
        &&& after.unlocked_computers@ == before.unlocked_computers@
        &&& after.last_unlock_time == before.last_unlock_time
    }
}

/// Whatever was drawn: an unlock that is due unlocks one locked computer, and
/// a tick where none is due changes nothing.
pub open spec fn tick_outcome(
    before: &UnlockedComputers,
    after: &UnlockedComputers,
    now: int,
    due: bool,
    r: Option<i32>,
) -> bool {
    if due {
        &&& r is Some
        &&& spawned(before.unlocked_computers@, after.unlocked_computers@, r->0 as int)
        &&& after.last_unlock_time == now
    } else {
        &&& r is None
        &&& after.unlocked_computers@ == before.unlocked_computers@
        &&& after.last_unlock_time == before.last_unlock_time
    }
}

/// The first unlock schedule: a fixed wait that grows with the number of
/// computers already unlocked.
pub struct CodeSystem;

impl CodeSystem {
    /// One tick at `now` with the drawn `candidate`; returns the id unlocked, if any.
    pub fn step(&mut self, uc: &mut UnlockedComputers, now: u64, candidate: i32) -> (r: Option<i32>)
        requires
            old(uc).wf(),
            now <= MAX_TIME,
            0 <= candidate < COMPUTER_NUMBER,
        ensures
            final(uc).wf(),
            tick_result(
                old(uc),
                final(uc),
                now as int,
                old(uc).due(now as int, code_wait(old(uc))),
                candidate as int,
                r,
            ),
    {
        let count = uc.unlocked_computers.len();
        if count < COMPUTER_NUMBER as usize && now > uc.last_unlock_time + (CODE_BASE_WAIT
            + count as u64) * SECOND {
            Some(uc.unlock(candidate, now))
        } else {
            None
        }
    }

    /// One tick at `now`, drawing the candidate uniformly among all computers.
    pub fn run(&mut self, uc: &mut UnlockedComputers, now: u64) -> (r: Option<i32>)
        requires
            old(uc).wf(),
            now <= MAX_TIME,
        ensures
            final(uc).wf(),
            tick_outcome(old(uc), final(uc), now as int, old(uc).due(now as int, code_wait(old(uc))), r),
    {
        let candidate = random_in(0, COMPUTER_NUMBER as u64) as i32;
        self.step(uc, now, candidate)
    }
}

/// Lowest extra wait, in seconds, of the second schedule.
pub const EXTRA_WAIT_MIN: u64 = 6;

/// Bound, in seconds and excluded, of the extra wait of the second schedule.
pub const EXTRA_WAIT_MAX: u64 = 12;

/// The second unlock schedule: a wait that grows with the number of computers
/// already unlocked, plus a random extra; it stands still while the player
/// reads the opening text.
pub struct ComputerSystem;

impl ComputerSystem {
    /// One tick at `now` with the drawn `extra` wait (seconds) and `candidate`.
    /// While `reading`, only the time of the last unlock moves to `now`.
    /// Returns the id unlocked, if any.
    pub fn step(
        &mut self,
        uc: &mut UnlockedComputers,
        now: u64,
        reading: bool,
        extra: u64,
        candidate: i32,
    ) -> (r: Option<i32>)
        requires
            old(uc).wf(),
            now <= MAX_TIME,
            EXTRA_WAIT_MIN <= extra < EXTRA_WAIT_MAX,
            0 <= candidate < COMPUTER_NUMBER,
        ensures
            final(uc).wf(),
            reading ==> r is None && final(uc).unlocked_computers@ == old(
                uc,
            ).unlocked_computers@ && final(uc).last_unlock_time == now,
            !reading ==> tick_result(
                old(uc),
                final(uc),
                now as int,
                old(uc).due(now as int, computer_wait(old(uc), extra as int)),
                candidate as int,
                r,
            ),
    {
        if reading {
            uc.last_unlock_time = now;
            return None;
        }
        let count = uc.unlocked_computers.len();
        if count < COMPUTER_NUMBER as usize && now > uc.last_unlock_time + (count as u64 + extra)
            * SECOND {
            Some(uc.unlock(candidate, now))
        } else {
            None
        }
    }

    /// One tick at `now`, drawing the extra wait from `[6, 12)` seconds and the
    /// candidate uniformly among all computers.
    pub fn run(&mut self, uc: &mut UnlockedComputers, now: u64, reading: bool) -> (r: Option<i32>)
        requires
            old(uc).wf(),
            now <= MAX_TIME,
        ensures
            final(uc).wf(),
            reading ==> r is None && final(uc).unlocked_computers@ == old(
                uc,
            ).unlocked_computers@ && final(uc).last_unlock_time == now,
            !reading ==> exists|extra: int|
                EXTRA_WAIT_MIN <= extra < EXTRA_WAIT_MAX && tick_outcome(
                    old(uc),
                    final(uc),
                    now as int,
                    #[trigger] old(uc).due(now as int, computer_wait(old(uc), extra)),
                    r,
                ),
    {
        let extra = random_in(EXTRA_WAIT_MIN, EXTRA_WAIT_MAX);
        let candidate = random_in(0, COMPUTER_NUMBER as u64) as i32;
        self.step(uc, now, reading, extra, candidate)
    }
}

} // verus!
