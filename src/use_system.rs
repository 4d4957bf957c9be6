//! Taking a code: the player at a desk presses the use control next to an
//! unlocked computer.
use vstd::prelude::*;

use crate::computers::{sorted_ids, UnlockedComputers};
use crate::screamer::MAX_CODE;
use crate::space::{hiding_spot, is_able_to_use_computer, is_in_hiding_spot, reaches, Position};

verus! {

/// Progress: how many codes the player has found.
#[derive(Clone, Copy, Debug, PartialEq, Eq, Structural)]
pub struct Afit {
    pub code_found: u64,
}

impl Afit {
    /// No code found yet.
    pub fn new() -> (r: Self)
        ensures
            r.code_found == 0,
    {
        Afit { code_found: 0 }
    }
}

/// Percentage of the game done with `found` codes: counts above `MAX_CODE`
/// count as `MAX_CODE`.
pub open spec fn percent(found: int) -> int {
    (if found < MAX_CODE {
        found
    } else {
        MAX_CODE as int
    }) * 100 / MAX_CODE as int
}

/// The percentage of the game done with `found` codes, from 0 to 100.
pub fn progress_percent(found: u64) -> (r: u64)
    ensures
        r == percent(found as int),
        r <= 100,
{
    let capped = if found < MAX_CODE {
        found
    } else {
        MAX_CODE
    };
    capped * 100 / MAX_CODE
}

/// `i` is the first index of `ids` whose computer the player at `(x, z)` reaches.
pub open spec fn first_reachable(ids: Seq<i32>, x: int, z: int, i: int) -> bool {
    &&& 0 <= i < ids.len()
    &&& reaches(x, z, ids[i] as int)
    &&& forall|j: int| 0 <= j < i ==> !reaches(x, z, #[trigger] ids[j] as int)
}

/// Some computer of `ids` is in reach of the player at `(x, z)`.
pub open spec fn any_reachable(ids: Seq<i32>, x: int, z: int) -> bool {
    exists|i: int| 0 <= i < ids.len() && reaches(x, z, #[trigger] ids[i] as int)
}

/// Whether the use control counts as held after a tick in which it reads `down`.
pub open spec fn pressed_after(pressed: bool, down: Option<bool>) -> bool {
    match down {
        Some(p) => p,
        None => pressed,
    }
}

/// A tick tries to take a code: the use control is newly pressed, the player
/// stands at a desk and does not hide.
pub open spec fn attempts(pressed: bool, down: Option<bool>, at: Position, hidden: bool) -> bool {
    down == Some(true) && !pressed && hiding_spot(at.x as int, at.z as int) && !hidden
}

/// What the use system shows and did in a tick.
#[derive(Clone, Copy, Debug, PartialEq, Eq, Structural)]
pub struct UseView {
    /// Show the prompt to take a code: the player stands at a desk.
    pub prompt: bool,
    /// The computer whose code was taken, if any.
    pub taken: Option<i32>,
}

/// Takes codes; remembers whether the use control was down, so that one press
/// takes one code at most.
#[derive(Clone, Copy, Debug, PartialEq, Eq, Structural)]
pub struct UseSystem {
    pub pressed: bool,
}

impl UseSystem {
    /// Control released.
    pub fn new() -> (r: Self)
        ensures
            !r.pressed,
    {
        UseSystem { pressed: false }
    }

    /// One tick: the player stands at `at`, the use control reads `down`
    /// (`None`: not bound). On a new press at a desk, not hidden, the first
    /// unlocked computer in reach gives its code: it leaves the unlocked set
    /// and one more code is found. Otherwise nothing changes but the control.
    pub fn run(
        &mut self,
        at: &Position,
        down: Option<bool>,
        hidden: bool,
        afit: &mut Afit,
        uc: &mut UnlockedComputers,
    ) -> (r: UseView)
        requires
            old(uc).wf(),
            old(afit).code_found < u64::MAX,
        ensures
            final(uc).wf(),
            final(self).pressed == pressed_after(old(self).pressed, down),
            r.prompt == hiding_spot(at.x as int, at.z as int),
            final(uc).last_unlock_time == old(uc).last_unlock_time,
            r.taken is Some <==> attempts(old(self).pressed, down, *at, hidden) && any_reachable(
                old(uc).unlocked_computers@,
                at.x as int,
                at.z as int,
            ),
            r.taken is Some ==> exists|i: int|
                first_reachable(old(uc).unlocked_computers@, at.x as int, at.z as int, i)
                    && r.taken == Some(#[trigger] old(uc).unlocked_computers@[i])
                    && final(uc).unlocked_computers@ == old(uc).unlocked_computers@.remove(i),
            hidden ==> r.taken is None && *final(afit) == *old(afit)
                && final(uc).unlocked_computers@ == old(uc).unlocked_computers@,
            r.taken is Some ==> final(afit).code_found == old(afit).code_found + 1,
            r.taken is None ==> *final(afit) == *old(afit) && final(uc).unlocked_computers@ == old(
                uc,
            ).unlocked_computers@,
    {
        let near = is_in_hiding_spot(at.x, at.z);
        let newly = match down {
            Some(p) => p && !self.pressed,
            None => false,
        };
        if let Some(p) = down {
            self.pressed = p;
        }
        if !(newly && near && !hidden) {
            return UseView { prompt: near, taken: None };
        }
        let mut i: usize = 0;
        while i < uc.unlocked_computers.len()
            invariant
                uc.wf(),
                *uc == *old(uc),
                *afit == *old(afit),
                self.pressed == pressed_after(old(self).pressed, down),
                near == hiding_spot(at.x as int, at.z as int),
                attempts(old(self).pressed, down, *at, hidden),
                afit.code_found < u64::MAX,
                i <= uc.unlocked_computers@.len(),
                forall|j: int|
                    0 <= j < i ==> !reaches(
                        at.x as int,
                        at.z as int,
                        #[trigger] uc.unlocked_computers@[j] as int,
                    ),
            decreases uc.unlocked_computers@.len() - i,
        {
            let id = uc.unlocked_computers[i];
            if is_able_to_use_computer(at, id) {
                let ghost before = uc.unlocked_computers@;
                uc.unlocked_computers.remove(i);
                afit.code_found = afit.code_found + 1;
                assert(first_reachable(before, at.x as int, at.z as int, i as int));
                assert(sorted_ids(uc.unlocked_computers@)) by {
                    let after = uc.unlocked_computers@;
                    assert forall|a: int, b: int| 0 <= a < b < after.len() implies after[a]
                        < after[b] by {
                        let a0 = if a < i { a } else { a + 1 };
                        let b0 = if b < i { b } else { b + 1 };
                        assert(after[a] == before[a0]);
                        assert(after[b] == before[b0]);
                    }
                    assert forall|a: int| 0 <= a < after.len() implies 0 <= #[trigger] after[a]
                        < 32 by {
                        let a0 = if a < i { a } else { a + 1 };
                        assert(after[a] == before[a0]);
                    }
                }
                return UseView { prompt: near, taken: Some(id) };
            }
            i = i + 1;
        }
        UseView { prompt: near, taken: None }
    }
}

} // verus!
