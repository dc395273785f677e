//! Fence bookkeeping: the three-state lifecycle of a fence, and the decisions
//! of batched resets and waits. The native status queries, resets and waits
//! are made by the caller, step by step, as these functions ask.

use vstd::prelude::*;

verus! {

/// Where a fence is in its lifecycle.
#[derive(Clone, Copy, Debug, PartialEq, Eq, Structural)]
pub enum FenceState {
    /// Reset; nothing will signal it until it is submitted.
    Unsignalled,
    /// Submitted with GPU work whose completion has not been observed.
    Armed,
    /// Its work is known to be complete.
    Signalled,
}

/// What a native status query said of a fence.
#[derive(Clone, Copy, Debug, PartialEq, Eq, Structural)]
pub enum FenceStatus {
    Ready,
    NotReady,
}

/// A transition the lifecycle forbids.
#[derive(Clone, Copy, Debug, PartialEq, Eq, Structural)]
pub enum FenceError {
    /// Waiting on (or signalling) a fence that nothing will signal.
    Unarmed,
    /// Resetting a fence whose work is still pending.
    StillPending,
    /// Arming a fence that is not reset.
    NotReset,
    /// A status was handed in for a fence that is not armed.
    NotArmed,
}

/// A native fence handle and its lifecycle state.
pub struct Fence {
    handle: u64,
    state: FenceState,
}

impl Fence {
    pub closed spec fn id(&self) -> u64 {
        self.handle
    }

    pub closed spec fn phase(&self) -> FenceState {
        self.state
    }

    /// A freshly created fence, unsignalled.
    pub fn new(handle: u64) -> (r: Fence)
        ensures
            r.id() == handle,
            r.phase() == FenceState::Unsignalled,
    {
        Fence { handle, state: FenceState::Unsignalled }
    }

    pub fn handle(&self) -> (r: u64)
        ensures
            r == self.id(),
    {
        self.handle
    }

    pub fn state(&self) -> (r: FenceState)
        ensures
            r == self.phase(),
    {
        self.state
    }

    /// Marks the fence as submitted with GPU work.
    pub fn arm(&mut self) -> (r: Result<(), FenceError>)
        ensures
            final(self).id() == old(self).id(),
            old(self).phase() == FenceState::Unsignalled ==> r is Ok && final(self).phase() == FenceState::Armed,
            old(self).phase() != FenceState::Unsignalled ==> r == Err::<(), FenceError>(FenceError::NotReset)
                && final(self).phase() == old(self).phase(),
    {
        match self.state {
            FenceState::Unsignalled => {
                self.state = FenceState::Armed;
                Ok(())
            },
            _ => Err(FenceError::NotReset),
        }
    }

    /// Marks the fence's work complete; an unsignalled fence cannot be.
    pub fn set_signalled(&mut self) -> (r: Result<(), FenceError>)
        ensures
            final(self).id() == old(self).id(),
            old(self).phase() != FenceState::Unsignalled ==> r is Ok && final(self).phase() == FenceState::Signalled,
            old(self).phase() == FenceState::Unsignalled ==> r == Err::<(), FenceError>(FenceError::Unarmed)
                && final(self).phase() == FenceState::Unsignalled,
    {
        match self.state {
            FenceState::Unsignalled => Err(FenceError::Unarmed),
            _ => {
                self.state = FenceState::Signalled;
                Ok(())
            },
        }
    }

    /// Marks the fence reset; a fence whose work is pending cannot be.
    pub fn set_unsignalled(&mut self) -> (r: Result<(), FenceError>)
        ensures
            final(self).id() == old(self).id(),
            old(self).phase() != FenceState::Armed ==> r is Ok && final(self).phase() == FenceState::Unsignalled,
            old(self).phase() == FenceState::Armed ==> r == Err::<(), FenceError>(FenceError::StillPending)
                && final(self).phase() == FenceState::Armed,
    {
        match self.state {
            FenceState::Armed => Err(FenceError::StillPending),
            _ => {
                self.state = FenceState::Unsignalled;
                Ok(())
            },
        }
    }

    /// Takes in the polled status of a fence that is not unsignalled: a ready
    /// fence becomes signalled. Returns whether it is signalled.
    pub fn update_armed_fence_state(&mut self, status: FenceStatus) -> (r: Result<bool, FenceError>)
        ensures
            final(self).id() == old(self).id(),
            old(self).phase() == FenceState::Unsignalled ==> r == Err::<bool, FenceError>(FenceError::Unarmed)
                && final(self).phase() == old(self).phase(),
            old(self).phase() != FenceState::Unsignalled ==> match status {
                FenceStatus::Ready => r == Ok::<bool, FenceError>(true) && final(self).phase() == FenceState::Signalled,
                FenceStatus::NotReady => r == Ok::<bool, FenceError>(false) && final(self).phase() == old(self).phase(),
            },
    {
        if let FenceState::Unsignalled = self.state {
            return Err(FenceError::Unarmed);
        }
        match status {
            FenceStatus::Ready => {
                self.state = FenceState::Signalled;
                Ok(true)
            },
            FenceStatus::NotReady => Ok(false),
        }
    }
}

/// The states of a batch of fences.
pub open spec fn phases(fences: Seq<Fence>) -> Seq<FenceState> {
    fences.map_values(|f: Fence| f.phase())
}

/// The handles of a batch of fences.
pub open spec fn ids(fences: Seq<Fence>) -> Seq<u64> {
    fences.map_values(|f: Fence| f.id())
}

/// The first armed fence at or after `from`, if any.
pub open spec fn is_next_armed(fences: Seq<Fence>, from: int, j: int) -> bool {
    &&& from <= j < fences.len()
    &&& fences[j].phase() == FenceState::Armed
    &&& forall|k: int| from <= k < j ==> (#[trigger] fences[k]).phase() != FenceState::Armed
}

pub open spec fn none_armed_from(fences: Seq<Fence>, from: int) -> bool {
    forall|k: int| from <= k < fences.len() ==> (#[trigger] fences[k]).phase() != FenceState::Armed
}

fn next_armed(fences: &Vec<Fence>, from: usize) -> (r: Option<usize>)
    ensures
        match r {
            Some(j) => is_next_armed(fences@, from as int, j as int),
            None => none_armed_from(fences@, from as int),
        },
{
    let mut j = from;
    while j < fences.len()
        invariant
            from <= j,
            forall|k: int| from <= k < j && k < fences@.len() ==> (#[trigger] fences@[k]).phase() != FenceState::Armed,
        decreases fences@.len() - j,
    {
        if let FenceState::Armed = fences[j].state {
            return Some(j);
        }
        j += 1;
    }
    None
}

/// What a reset asks of the caller next.
pub enum ResetStep {
    /// Query the status of fence `i` and hand it to the next step.
    Poll(usize),
    /// Reset these native fences, then call `complete_reset`.
    Reset(Vec<u64>),
}

/// One step of resetting a batch of fences. Armed fences are polled first,
/// in order: a ready one becomes signalled, a pending one fails the reset.
/// `polled`, when given, is the status of fence `from` that the previous
/// step asked for. No step ever waits.
pub fn reset_fences(fences: &mut Vec<Fence>, from: usize, polled: Option<FenceStatus>) -> (r: Result<ResetStep, FenceError>)
    ensures
        ids(final(fences)@) == ids(old(fences)@),
        match polled {
            None => final(fences)@ == old(fences)@,
            Some(status) => {
                if from >= old(fences)@.len() || old(fences)@[from as int].phase() != FenceState::Armed {
                    r == Err::<ResetStep, FenceError>(FenceError::NotArmed) && final(fences)@ == old(fences)@
                } else if status == FenceStatus::NotReady {
                    r == Err::<ResetStep, FenceError>(FenceError::StillPending) && final(fences)@ == old(fences)@
                } else {
                    phases(final(fences)@) == phases(old(fences)@).update(from as int, FenceState::Signalled)
                }
            },
        },
        match r {
            Ok(ResetStep::Poll(j)) => is_next_armed(final(fences)@, 0, j as int),
            Ok(ResetStep::Reset(handles)) => {
                &&& none_armed_from(final(fences)@, 0)
                &&& handles@ == ids(final(fences)@)
            },
            Err(_) => polled is Some && (from >= old(fences)@.len() || old(fences)@[from as int].phase()
                != FenceState::Armed || polled == Some(FenceStatus::NotReady)),
        },
{
    if let Some(status) = polled {
        if from >= fences.len() {
            return Err(FenceError::NotArmed);
        }
        if fences[from].state != FenceState::Armed {
            return Err(FenceError::NotArmed);
        }
        if status == FenceStatus::NotReady {
            return Err(FenceError::StillPending);
        }
        let ghost before = fences@;
        let handle = fences[from].handle;
        fences.set(from, Fence { handle, state: FenceState::Signalled });
        proof {
            assert(phases(fences@) =~= phases(before).update(from as int, FenceState::Signalled));
            assert(ids(fences@) =~= ids(before));
        }
    }
    match next_armed(fences, 0) {
        Some(j) => Ok(ResetStep::Poll(j)),
        None => {
            let mut handles: Vec<u64> = Vec::new();
            let mut k: usize = 0;
            while k < fences.len()
                invariant
                    k <= fences@.len(),
                    handles@ == ids(fences@).subrange(0, k as int),
                decreases fences@.len() - k,
            {
                handles.push(fences[k].handle);
                k += 1;
            }
            proof {
                assert(handles@ =~= ids(fences@));
            }
            Ok(ResetStep::Reset(handles))
        },
    }
}

/// Every fence of the batch becomes unsignalled, once the native reset of the
/// whole batch succeeded. A batch with an armed fence is left as it is.
pub fn complete_reset(fences: &mut Vec<Fence>) -> (r: Result<(), FenceError>)
    ensures
        ids(final(fences)@) == ids(old(fences)@),
        none_armed_from(old(fences)@, 0) ==> r is Ok && forall|i: int|
            0 <= i < final(fences)@.len() ==> (#[trigger] final(fences)@[i]).phase() == FenceState::Unsignalled,
        !none_armed_from(old(fences)@, 0) ==> r == Err::<(), FenceError>(FenceError::StillPending) && final(fences)@ == old(fences)@,
{
    if next_armed(fences, 0).is_some() {
        return Err(FenceError::StillPending);
    }
    let ghost before = fences@;
    let mut k: usize = 0;
    while k < fences.len()
        invariant
            k <= fences@.len(),
            ids(fences@) == ids(before),
            fences@.len() == before.len(),
            forall|i: int| 0 <= i < k ==> (#[trigger] fences@[i]).phase() == FenceState::Unsignalled,
        decreases fences@.len() - k,
    {
        let handle = fences[k].handle;
        let ghost prev = fences@;
        fences.set(k, Fence { handle, state: FenceState::Unsignalled });
        proof {
            assert(ids(fences@) =~= ids(prev));
        }
        k += 1;
    }
    Ok(())
}

/// The handles of the armed fences of a batch, in order.
pub open spec fn armed_ids(fences: Seq<Fence>) -> Seq<u64>
    decreases fences.len(),
{
    if fences.len() == 0 {
        Seq::empty()
    } else {
        armed_ids(fences.drop_last()) + if fences.last().phase() == FenceState::Armed {
            seq![fences.last().id()]
        } else {
            Seq::empty()
        }
    }
}

/// The native handles to wait on for a batch: its armed fences. Signalled
/// fences need no wait; an unsignalled one fails the wait at once, since
/// nothing would ever signal it. An empty result means nothing to wait for.
pub fn wait_fences(fences: &Vec<Fence>) -> (r: Result<Vec<u64>, FenceError>)
    ensures
        (exists|i: int| 0 <= i < fences@.len() && (#[trigger] fences@[i]).phase() == FenceState::Unsignalled)
            <==> r == Err::<Vec<u64>, FenceError>(FenceError::Unarmed),
        match r {
            Ok(handles) => handles@ == armed_ids(fences@),
            Err(e) => e == FenceError::Unarmed,
        },
{
    let mut handles: Vec<u64> = Vec::new();
    let mut k: usize = 0;
    while k < fences.len()
        invariant
            k <= fences@.len(),
            handles@ == armed_ids(fences@.subrange(0, k as int)),
            forall|i: int| 0 <= i < k ==> (#[trigger] fences@[i]).phase() != FenceState::Unsignalled,
        decreases fences@.len() - k,
    {
        proof {
            assert(fences@.subrange(0, k + 1).drop_last() =~= fences@.subrange(0, k as int));
        }
        match fences[k].state {
            FenceState::Unsignalled => {
                return Err(FenceError::Unarmed);
            },
            FenceState::Armed => {
                handles.push(fences[k].handle);
            },
            FenceState::Signalled => {},
        }
        k += 1;
    }
    proof {
        assert(fences@.subrange(0, k as int) =~= fences@);
    }
    Ok(handles)
}

/// After the native wait on `waited` armed fences succeeded: where all of
/// them were waited for (`wait_all`, or only one), every armed fence becomes
/// signalled and nothing is left to poll (`None`). Otherwise nothing changes
/// yet, and the first armed fence is to be polled.
pub fn complete_wait(fences: &mut Vec<Fence>, wait_all: bool, waited: usize) -> (r: Option<usize>)
    ensures
        ids(final(fences)@) == ids(old(fences)@),
        wait_all || waited == 1 ==> r is None && final(fences)@.len() == old(fences)@.len() && forall|i: int|
            0 <= i < old(fences)@.len() ==> (#[trigger] final(fences)@[i]).phase() == if old(fences)@[i].phase() == FenceState::Armed {
                FenceState::Signalled
            } else {
                old(fences)@[i].phase()
            },
        !(wait_all || waited == 1) ==> final(fences)@ == old(fences)@ && match r {
            Some(j) => is_next_armed(old(fences)@, 0, j as int),
            None => none_armed_from(old(fences)@, 0),
        },
{
    if !(wait_all || waited == 1) {
        return next_armed(fences, 0);
    }
    let ghost before = fences@;
    let mut k: usize = 0;
    while k < fences.len()
        invariant
            k <= fences@.len(),
            ids(fences@) == ids(before),
            fences@.len() == before.len(),
            forall|i: int| 0 <= i < fences@.len() ==> (#[trigger] fences@[i]).phase() == if i < k && before[i].phase() == FenceState::Armed {
                FenceState::Signalled
            } else {
                before[i].phase()
            },
        decreases fences@.len() - k,
    {
        if let FenceState::Armed = fences[k].state {
            let handle = fences[k].handle;
            let ghost prev = fences@;
            fences.set(k, Fence { handle, state: FenceState::Signalled });
            proof {
                assert(ids(fences@) =~= ids(prev));
            }
        }
        k += 1;
    }
    None
}

/// Takes in the polled status of fence `index` after a partial wait: a ready
/// armed fence becomes signalled, a pending one stays armed. Returns the next
/// armed fence after it to poll, if any.
pub fn record_wait_poll(fences: &mut Vec<Fence>, index: usize, status: FenceStatus) -> (r: Option<usize>)
    ensures
        ids(final(fences)@) == ids(old(fences)@),
        (index < old(fences)@.len() && old(fences)@[index as int].phase() == FenceState::Armed && status == FenceStatus::Ready)
            ==> phases(final(fences)@) == phases(old(fences)@).update(index as int, FenceState::Signalled),
        !(index < old(fences)@.len() && old(fences)@[index as int].phase() == FenceState::Armed && status == FenceStatus::Ready)
            ==> final(fences)@ == old(fences)@,
        match r {
            Some(j) => is_next_armed(final(fences)@, index + 1, j as int),
            None => none_armed_from(final(fences)@, index + 1),
        },
{
    if index < fences.len() && fences[index].state == FenceState::Armed && status == FenceStatus::Ready {
        let handle = fences[index].handle;
        let ghost before = fences@;
        fences.set(index, Fence { handle, state: FenceState::Signalled });
        proof {
            assert(phases(fences@) =~= phases(before).update(index as int, FenceState::Signalled));
            assert(ids(fences@) =~= ids(before));
        }
    }
    if index >= fences.len() {
        return None;
    }
    next_armed(fences, index + 1)
}

} // verus!
