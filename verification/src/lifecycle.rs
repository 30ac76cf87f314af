use vstd::prelude::*;

verus! {

/// Where a plugin stands in its life.
#[derive(Clone, Copy, Debug, PartialEq, Eq, Structural)]
pub enum Phase {
    /// Constructed, not yet loaded.
    Unloaded,
    /// Loaded, no work dispatched yet.
    Loaded,
    /// Has been handed transactions or blocks.
    Active,
    /// Shut down. Nothing follows.
    Exited,
}

/// The calls by which the orchestrator drives a plugin.
#[derive(Clone, Copy, Debug, PartialEq, Eq, Structural)]
pub enum Call {
    Load,
    Transaction,
    Block,
    Exit,
}

impl Phase {
    /// How far along its life a plugin is.
    pub open spec fn rank(self) -> nat {
        match self {
            Phase::Unloaded => 0,
            Phase::Loaded => 1,
            Phase::Active => 2,
            Phase::Exited => 3,
        }
    }

    /// Whether the orchestrator may make `call` in this phase: loading only
    /// before anything else, work only once loaded, and the exit once, from
    /// any phase before it.
    pub open spec fn admits(self, call: Call) -> bool {
        match call {
            Call::Load => self == Phase::Unloaded,
            Call::Transaction | Call::Block => self == Phase::Loaded || self == Phase::Active,
            Call::Exit => self != Phase::Exited,
        }
    }

    /// The phase after `call`, where this phase admits it.
    pub open spec fn after(self, call: Call) -> Phase {
        match call {
            Call::Load => Phase::Loaded,
            Call::Transaction | Call::Block => Phase::Active,
            Call::Exit => Phase::Exited,
        }
    }

    /// The phase that `call` leads to, or `None` where this phase does not
    /// admit the call.
    pub fn advance(self, call: Call) -> (next: Option<Phase>)
        ensures
            next == if self.admits(call) {
                Some(self.after(call))
            } else {
                None::<Phase>
            },
    {
        match call {
            Call::Load => match self {
                Phase::Unloaded => Some(Phase::Loaded),
                _ => None,
            },
            Call::Transaction | Call::Block => match self {
                Phase::Loaded | Phase::Active => Some(Phase::Active),
                _ => None,
            },
            Call::Exit => match self {
                Phase::Exited => None,
                _ => Some(Phase::Exited),
            },
        }
    }
}

/// A call that the orchestrator made in a phase that does not admit it.
#[derive(Clone, Copy, Debug, PartialEq, Eq, Structural)]
pub struct LifecycleError {
    pub phase: Phase,
    pub call: Call,
}

/// The life of one plugin, as the orchestrator's calls drive it.
#[derive(Clone, Copy, Debug, PartialEq, Eq, Structural)]
pub struct Lifecycle {
    pub phase: Phase,
}

impl Lifecycle {
    /// The life of a plugin that was just constructed.
    pub fn new() -> (life: Self)
        ensures
            life.phase == Phase::Unloaded,
    {
        Lifecycle { phase: Phase::Unloaded }
    }

    /// Records `call`. Where the phase admits it the plugin moves on to the
    /// phase after it; where not, the phase stays and the error names both.
    pub fn enter(&mut self, call: Call) -> (entered: Result<(), LifecycleError>)
        ensures
            old(self).phase.admits(call) ==> entered is Ok && final(self).phase == old(
                self,
            ).phase.after(call),
            !old(self).phase.admits(call) ==> entered == Err::<(), LifecycleError>(
                LifecycleError { phase: old(self).phase, call },
            ) && final(self).phase == old(self).phase,
    {
        match self.phase.advance(call) {
            Some(next) => {
                self.phase = next;
                Ok(())
            },
            None => Err(LifecycleError { phase: self.phase, call }),
        }
    }
}

/// The phase that a run of calls leads to from `start`, or `None` if one of
/// them is made in a phase that does not admit it.
pub open spec fn run(start: Phase, calls: Seq<Call>) -> Option<Phase>
    decreases calls.len(),
{
    if calls.len() == 0 {
        Some(start)
    } else {
        match run(start, calls.drop_last()) {
            Some(phase) => if phase.admits(calls.last()) {
                Some(phase.after(calls.last()))
            } else {
                None
            },
            None => None,
        }
    }
}

/// A plugin never goes back: a call that is admitted leads to a phase that
/// is not earlier, and loading and exiting lead to a later one.
pub proof fn lemma_phases_only_advance(phase: Phase, call: Call)
    requires
        phase.admits(call),
    ensures
        phase.rank() <= phase.after(call).rank(),
        call == Call::Load || call == Call::Exit ==> phase.rank() < phase.after(call).rank(),
{
}

/// Nothing restarts a plugin that has exited: no call is admitted then.
pub proof fn lemma_exited_is_final(call: Call)
    ensures
        !Phase::Exited.admits(call),
{
}

/// In a run of calls that are all admitted, the plugin is loaded at most
/// once and exits at most once, and the exit is the last call.
pub proof fn lemma_load_and_exit_once(start: Phase, calls: Seq<Call>, i: int, j: int)
    requires
        run(start, calls) is Some,
        0 <= i < j < calls.len(),
    ensures
        !(calls[i] == Call::Load && calls[j] == Call::Load),
        calls[i] != Call::Exit,
    decreases calls.len(),
{
    lemma_run_prefix(start, calls, j);
    lemma_run_prefix(start, calls, j + 1);
    lemma_run_prefix(start, calls, i);
    lemma_run_prefix(start, calls, i + 1);
    assert(calls.take(j + 1).drop_last() == calls.take(j));
    assert(calls.take(i + 1).drop_last() == calls.take(i));
    assert(calls.take(j + 1).last() == calls[j]);
    assert(calls.take(i + 1).last() == calls[i]);
    lemma_run_is_monotone(start, calls.take(j), i + 1);
    assert(calls.take(j).take(i + 1) == calls.take(i + 1));
}

/// Every prefix of a run of admitted calls is a run of admitted calls.
proof fn lemma_run_prefix(start: Phase, calls: Seq<Call>, count: int)
    requires
        run(start, calls) is Some,
        0 <= count <= calls.len(),
    ensures
        run(start, calls.take(count)) is Some,
    decreases calls.len(),
{
    if count == calls.len() {
        assert(calls.take(count) == calls);
    } else {
        lemma_run_prefix(start, calls.drop_last(), count);
        assert(calls.drop_last().take(count) == calls.take(count));
    }
}

/// The phase after a prefix of a run is not later than the phase after the
/// whole run.
proof fn lemma_run_is_monotone(start: Phase, calls: Seq<Call>, count: int)
    requires
        run(start, calls) is Some,
        0 <= count <= calls.len(),
    ensures
        run(start, calls.take(count)) is Some,
        run(start, calls.take(count))->Some_0.rank() <= run(start, calls)->Some_0.rank(),
    decreases calls.len(),
{
    if count == calls.len() {
        assert(calls.take(count) == calls);
    } else {
        lemma_run_is_monotone(start, calls.drop_last(), count);
        assert(calls.drop_last().take(count) == calls.take(count));
    }
}

} // verus!
