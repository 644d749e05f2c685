//! The lifecycle of a unit: what a unit has to offer, the states that a
//! load goes through, and the controller that takes a unit through them.

use crate::descriptor::{DescriptorView, ModuleDescriptor};
use crate::log::{Log, LogEntry};
use crate::param::{ParamError, Parameter, ParameterView};
use crate::registration::Registration;
use crate::store::{distinct_names, views, ParameterStore, StoreMap};
use vstd::prelude::*;
use vstd::string::*;

verus! {

/// Why a unit could not be initialised. The load is given up; nothing is
/// tried again.
#[derive(Clone, Copy, Debug, PartialEq, Eq, Structural)]
pub struct InitError {
    /// The parameter access that failed.
    pub cause: ParamError,
}

impl InitError {
    /// The text of [`InitError::message`].
    pub open spec fn message_text(self) -> Seq<char> {
        "initialisation failed: "@ + self.cause.message_text()
    }

    /// A line for the operator that names the cause.
    pub fn message(&self) -> (r: String)
        ensures
            r@ == self.message_text(),
    {
        let mut r = String::from_str("initialisation failed: ");
        let cause = self.cause.message();
        r.append(cause.as_str());
        r
    }

    /// Different causes have different messages.
    pub proof fn lemma_messages_differ(a: InitError, b: InitError)
        requires
            a != b,
        ensures
            a.message_text() != b.message_text(),
    {
        ParamError::lemma_messages_differ(a.cause, b.cause);
        let head = "initialisation failed: "@;
        let n = head.len() as int;
        assert(a.message_text().subrange(n, a.message_text().len() as int)
            =~= a.cause.message_text());
        assert(b.message_text().subrange(n, b.message_text().len() as int)
            =~= b.cause.message_text());
    }
}

/// What a loadable unit offers to its host: its descriptor, its parameters,
/// and the pair of entry and exit. A value of the implementing type is the
/// payload: what the unit owns between a successful `init` and its
/// `cleanup`. `cleanup` takes the payload by value, and a unit lets nothing
/// but its `init` make a payload, so `cleanup` cannot be called without an
/// `init` that succeeded, nor twice for one.
pub trait Unit: Sized {
    /// The descriptor that the unit registers with.
    spec fn descriptor_view() -> DescriptorView;

    /// The parameters that the unit declares.
    spec fn parameter_views() -> Seq<ParameterView>;

    /// Whether `init` succeeds on the configuration `config`, and why not.
    spec fn init_result(name: Seq<char>, config: StoreMap) -> Result<(), InitError>;

    /// The messages that `init` writes on the configuration `config`.
    spec fn init_messages(name: Seq<char>, config: StoreMap) -> Seq<LogEntry>;

    /// The messages that `cleanup` writes.
    spec fn cleanup_messages() -> Seq<LogEntry>;

    /// The descriptor that the unit registers with.
    fn descriptor() -> (r: ModuleDescriptor)
        ensures
            r@ == Self::descriptor_view(),
    ;

    /// The parameters that the unit declares, each with its default. No
    /// two of them have the same name.
    fn parameters() -> (r: Vec<Parameter>)
        ensures
            views(r@) == Self::parameter_views(),
            distinct_names(views(r@)),
    ;

    /// Initialises the unit named `name` from the configuration `config`
    /// and writes its messages to `log`. Where it fails, no payload exists
    /// and nothing is left to release.
    fn init(name: &str, config: &ParameterStore, log: &mut Log) -> (r: Result<Self, InitError>)
        ensures
            match r {
                Ok(_) => Self::init_result(name@, config@) is Ok,
                Err(e) => Self::init_result(name@, config@) == Err::<(), InitError>(e),
            },
            final(log)@ == old(log)@ + Self::init_messages(name@, config@),
    ;

    /// Releases what the unit owns and writes its messages to `log`. It
    /// never fails.
    fn cleanup(self, log: &mut Log)
        ensures
            final(log)@ == old(log)@ + Self::cleanup_messages(),
    ;
}

/// The state of one load of a unit.
pub enum ModuleState<U> {
    /// The unit has not been initialised yet.
    Uninitialized,
    /// `init` succeeded; the state owns the payload.
    Active(U),
    /// `init` failed, for the reason given.
    Failed(InitError),
    /// `cleanup` has run; the load is over.
    Unloaded,
}

/// The state of a load without what it owns.
#[derive(Clone, Copy, Debug, PartialEq, Eq, Structural)]
pub enum Phase {
    Uninitialized,
    Active,
    Failed,
    Unloaded,
}

impl<U> ModuleState<U> {
    /// The phase that the state is in.
    pub open spec fn phase(self) -> Phase {
        match self {
            ModuleState::Uninitialized => Phase::Uninitialized,
            ModuleState::Active(_) => Phase::Active,
            ModuleState::Failed(_) => Phase::Failed,
            ModuleState::Unloaded => Phase::Unloaded,
        }
    }
}

/// A call that the host makes on a controller.
pub enum HostCall {
    /// `init`, with whether the unit's own `init` succeeds.
    Init { succeeds: bool },
    /// `cleanup`.
    Cleanup,
}

/// The phase after a call, or `None` where the controller does not admit
/// the call: `init` is for a load that has not been initialised. `cleanup`
/// is admitted in every phase, and ends the load where the unit is active.
pub open spec fn phase_after_call(phase: Phase, call: HostCall) -> Option<Phase> {
    match call {
        HostCall::Init { succeeds } => if phase == Phase::Uninitialized {
            Some(
                if succeeds {
                    Phase::Active
                } else {
                    Phase::Failed
                },
            )
        } else {
            None
        },
        HostCall::Cleanup => Some(
            if phase == Phase::Active {
                Phase::Unloaded
            } else {
                phase
            },
        ),
    }
}

/// The phase of a fresh load after the calls `calls`, or `None` where the
/// controller does not admit one of them.
pub open spec fn phase_after(calls: Seq<HostCall>) -> Option<Phase>
    decreases calls.len(),
{
    if calls.len() == 0 {
        Some(Phase::Uninitialized)
    } else {
        match phase_after(calls.drop_last()) {
            Some(phase) => phase_after_call(phase, calls.last()),
            None => None,
        }
    }
}

/// Whether the call at place `k` of `calls` is a `cleanup` that runs the
/// unit's own `cleanup`: one made while the unit is active.
pub open spec fn cleanup_runs_at(calls: Seq<HostCall>, k: int) -> bool {
    &&& 0 <= k < calls.len()
    &&& calls[k] == HostCall::Cleanup
    &&& phase_after(calls.take(k)) == Some(Phase::Active)
}

/// Whether the call at place `k` of `calls` is an `init` that succeeds.
pub open spec fn init_succeeds_at(calls: Seq<HostCall>, k: int) -> bool {
    &&& 0 <= k < calls.len()
    &&& calls[k] == HostCall::Init { succeeds: true }
    &&& phase_after(calls.take(k)) == Some(Phase::Uninitialized)
}

/// The phase after one call more is the phase after the calls before it,
/// taken one step further.
proof fn lemma_phase_after_next(calls: Seq<HostCall>, k: int)
    requires
        0 <= k < calls.len(),
    ensures
        phase_after(calls.take(k + 1)) == match phase_after(calls.take(k)) {
            Some(phase) => phase_after_call(phase, calls[k]),
            None => None,
        },
{
    let upto = calls.take(k + 1);
    assert(upto.drop_last() =~= calls.take(k));
    assert(upto.last() == calls[k]);
}

/// Once a load is over it stays over: after a `cleanup` that ran, no call
/// leads to another phase.
proof fn lemma_unloaded_is_final(calls: Seq<HostCall>, from: int, to: int)
    requires
        0 <= from <= to <= calls.len(),
        phase_after(calls.take(from)) == Some(Phase::Unloaded) || phase_after(calls.take(from))
            is None,
    ensures
        phase_after(calls.take(to)) == Some(Phase::Unloaded) || phase_after(calls.take(to)) is None,
    decreases to - from,
{
    if from < to {
        lemma_unloaded_is_final(calls, from, to - 1);
        lemma_phase_after_next(calls, to - 1);
    }
}

/// No `cleanup` runs before an `init` that succeeded: where the unit's
/// `cleanup` runs at some place in a sequence of calls, an `init` succeeded
/// at an earlier place.
pub proof fn lemma_cleanup_follows_init(calls: Seq<HostCall>, k: int)
    requires
        cleanup_runs_at(calls, k),
    ensures
        exists|j: int| 0 <= j < k && #[trigger] init_succeeds_at(calls, j),
{
    if k == 0 {
        assert(calls.take(0).len() == 0);
    } else {
        lemma_phase_after_next(calls, k - 1);
        assert(init_succeeds_at(calls, k - 1));
    }
}

/// The unit's `cleanup` runs once at most: in a sequence of calls there is
/// one place at most where it runs.
pub proof fn lemma_cleanup_runs_once(calls: Seq<HostCall>, j: int, k: int)
    requires
        cleanup_runs_at(calls, j),
        cleanup_runs_at(calls, k),
    ensures
        j == k,
{
    if j < k {
        lemma_phase_after_next(calls, j);
        lemma_unloaded_is_final(calls, j + 1, k);
    } else if k < j {
        lemma_phase_after_next(calls, k);
        lemma_unloaded_is_final(calls, k + 1, j);
    }
}

/// A call that the host makes on one of its loads. Loads are told apart by
/// a number.
pub struct LoadCall {
    pub load: nat,
    pub call: HostCall,
}

/// The phase of the load `load` after the calls `calls`, which the host
/// makes on any of its loads, in any order. Every load has a controller of
/// its own, and a call is made on one controller and on the log handed to
/// it: it moves the load that it is made on and no other.
pub open spec fn phase_of_load(calls: Seq<LoadCall>, load: nat) -> Option<Phase>
    decreases calls.len(),
{
    if calls.len() == 0 {
        Some(Phase::Uninitialized)
    } else if calls.last().load == load {
        match phase_of_load(calls.drop_last(), load) {
            Some(phase) => phase_after_call(phase, calls.last().call),
            None => None,
        }
    } else {
        phase_of_load(calls.drop_last(), load)
    }
}

/// The calls among `calls` that are made on the load `load`, in their order.
pub open spec fn calls_on(calls: Seq<LoadCall>, load: nat) -> Seq<HostCall>
    decreases calls.len(),
{
    if calls.len() == 0 {
        Seq::empty()
    } else if calls.last().load == load {
        calls_on(calls.drop_last(), load).push(calls.last().call)
    } else {
        calls_on(calls.drop_last(), load)
    }
}

/// Whether the call at place `k` of `calls` is a `cleanup` on the load
/// `load` that runs the unit's own `cleanup`.
pub open spec fn cleanup_runs_on(calls: Seq<LoadCall>, k: int, load: nat) -> bool {
    &&& 0 <= k < calls.len()
    &&& calls[k].load == load
    &&& calls[k].call == HostCall::Cleanup
    &&& phase_of_load(calls.take(k), load) == Some(Phase::Active)
}

/// Whether the call at place `k` of `calls` is an `init` on the load `load`
/// that succeeds.
pub open spec fn init_succeeds_on(calls: Seq<LoadCall>, k: int, load: nat) -> bool {
    &&& 0 <= k < calls.len()
    &&& calls[k].load == load
    &&& calls[k].call == HostCall::Init { succeeds: true }
    &&& phase_of_load(calls.take(k), load) == Some(Phase::Uninitialized)
}

/// The phase of a load after one call more: the call counts where it is
/// made on that load.
proof fn lemma_phase_of_load_next(calls: Seq<LoadCall>, k: int, load: nat)
    requires
        0 <= k < calls.len(),
    ensures
        phase_of_load(calls.take(k + 1), load) == if calls[k].load == load {
            match phase_of_load(calls.take(k), load) {
                Some(phase) => phase_after_call(phase, calls[k].call),
                None => None,
            }
        } else {
            phase_of_load(calls.take(k), load)
        },
{
    let upto = calls.take(k + 1);
    assert(upto.drop_last() =~= calls.take(k));
    assert(upto.last() == calls[k]);
}

/// A load that is active has been initialised, by a call on that load.
proof fn lemma_active_load_was_initialised(calls: Seq<LoadCall>, k: int, load: nat)
    requires
        0 <= k <= calls.len(),
        phase_of_load(calls.take(k), load) == Some(Phase::Active),
    ensures
        exists|j: int| 0 <= j < k && #[trigger] init_succeeds_on(calls, j, load),
    decreases k,
{
    if k == 0 {
        assert(calls.take(0).len() == 0);
    } else {
        lemma_phase_of_load_next(calls, k - 1, load);
        if calls[k - 1].load == load {
            assert(init_succeeds_on(calls, k - 1, load));
        } else {
            lemma_active_load_was_initialised(calls, k - 1, load);
        }
    }
}

/// A load that is over stays over, whatever calls follow, on it or on other
/// loads.
proof fn lemma_unloaded_load_is_final(calls: Seq<LoadCall>, from: int, to: int, load: nat)
    requires
        0 <= from <= to <= calls.len(),
        phase_of_load(calls.take(from), load) == Some(Phase::Unloaded) || phase_of_load(
            calls.take(from),
            load,
        ) is None,
    ensures
        phase_of_load(calls.take(to), load) == Some(Phase::Unloaded) || phase_of_load(
            calls.take(to),
            load,
        ) is None,
    decreases to - from,
{
    if from < to {
        lemma_unloaded_load_is_final(calls, from, to - 1, load);
        lemma_phase_of_load_next(calls, to - 1, load);
    }
}

/// Loads do not meet: however the calls on many loads are interleaved, the
/// phase of each load is what the calls on that load alone lead to.
pub proof fn lemma_loads_are_independent(calls: Seq<LoadCall>, load: nat)
    ensures
        phase_of_load(calls, load) == phase_after(calls_on(calls, load)),
    decreases calls.len(),
{
    if calls.len() > 0 {
        lemma_loads_are_independent(calls.drop_last(), load);
        if calls.last().load == load {
            let before = calls_on(calls.drop_last(), load);
            let own = before.push(calls.last().call);
            assert(own.drop_last() =~= before);
            assert(own.last() == calls.last().call);
        }
    }
}

/// With any number of loads and any interleaving of the calls on them, no
/// `cleanup` runs on a load before an `init` succeeded on that load.
pub proof fn lemma_cleanup_follows_init_on_every_load(calls: Seq<LoadCall>, k: int, load: nat)
    requires
        cleanup_runs_on(calls, k, load),
    ensures
        exists|j: int| 0 <= j < k && #[trigger] init_succeeds_on(calls, j, load),
{
    lemma_active_load_was_initialised(calls, k, load);
}

/// With any number of loads and any interleaving of the calls on them, the
/// unit's `cleanup` runs once at most on each load.
pub proof fn lemma_cleanup_runs_once_on_every_load(
    calls: Seq<LoadCall>,
    j: int,
    k: int,
    load: nat,
)
    requires
        cleanup_runs_on(calls, j, load),
        cleanup_runs_on(calls, k, load),
    ensures
        j == k,
{
    if j < k {
        lemma_phase_of_load_next(calls, j, load);
        lemma_unloaded_load_is_final(calls, j + 1, k, load);
    } else if k < j {
        lemma_phase_of_load_next(calls, k, load);
        lemma_unloaded_load_is_final(calls, k + 1, j, load);
    }
}

/// The controller of one load of a unit. It owns the state of the load, and
/// with it the payload while the unit is active.
pub struct LifecycleController<U: Unit> {
    state: ModuleState<U>,
}

impl<U: Unit> LifecycleController<U> {
    /// The state of the load.
    pub closed spec fn state(&self) -> ModuleState<U> {
        self.state
    }

    /// The phase of the load.
    pub open spec fn phase(&self) -> Phase {
        self.state().phase()
    }

    /// The controller of a load that has not been initialised.
    pub fn new() -> (r: Self)
        ensures
            r.state() == ModuleState::<U>::Uninitialized,
    {
        LifecycleController { state: ModuleState::Uninitialized }
    }

    /// The state of the load.
    pub fn current_state(&self) -> (r: &ModuleState<U>)
        ensures
            *r == self.state(),
    {
        &self.state
    }

    /// The phase of the load.
    pub fn current_phase(&self) -> (r: Phase)
        ensures
            r == self.phase(),
    {
        match &self.state {
            ModuleState::Uninitialized => Phase::Uninitialized,
            ModuleState::Active(_) => Phase::Active,
            ModuleState::Failed(_) => Phase::Failed,
            ModuleState::Unloaded => Phase::Unloaded,
        }
    }

    /// Why `init` failed, where it did.
    pub fn failure(&self) -> (r: Option<InitError>)
        ensures
            match r {
                Some(e) => self.state() == ModuleState::<U>::Failed(e),
                None => self.phase() != Phase::Failed,
            },
    {
        match &self.state {
            ModuleState::Failed(e) => Some(*e),
            _ => None,
        }
    }

    /// Initialises the unit named `name` from the configuration `config`.
    /// Where the unit's `init` succeeds, the load is active and owns the
    /// payload. Where it fails, the load has failed for the reason
    /// returned, and no payload exists. Either way the unit's messages are
    /// in `log`.
    pub fn init_from(&mut self, name: &str, config: &ParameterStore, log: &mut Log) -> (r: Result<
        (),
        InitError,
    >)
        requires
            old(self).phase() == Phase::Uninitialized,
        ensures
            match r {
                Ok(()) => {
                    &&& U::init_result(name@, config@) is Ok
                    &&& final(self).phase() == Phase::Active
                },
                Err(e) => {
                    &&& U::init_result(name@, config@) == Err::<(), InitError>(e)
                    &&& final(self).state() == ModuleState::<U>::Failed(e)
                },
            },
            final(log)@ == old(log)@ + U::init_messages(name@, config@),
            Some(final(self).phase()) == phase_after_call(
                old(self).phase(),
                HostCall::Init { succeeds: r is Ok },
            ),
    {
        match U::init(name, config, log) {
            Ok(payload) => {
                self.state = ModuleState::Active(payload);
                Ok(())
            },
            Err(e) => {
                self.state = ModuleState::Failed(e);
                Err(e)
            },
        }
    }

    /// Initialises a registered unit. The configuration is read from the
    /// unit's parameter store once, under the store's lock, and the lock is
    /// given back before the unit writes its messages. The unit sees the
    /// store as it is at that moment: `config` below, a state that the store
    /// can be in. What follows is what [`LifecycleController::init_from`]
    /// does with the unit's name and that configuration.
    pub fn init(&mut self, module: &Registration, log: &mut Log) -> (r: Result<(), InitError>)
        requires
            old(self).phase() == Phase::Uninitialized,
        ensures
            exists|config: StoreMap|
                {
                    &&& #[trigger] module.parameters().admits(config)
                    &&& match r {
                        Ok(()) => U::init_result(module.descriptor()@.name, config) is Ok,
                        Err(e) => U::init_result(module.descriptor()@.name, config) == Err::<
                            (),
                            InitError,
                        >(e),
                    }
                    &&& final(log)@ == old(log)@ + U::init_messages(
                        module.descriptor()@.name,
                        config,
                    )
                },
            match r {
                Ok(()) => final(self).phase() == Phase::Active,
                Err(e) => final(self).state() == ModuleState::<U>::Failed(e),
            },
            Some(final(self).phase()) == phase_after_call(
                old(self).phase(),
                HostCall::Init { succeeds: r is Ok },
            ),
    {
        let config = module.parameters().snapshot();
        let r = self.init_from(module.descriptor().name(), &config, log);
        assert(module.parameters().admits(config@));
        r
    }

    /// Ends the load. Where the unit is active, its `cleanup` runs, with the
    /// payload, and its messages are written to `log`; the load is then
    /// over. In every other phase nothing happens: no `cleanup` runs before
    /// an `init` that succeeded, nor after a `cleanup`. Returns whether the
    /// unit's `cleanup` ran.
    pub fn cleanup(&mut self, log: &mut Log) -> (r: bool)
        ensures
            r == (old(self).phase() == Phase::Active),
            r ==> final(self).state() == ModuleState::<U>::Unloaded,
            !r ==> final(self).state() == old(self).state(),
            final(log)@ == old(log)@ + (if r {
                U::cleanup_messages()
            } else {
                Seq::<LogEntry>::empty()
            }),
            Some(final(self).phase()) == phase_after_call(old(self).phase(), HostCall::Cleanup),
    {
        let mut state = ModuleState::Unloaded;
        core::mem::swap(&mut self.state, &mut state);
        match state {
            ModuleState::Active(payload) => {
                payload.cleanup(log);
                true
            },
            other => {
                self.state = other;
                assert(log@ =~= old(log)@ + Seq::<LogEntry>::empty());
                false
            },
        }
    }
}

} // verus!
