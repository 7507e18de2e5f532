//! The life of one script engine instance.
//!
//! An instance is built by loading four stages in a fixed order: the
//! platform shims, the serializer, the object-model shim that exposes the
//! storage bridge, and last the user's script. Only an instance that has
//! loaded all four may run an invocation, and it runs exactly one: after
//! that it is spent and must be discarded. A stage that fails to load
//! leaves the instance failed for good.
//!
//! The loading itself is done by whoever owns the engine; this module
//! decides what comes next.

use vstd::prelude::*;

verus! {

/// A stage of an instance's startup.
#[derive(Clone, Copy, Debug, PartialEq, Eq, Structural)]
pub enum Stage {
    /// The primitive and web-platform shims.
    Shims,
    /// The structured serializer.
    Serializer,
    /// The object-model shim, which exposes the storage bridge.
    ObjectModel,
    /// The user's script.
    UserScript,
}

/// Where an instance stands.
#[derive(Clone, Copy, Debug, PartialEq, Eq, Structural)]
pub enum Engine {
    /// The given stage is the next to load.
    Loading(Stage),
    /// Every stage is loaded; one invocation may run.
    Ready,
    /// The invocation has run.
    Spent,
    /// The given stage failed to load.
    Failed(Stage),
}

/// What happened to an instance.
#[derive(Clone, Copy, Debug, PartialEq, Eq, Structural)]
pub enum Event {
    /// The stage that was due has loaded.
    Loaded,
    /// The stage that was due could not be loaded.
    LoadFailed,
    /// An invocation ran to its end, with a value or with a caught error.
    Invoked,
}

/// The position of a stage in the startup order.
pub open spec fn rank(stage: Stage) -> nat {
    match stage {
        Stage::Shims => 0,
        Stage::Serializer => 1,
        Stage::ObjectModel => 2,
        Stage::UserScript => 3,
    }
}

/// The state that follows the loading of `stage`.
pub open spec fn after_stage(stage: Stage) -> Engine {
    match stage {
        Stage::Shims => Engine::Loading(Stage::Serializer),
        Stage::Serializer => Engine::Loading(Stage::ObjectModel),
        Stage::ObjectModel => Engine::Loading(Stage::UserScript),
        Stage::UserScript => Engine::Ready,
    }
}

/// Whether `event` may happen in `state`.
pub open spec fn admits(state: Engine, event: Event) -> bool {
    match (state, event) {
        (Engine::Loading(_), Event::Loaded) => true,
        (Engine::Loading(_), Event::LoadFailed) => true,
        (Engine::Ready, Event::Invoked) => true,
        _ => false,
    }
}

/// The state that follows `event` in `state`, where it is admitted.
pub open spec fn next_state(state: Engine, event: Event) -> Engine {
    match (state, event) {
        (Engine::Loading(stage), Event::Loaded) => after_stage(stage),
        (Engine::Loading(stage), Event::LoadFailed) => Engine::Failed(stage),
        (Engine::Ready, Event::Invoked) => Engine::Spent,
        _ => state,
    }
}

/// The state after a run of events from `state`, or `None` where one of
/// them was not admitted.
pub open spec fn run(state: Engine, events: Seq<Event>) -> Option<Engine>
    decreases events.len(),
{
    if events.len() == 0 {
        Some(state)
    } else if !admits(state, events[0]) {
        None
    } else {
        run(next_state(state, events[0]), events.drop_first())
    }
}

/// A new instance: nothing is loaded yet.
pub fn fresh() -> (state: Engine)
    ensures
        state == Engine::Loading(Stage::Shims),
{
    Engine::Loading(Stage::Shims)
}

/// The stage to load next, if the instance is still starting.
pub fn due(state: Engine) -> (stage: Option<Stage>)
    ensures
        stage == match state {
            Engine::Loading(s) => Some(s),
            _ => None::<Stage>,
        },
{
    match state {
        Engine::Loading(s) => Some(s),
        _ => None,
    }
}

/// Whether an invocation may run on the instance now.
pub fn can_invoke(state: Engine) -> (ok: bool)
    ensures
        ok == admits(state, Event::Invoked),
        ok == (state == Engine::Ready),
{
    match state {
        Engine::Ready => true,
        _ => false,
    }
}

/// Moves the instance along by `event`. An event that the state does not
/// admit is refused and changes nothing.
pub fn step(state: Engine, event: Event) -> (r: Option<Engine>)
    ensures
        r == if admits(state, event) {
            Some(next_state(state, event))
        } else {
            None
        },
{
    match state {
        Engine::Loading(stage) => match event {
            Event::Loaded => Some(
                match stage {
                    Stage::Shims => Engine::Loading(Stage::Serializer),
                    Stage::Serializer => Engine::Loading(Stage::ObjectModel),
                    Stage::ObjectModel => Engine::Loading(Stage::UserScript),
                    Stage::UserScript => Engine::Ready,
                },
            ),
            Event::LoadFailed => Some(Engine::Failed(stage)),
            Event::Invoked => None,
        },
        Engine::Ready => match event {
            Event::Invoked => Some(Engine::Spent),
            _ => None,
        },
        Engine::Spent => None,
        Engine::Failed(_) => None,
    }
}

/// The startup order is fixed: loading a stage leads to the stage of the
/// next rank, and after the last one to readiness.
pub proof fn law_stages_load_in_order(stage: Stage)
    ensures
        match after_stage(stage) {
            Engine::Loading(next) => rank(next) == rank(stage) + 1,
            Engine::Ready => rank(stage) == 3,
            _ => false,
        },
{
}

/// A fresh instance is ready after exactly four stages have loaded, and
/// not before.
pub proof fn law_ready_after_four_stages()
    ensures
        run(Engine::Loading(Stage::Shims), seq![Event::Loaded, Event::Loaded, Event::Loaded, Event::Loaded])
            == Some(Engine::Ready),
        forall|events: Seq<Event>|
            events.len() < 4 ==> run(Engine::Loading(Stage::Shims), events) != Some(Engine::Ready),
{
    reveal_with_fuel(run, 6);
    let four = seq![Event::Loaded, Event::Loaded, Event::Loaded, Event::Loaded];
    let three = four.drop_first();
    let two = three.drop_first();
    let one = two.drop_first();
    assert(one.drop_first().len() == 0);
    assert forall|events: Seq<Event>| events.len() < 4 implies run(
        Engine::Loading(Stage::Shims),
        events,
    ) != Some(Engine::Ready) by {
        lemma_ready_needs_remaining(Engine::Loading(Stage::Shims), events);
    }
}

/// The number of stages that an instance has yet to load.
pub open spec fn remaining(state: Engine) -> nat {
    match state {
        Engine::Loading(stage) => (4 - rank(stage)) as nat,
        _ => 0,
    }
}

/// A starting instance cannot be ready after fewer events than it has
/// stages left to load.
pub proof fn lemma_ready_needs_remaining(state: Engine, events: Seq<Event>)
    requires
        state is Loading,
        events.len() < remaining(state),
    ensures
        run(state, events) != Some(Engine::Ready),
    decreases events.len(),
{
    if events.len() > 0 && admits(state, events[0]) {
        let next = next_state(state, events[0]);
        if next is Loading {
            lemma_ready_needs_remaining(next, events.drop_first());
        } else {
            lemma_failed_stays(next, events.drop_first());
        }
    }
}

/// A spent or failed instance admits nothing: every non-empty run of
/// events from it is refused, and it never becomes ready again.
pub proof fn lemma_failed_stays(state: Engine, events: Seq<Event>)
    requires
        state is Failed || state is Spent,
    ensures
        run(state, events) == if events.len() == 0 {
            Some(state)
        } else {
            None
        },
{
}

/// An instance runs at most one invocation: no run of events from any
/// state holds two.
pub proof fn law_single_use(state: Engine, events: Seq<Event>, i: int, j: int)
    requires
        0 <= i < j < events.len(),
        events[i] == Event::Invoked,
        events[j] == Event::Invoked,
    ensures
        run(state, events) is None,
    decreases events.len(),
{
    if admits(state, events[0]) {
        let next = next_state(state, events[0]);
        let rest = events.drop_first();
        if i == 0 {
            assert(next == Engine::Spent);
            lemma_failed_stays(next, rest);
        } else {
            assert(rest[i - 1] == events[i]);
            assert(rest[j - 1] == events[j]);
            law_single_use(next, rest, i - 1, j - 1);
        }
    }
}

} // verus!
