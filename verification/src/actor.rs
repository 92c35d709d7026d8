//! The task that owns a backend: it forwards the events of the backend and
//! carries out the commands of everyone else, one at a time.

use crate::capability::CapabilityManifest;
use crate::engine::manifest_result;
use crate::event::RawEvent;
use crate::text::unit_result;
use crate::value::{value_result, JsonValue};
use vstd::prelude::*;

verus! {

/// What comes to the task.
#[derive(Debug)]
pub enum ActorInput {
    /// The backend emitted an event.
    Event(RawEvent),
    /// The event was handed on, or nobody is left to take it.
    Forwarded { taken: bool },
    /// The backend will emit no more events.
    EventsEnded,
    /// The backend failed to emit an event.
    EventsFailed,
    /// Someone wants to read a key.
    Get { key: String },
    /// The key was read.
    Read(Result<JsonValue, String>),
    /// Someone wants to set a key.
    Put { key: String, value: JsonValue },
    /// The key was set.
    Written(Result<(), String>),
    /// Someone wants the manifest.
    Manifest,
    /// The backend gave its manifest.
    Listed(CapabilityManifest),
    /// Someone wants the backend shut down.
    Shutdown,
    /// Nobody is left to send commands.
    CommandsClosed,
    /// The backend was shut down.
    Stopped(Result<(), String>),
}

/// What the task does next.
#[derive(Debug)]
pub enum ActorStep {
    /// Wait for an event of the backend or a command.
    Wait,
    /// Hand the event on.
    Forward(RawEvent),
    /// Read the key.
    CallGet { key: String },
    /// Reply what reading came to, and wait.
    ReplyGet(Result<JsonValue, String>),
    /// Set the key.
    CallSet { key: String, value: JsonValue },
    /// Reply what setting came to, and wait.
    ReplySet(Result<(), String>),
    /// Ask the backend for its manifest.
    CallManifest,
    /// Reply with the manifest, and wait.
    ReplyManifest(CapabilityManifest),
    /// Shut the backend down.
    CallShutdown,
    /// Reply what shutting down came to, and end.
    ReplyShutdown(Result<(), String>),
    /// End. Nobody asked what shutting down came to.
    Leave(Result<(), String>),
}

/// What the task is doing.
#[derive(Debug, Clone, Copy, PartialEq, Eq, Structural)]
pub enum ActorPhase {
    /// It waits for an event of the backend or a command.
    Waiting,
    /// It hands an event on.
    Forwarding,
    /// It reads a key.
    Reading,
    /// It sets a key.
    Writing,
    /// It asks for the manifest.
    Listing,
    /// It shuts the backend down, on command or because nothing else is left to do.
    Stopping { asked: bool },
    /// It has ended.
    Left,
}

/// An input can come in a phase.
pub open spec fn fits(phase: ActorPhase, input: ActorInput) -> bool {
    match input {
        ActorInput::Forwarded { .. } => phase == ActorPhase::Forwarding,
        ActorInput::Read(_) => phase == ActorPhase::Reading,
        ActorInput::Written(_) => phase == ActorPhase::Writing,
        ActorInput::Listed(_) => phase == ActorPhase::Listing,
        ActorInput::Stopped(_) => phase is Stopping,
        _ => phase == ActorPhase::Waiting,
    }
}

/// What the task does with an input, and the phase it is in then. An input that
/// cannot come in its phase is ignored.
pub open spec fn step_for(phase: ActorPhase, input: ActorInput) -> (ActorPhase, ActorStep) {
    if !fits(phase, input) {
        (phase, ActorStep::Wait)
    } else {
        match input {
            ActorInput::Event(event) => (ActorPhase::Forwarding, ActorStep::Forward(event)),
            ActorInput::Forwarded { taken } => if taken {
                (ActorPhase::Waiting, ActorStep::Wait)
            } else {
                (ActorPhase::Stopping { asked: false }, ActorStep::CallShutdown)
            },
            ActorInput::Get { key } => (ActorPhase::Reading, ActorStep::CallGet { key }),
            ActorInput::Read(r) => (ActorPhase::Waiting, ActorStep::ReplyGet(r)),
            ActorInput::Put { key, value } => (
                ActorPhase::Writing,
                ActorStep::CallSet { key, value },
            ),
            ActorInput::Written(r) => (ActorPhase::Waiting, ActorStep::ReplySet(r)),
            ActorInput::Manifest => (ActorPhase::Listing, ActorStep::CallManifest),
            ActorInput::Listed(m) => (ActorPhase::Waiting, ActorStep::ReplyManifest(m)),
            ActorInput::Shutdown => (
                ActorPhase::Stopping { asked: true },
                ActorStep::CallShutdown,
            ),
            ActorInput::Stopped(r) => (
                ActorPhase::Left,
                if phase == (ActorPhase::Stopping { asked: true }) {
                    ActorStep::ReplyShutdown(r)
                } else {
                    ActorStep::Leave(r)
                },
            ),
            _ => (ActorPhase::Stopping { asked: false }, ActorStep::CallShutdown),
        }
    }
}

/// The state of the task.
#[derive(Debug)]
pub struct Actor {
    phase: ActorPhase,
}

impl Actor {
    /// What the task is doing.
    pub closed spec fn phase(self) -> ActorPhase {
        self.phase
    }

    /// A task that was just started.
    pub fn new() -> (a: Actor)
        ensures
            a.phase() == ActorPhase::Waiting,
    {
        Actor { phase: ActorPhase::Waiting }
    }

    /// What to do with an input.
    pub fn step(&mut self, input: ActorInput) -> (r: ActorStep)
        ensures
            (final(self).phase(), r) == step_for(old(self).phase(), input),
    {
        let (phase, step) = match (self.phase, input) {
            (ActorPhase::Waiting, ActorInput::Event(event)) => (
                ActorPhase::Forwarding,
                ActorStep::Forward(event),
            ),
            (ActorPhase::Forwarding, ActorInput::Forwarded { taken }) => if taken {
                (ActorPhase::Waiting, ActorStep::Wait)
            } else {
                (ActorPhase::Stopping { asked: false }, ActorStep::CallShutdown)
            },
            (ActorPhase::Waiting, ActorInput::Get { key }) => (
                ActorPhase::Reading,
                ActorStep::CallGet { key },
            ),
            (ActorPhase::Reading, ActorInput::Read(r)) => (
                ActorPhase::Waiting,
                ActorStep::ReplyGet(r),
            ),
            (ActorPhase::Waiting, ActorInput::Put { key, value }) => (
                ActorPhase::Writing,
                ActorStep::CallSet { key, value },
            ),
            (ActorPhase::Writing, ActorInput::Written(r)) => (
                ActorPhase::Waiting,
                ActorStep::ReplySet(r),
            ),
            (ActorPhase::Waiting, ActorInput::Manifest) => (
                ActorPhase::Listing,
                ActorStep::CallManifest,
            ),
            (ActorPhase::Listing, ActorInput::Listed(m)) => (
                ActorPhase::Waiting,
                ActorStep::ReplyManifest(m),
            ),
            (ActorPhase::Waiting, ActorInput::Shutdown) => (
                ActorPhase::Stopping { asked: true },
                ActorStep::CallShutdown,
            ),
            (ActorPhase::Waiting, ActorInput::EventsEnded) => (
                ActorPhase::Stopping { asked: false },
                ActorStep::CallShutdown,
            ),
            (ActorPhase::Waiting, ActorInput::EventsFailed) => (
                ActorPhase::Stopping { asked: false },
                ActorStep::CallShutdown,
            ),
            (ActorPhase::Waiting, ActorInput::CommandsClosed) => (
                ActorPhase::Stopping { asked: false },
                ActorStep::CallShutdown,
            ),
            (ActorPhase::Stopping { asked }, ActorInput::Stopped(r)) => (
                ActorPhase::Left,
                if asked {
                    ActorStep::ReplyShutdown(r)
                } else {
                    ActorStep::Leave(r)
                },
            ),
            (phase, _) => (phase, ActorStep::Wait),
        };
        self.phase = phase;
        step
    }
}

/// The phase of a task after some inputs.
pub open spec fn phase_after(inputs: Seq<ActorInput>) -> ActorPhase
    decreases inputs.len(),
{
    if inputs.len() == 0 {
        ActorPhase::Waiting
    } else {
        step_for(phase_after(inputs.drop_last()), inputs.last()).0
    }
}

/// What a task does with one of its inputs.
pub open spec fn step_at(inputs: Seq<ActorInput>, i: int) -> ActorStep {
    step_for(phase_after(inputs.take(i)), inputs[i]).1
}

/// Each input can come in the phase in which it comes.
#[verifier::opaque]
pub open spec fn in_order(inputs: Seq<ActorInput>) -> bool {
    forall|i: int| 0 <= i < inputs.len() ==> fits(phase_after(inputs.take(i)), #[trigger] inputs[i])
}

proof fn lemma_fits_at(inputs: Seq<ActorInput>, i: int)
    requires
        in_order(inputs),
        0 <= i < inputs.len(),
    ensures
        fits(phase_after(inputs.take(i)), inputs[i]),
{
    reveal(in_order);
}

proof fn lemma_phase_at(inputs: Seq<ActorInput>, i: int)
    requires
        0 <= i < inputs.len(),
    ensures
        phase_after(inputs.take(i + 1)) == step_for(phase_after(inputs.take(i)), inputs[i]).0,
{
    assert(inputs.take(i + 1).drop_last() =~= inputs.take(i));
}

proof fn lemma_in_order_before(inputs: Seq<ActorInput>)
    requires
        in_order(inputs),
        inputs.len() > 0,
    ensures
        in_order(inputs.drop_last()),
        fits(phase_after(inputs.drop_last()), inputs.last()),
        step_at(inputs, inputs.len() - 1) == step_for(
            phase_after(inputs.drop_last()),
            inputs.last(),
        ).1,
{
    reveal(in_order);
    let init = inputs.drop_last();
    assert(inputs.take(inputs.len() - 1) =~= init);
    assert forall|i: int| 0 <= i < init.len() implies fits(
        phase_after(init.take(i)),
        #[trigger] init[i],
    ) by {
        assert(init.take(i) =~= inputs.take(i));
        assert(inputs[i] == init[i]);
    }
}

/// An input after which the task does nothing but end.
pub open spec fn ends_task(input: ActorInput) -> bool {
    match input {
        ActorInput::Shutdown => true,
        ActorInput::CommandsClosed => true,
        ActorInput::EventsEnded => true,
        ActorInput::EventsFailed => true,
        ActorInput::Forwarded { taken } => !taken,
        _ => false,
    }
}

proof fn lemma_step(phase: ActorPhase, input: ActorInput)
    requires
        fits(phase, input),
    ensures
        step_for(phase, input).1 is CallShutdown <==> ends_task(input),
        step_for(phase, input).1 is CallShutdown <==> step_for(phase, input).0 is Stopping,
        step_for(phase, input).0 == ActorPhase::Left <==> phase is Stopping,
        phase is Stopping ==> (step_for(phase, input).1 is ReplyShutdown || step_for(
            phase,
            input,
        ).1 is Leave),
        phase != ActorPhase::Left,
{
}

proof fn lemma_shutdown_at(inputs: Seq<ActorInput>, i: int)
    requires
        in_order(inputs),
        0 <= i < inputs.len(),
    ensures
        step_at(inputs, i) is CallShutdown <==> ends_task(inputs[i]),
        step_at(inputs, i) is CallShutdown && i + 1 < inputs.len() ==> i + 2 == inputs.len() && (
        step_at(inputs, i + 1) is ReplyShutdown || step_at(inputs, i + 1) is Leave),
{
    lemma_fits_at(inputs, i);
    lemma_step(phase_after(inputs.take(i)), inputs[i]);
    if step_at(inputs, i) is CallShutdown && i + 1 < inputs.len() {
        lemma_phase_at(inputs, i);
        lemma_fits_at(inputs, i + 1);
        lemma_step(phase_after(inputs.take(i + 1)), inputs[i + 1]);
        if i + 2 < inputs.len() {
            lemma_phase_at(inputs, i + 1);
            lemma_fits_at(inputs, i + 2);
            lemma_step(phase_after(inputs.take(i + 2)), inputs[i + 2]);
        }
    }
}

proof fn lemma_left_after_shutdown(inputs: Seq<ActorInput>)
    requires
        in_order(inputs),
        phase_after(inputs) == ActorPhase::Left,
    ensures
        inputs.len() >= 2,
        step_at(inputs, inputs.len() - 2) is CallShutdown,
{
    let n = inputs.len() as int;
    assert(inputs.take(n) =~= inputs);
    lemma_phase_at(inputs, n - 1);
    lemma_fits_at(inputs, n - 1);
    lemma_step(phase_after(inputs.take(n - 1)), inputs[n - 1]);
    assert(inputs.take(0).len() == 0);
    lemma_phase_at(inputs, n - 2);
    lemma_fits_at(inputs, n - 2);
    lemma_step(phase_after(inputs.take(n - 2)), inputs[n - 2]);
}

/// Whatever ends the task, the backend is shut down then, and exactly once: the
/// task ends only after that, and ending is all that it does after it. So no call
/// of the backend comes later.
pub proof fn backend_is_shut_down_once(inputs: Seq<ActorInput>)
    requires
        in_order(inputs),
    ensures
        forall|i: int|
            0 <= i < inputs.len() ==> (#[trigger] step_at(inputs, i) is CallShutdown <==> ends_task(
                inputs[i],
            )),
        forall|i: int, j: int|
            0 <= i < j < inputs.len() && #[trigger] step_at(inputs, i) is CallShutdown ==> j
                == inputs.len() - 1 && ((#[trigger] step_at(inputs, j)) is ReplyShutdown
                || step_at(inputs, j) is Leave),
        phase_after(inputs) == ActorPhase::Left ==> inputs.len() >= 2 && step_at(
            inputs,
            inputs.len() - 2,
        ) is CallShutdown,
{
    assert forall|i: int| 0 <= i < inputs.len() implies (#[trigger] step_at(
        inputs,
        i,
    ) is CallShutdown <==> ends_task(inputs[i])) by {
        lemma_shutdown_at(inputs, i);
    }
    assert forall|i: int, j: int|
        0 <= i < j < inputs.len() && #[trigger] step_at(inputs, i) is CallShutdown implies j
        == inputs.len() - 1 && ((#[trigger] step_at(inputs, j)) is ReplyShutdown || step_at(
        inputs,
        j,
    ) is Leave) by {
        lemma_shutdown_at(inputs, i);
    }
    if phase_after(inputs) == ActorPhase::Left {
        lemma_left_after_shutdown(inputs);
    }
}

/// The events that the backend emitted.
pub open spec fn emitted_events(inputs: Seq<ActorInput>) -> Seq<RawEvent>
    decreases inputs.len(),
{
    if inputs.len() == 0 {
        Seq::empty()
    } else {
        let before = emitted_events(inputs.drop_last());
        match inputs.last() {
            ActorInput::Event(event) => before.push(event),
            _ => before,
        }
    }
}

/// The events that the task handed on.
pub open spec fn handed_on(inputs: Seq<ActorInput>) -> Seq<RawEvent>
    decreases inputs.len(),
{
    if inputs.len() == 0 {
        Seq::empty()
    } else {
        let before = handed_on(inputs.drop_last());
        match step_at(inputs, inputs.len() - 1) {
            ActorStep::Forward(event) => before.push(event),
            _ => before,
        }
    }
}

/// The events that the task handed on and that were taken.
pub open spec fn taken_events(inputs: Seq<ActorInput>) -> Seq<RawEvent>
    decreases inputs.len(),
{
    if inputs.len() == 0 {
        Seq::empty()
    } else {
        let before = taken_events(inputs.drop_last());
        if inputs.last() == (ActorInput::Forwarded { taken: true }) {
            before.push(handed_on(inputs.drop_last()).last())
        } else {
            before
        }
    }
}

/// Nobody was left to take an event.
pub open spec fn not_taken(inputs: Seq<ActorInput>) -> bool {
    exists|i: int|
        0 <= i < inputs.len() && #[trigger] inputs[i] == (ActorInput::Forwarded { taken: false })
}

proof fn lemma_not_taken(inputs: Seq<ActorInput>)
    requires
        inputs.len() > 0,
    ensures
        not_taken(inputs) <==> not_taken(inputs.drop_last()) || inputs.last() == (
        ActorInput::Forwarded { taken: false }),
{
    let n = inputs.len() as int;
    let init = inputs.drop_last();
    if not_taken(inputs) {
        let i = choose|i: int|
            0 <= i < n && #[trigger] inputs[i] == (ActorInput::Forwarded { taken: false });
        if i < n - 1 {
            assert(init[i] == inputs[i]);
        }
    }
    if not_taken(init) {
        let i = choose|i: int|
            0 <= i < n - 1 && #[trigger] init[i] == (ActorInput::Forwarded { taken: false });
        assert(inputs[i] == init[i]);
    }
    assert(inputs[n - 1] == inputs.last());
}

proof fn lemma_event_step(phase: ActorPhase, input: ActorInput)
    requires
        fits(phase, input),
    ensures
        step_for(phase, input).1 is Forward <==> input is Event,
        input is Event ==> step_for(phase, input).1 == ActorStep::Forward(input->Event_0),
        input is Event <==> step_for(phase, input).0 == ActorPhase::Forwarding,
        input is Forwarded <==> phase == ActorPhase::Forwarding,
        input == (ActorInput::Forwarded { taken: false }) ==> step_for(phase, input).0 is Stopping,
        phase is Stopping ==> step_for(phase, input).0 == ActorPhase::Left,
        phase is Stopping ==> !(input is Event),
        phase != ActorPhase::Left,
{
}

/// Every event of the backend is handed on, once and in the order in which it
/// came. All of them are taken, except for one that is on its way or that nobody
/// is left to take.
pub proof fn events_are_handed_on_in_order(inputs: Seq<ActorInput>)
    requires
        in_order(inputs),
    ensures
        handed_on(inputs) == emitted_events(inputs),
        not_taken(inputs) || phase_after(inputs) == ActorPhase::Forwarding
            ==> emitted_events(inputs).len() > 0 && taken_events(inputs) == emitted_events(
            inputs,
        ).drop_last(),
        !not_taken(inputs) && phase_after(inputs) != ActorPhase::Forwarding ==> taken_events(inputs)
            == emitted_events(inputs),
        not_taken(inputs) ==> phase_after(inputs) is Stopping || phase_after(inputs)
            == ActorPhase::Left,
    decreases inputs.len(),
{
    if inputs.len() > 0 {
        let init = inputs.drop_last();
        let emitted = emitted_events(init);
        lemma_in_order_before(inputs);
        events_are_handed_on_in_order(init);
        lemma_not_taken(inputs);
        lemma_event_step(phase_after(init), inputs.last());
        if inputs.last() is Event {
            assert(emitted_events(inputs).drop_last() =~= emitted);
        } else if inputs.last() == (ActorInput::Forwarded { taken: true }) {
            assert(emitted.drop_last().push(emitted.last()) =~= emitted);
        }
    } else {
        assert(!not_taken(inputs));
    }
}

/// Each command leads to one call of the backend, with the key and the value of
/// the command, and nothing else does. What the call came to is the reply.
pub proof fn commands_get_their_results(inputs: Seq<ActorInput>, i: int)
    requires
        in_order(inputs),
        0 <= i < inputs.len(),
    ensures
        step_at(inputs, i) is CallGet <==> inputs[i] is Get,
        step_at(inputs, i) is CallSet <==> inputs[i] is Put,
        step_at(inputs, i) is CallManifest <==> inputs[i] is Manifest,
        match inputs[i] {
            ActorInput::Get { key } => step_at(inputs, i) == (ActorStep::CallGet { key }) && (i + 1
                < inputs.len() ==> inputs[i + 1] is Read && step_at(inputs, i + 1)
                == ActorStep::ReplyGet(inputs[i + 1]->Read_0)),
            ActorInput::Put { key, value } => step_at(inputs, i) == (ActorStep::CallSet {
                key,
                value,
            }) && (i + 1 < inputs.len() ==> inputs[i + 1] is Written && step_at(inputs, i + 1)
                == ActorStep::ReplySet(inputs[i + 1]->Written_0)),
            ActorInput::Manifest => i + 1 < inputs.len() ==> inputs[i + 1] is Listed && step_at(
                inputs,
                i + 1,
            ) == ActorStep::ReplyManifest(inputs[i + 1]->Listed_0),
            ActorInput::Shutdown => i + 1 < inputs.len() ==> inputs[i + 1] is Stopped && step_at(
                inputs,
                i + 1,
            ) == ActorStep::ReplyShutdown(inputs[i + 1]->Stopped_0),
            _ => true,
        },
{
    lemma_fits_at(inputs, i);
    lemma_phase_at(inputs, i);
    if i + 1 < inputs.len() {
        lemma_fits_at(inputs, i + 1);
    }
}

/// What came of sending a command to the task.
#[derive(Debug)]
pub enum ChannelReply<T> {
    /// The task is gone.
    Closed,
    /// The task went away without a reply.
    Dropped,
    /// The task replied.
    Answered(T),
}

/// What reading a key came to.
pub fn get_reply(reply: ChannelReply<Result<JsonValue, String>>) -> (r: Result<JsonValue, String>)
    ensures
        value_result(r) == (match reply {
            ChannelReply::Closed => Err("Adapter task closed"@),
            ChannelReply::Dropped => Err("Adapter task dropped reply"@),
            ChannelReply::Answered(a) => value_result(a),
        }),
{
    match reply {
        ChannelReply::Closed => Err("Adapter task closed".to_owned()),
        ChannelReply::Dropped => Err("Adapter task dropped reply".to_owned()),
        ChannelReply::Answered(a) => a,
    }
}

/// What setting a key came to.
pub fn set_reply(reply: ChannelReply<Result<(), String>>) -> (r: Result<(), String>)
    ensures
        unit_result(r) == (match reply {
            ChannelReply::Closed => Err("Adapter task closed"@),
            ChannelReply::Dropped => Err("Adapter task dropped reply"@),
            ChannelReply::Answered(a) => unit_result(a),
        }),
{
    match reply {
        ChannelReply::Closed => Err("Adapter task closed".to_owned()),
        ChannelReply::Dropped => Err("Adapter task dropped reply".to_owned()),
        ChannelReply::Answered(a) => a,
    }
}

/// What asking for the manifest came to.
pub fn manifest_reply(reply: ChannelReply<CapabilityManifest>) -> (r: Result<
    CapabilityManifest,
    String,
>)
    ensures
        manifest_result(r) == (match reply {
            ChannelReply::Closed => Err("Adapter task closed"@),
            ChannelReply::Dropped => Err("Adapter task dropped reply"@),
            ChannelReply::Answered(m) => Ok(m@),
        }),
{
    match reply {
        ChannelReply::Closed => Err("Adapter task closed".to_owned()),
        ChannelReply::Dropped => Err("Adapter task dropped reply".to_owned()),
        ChannelReply::Answered(m) => Ok(m),
    }
}

/// What asking for the shutdown came to. A task that is gone is shut down.
pub fn shutdown_reply(reply: ChannelReply<Result<(), String>>) -> (r: Result<(), String>)
    ensures
        unit_result(r) == (match reply {
            ChannelReply::Closed => Ok(()),
            ChannelReply::Dropped => Ok(()),
            ChannelReply::Answered(a) => unit_result(a),
        }),
{
    match reply {
        ChannelReply::Closed => Ok(()),
        ChannelReply::Dropped => Ok(()),
        ChannelReply::Answered(a) => a,
    }
}

/// What each input leads to, if it comes when it is due: an event is handed on, a command
/// is carried out, its result is the reply, and whatever ends the task shuts the backend
/// down first. Only one who asked for it is told how that went.
pub proof fn inputs_lead_to_steps(
    event: RawEvent,
    key: String,
    value: JsonValue,
    read: Result<JsonValue, String>,
    done: Result<(), String>,
    listed: CapabilityManifest,
)
    ensures
        step_for(ActorPhase::Waiting, ActorInput::Event(event)) == (
            ActorPhase::Forwarding,
            ActorStep::Forward(event),
        ),
        step_for(ActorPhase::Forwarding, ActorInput::Forwarded { taken: true }) == (
            ActorPhase::Waiting,
            ActorStep::Wait,
        ),
        step_for(ActorPhase::Forwarding, ActorInput::Forwarded { taken: false }) == (
            ActorPhase::Stopping { asked: false },
            ActorStep::CallShutdown,
        ),
        step_for(ActorPhase::Waiting, ActorInput::Get { key }) == (
            ActorPhase::Reading,
            ActorStep::CallGet { key },
        ),
        step_for(ActorPhase::Reading, ActorInput::Read(read)) == (
            ActorPhase::Waiting,
            ActorStep::ReplyGet(read),
        ),
        step_for(ActorPhase::Waiting, ActorInput::Put { key, value }) == (
            ActorPhase::Writing,
            ActorStep::CallSet { key, value },
        ),
        step_for(ActorPhase::Writing, ActorInput::Written(done)) == (
            ActorPhase::Waiting,
            ActorStep::ReplySet(done),
        ),
        step_for(ActorPhase::Waiting, ActorInput::Manifest) == (
            ActorPhase::Listing,
            ActorStep::CallManifest,
        ),
        step_for(ActorPhase::Listing, ActorInput::Listed(listed)) == (
            ActorPhase::Waiting,
            ActorStep::ReplyManifest(listed),
        ),
        step_for(ActorPhase::Waiting, ActorInput::Shutdown) == (
            ActorPhase::Stopping { asked: true },
            ActorStep::CallShutdown,
        ),
        step_for(ActorPhase::Waiting, ActorInput::CommandsClosed) == (
            ActorPhase::Stopping { asked: false },
            ActorStep::CallShutdown,
        ),
        step_for(ActorPhase::Waiting, ActorInput::EventsEnded) == (
            ActorPhase::Stopping { asked: false },
            ActorStep::CallShutdown,
        ),
        step_for(ActorPhase::Waiting, ActorInput::EventsFailed) == (
            ActorPhase::Stopping { asked: false },
            ActorStep::CallShutdown,
        ),
        step_for(ActorPhase::Stopping { asked: true }, ActorInput::Stopped(done)) == (
            ActorPhase::Left,
            ActorStep::ReplyShutdown(done),
        ),
        step_for(ActorPhase::Stopping { asked: false }, ActorInput::Stopped(done)) == (
            ActorPhase::Left,
            ActorStep::Leave(done),
        ),
{
}

/// An input that is not due changes nothing. After the task has ended none is due.
pub proof fn only_what_is_due_counts(phase: ActorPhase, input: ActorInput)
    ensures
        !fits(phase, input) ==> step_for(phase, input) == (phase, ActorStep::Wait),
        !fits(ActorPhase::Left, input),
        input is Forwarded ==> (fits(phase, input) <==> phase == ActorPhase::Forwarding),
        input is Read ==> (fits(phase, input) <==> phase == ActorPhase::Reading),
        input is Written ==> (fits(phase, input) <==> phase == ActorPhase::Writing),
        input is Listed ==> (fits(phase, input) <==> phase == ActorPhase::Listing),
        input is Stopped ==> (fits(phase, input) <==> phase is Stopping),
        input is Event || input is Get || input is Put || input is Manifest || input is Shutdown
            || input is CommandsClosed || input is EventsEnded || input is EventsFailed ==> (fits(
            phase,
            input,
        ) <==> phase == ActorPhase::Waiting),
{
}

/// A command that was answered has that answer. One that could not be sent or was dropped
/// fails, except that a task which is gone already counts as shut down.
pub proof fn replies_come_through(
    value: Result<JsonValue, String>,
    done: Result<(), String>,
    manifest: CapabilityManifest,
    got: Result<JsonValue, String>,
    unsent: Result<JsonValue, String>,
    dropped: Result<JsonValue, String>,
    put: Result<(), String>,
    unput: Result<(), String>,
    lost: Result<(), String>,
    listed: Result<CapabilityManifest, String>,
    unlisted: Result<CapabilityManifest, String>,
    forgotten: Result<CapabilityManifest, String>,
    stopped: Result<(), String>,
    gone: Result<(), String>,
    left: Result<(), String>,
)
    requires
        call_ensures(get_reply, (ChannelReply::Answered(value),), got),
        call_ensures(get_reply, (ChannelReply::<Result<JsonValue, String>>::Closed,), unsent),
        call_ensures(get_reply, (ChannelReply::<Result<JsonValue, String>>::Dropped,), dropped),
        call_ensures(set_reply, (ChannelReply::Answered(done),), put),
        call_ensures(set_reply, (ChannelReply::<Result<(), String>>::Closed,), unput),
        call_ensures(set_reply, (ChannelReply::<Result<(), String>>::Dropped,), lost),
        call_ensures(manifest_reply, (ChannelReply::Answered(manifest),), listed),
        call_ensures(manifest_reply, (ChannelReply::<CapabilityManifest>::Closed,), unlisted),
        call_ensures(manifest_reply, (ChannelReply::<CapabilityManifest>::Dropped,), forgotten),
        call_ensures(shutdown_reply, (ChannelReply::Answered(done),), stopped),
        call_ensures(shutdown_reply, (ChannelReply::<Result<(), String>>::Closed,), gone),
        call_ensures(shutdown_reply, (ChannelReply::<Result<(), String>>::Dropped,), left),
    ensures
        value matches Ok(v) ==> (got matches Ok(w) && w@ == v@),
        value matches Err(e) ==> (got matches Err(f) && f@ == e@),
        unsent matches Err(e) && e@ == "Adapter task closed"@,
        dropped matches Err(e) && e@ == "Adapter task dropped reply"@,
        done is Ok ==> put is Ok && stopped is Ok,
        done matches Err(e) ==> (put matches Err(f) && f@ == e@),
        done matches Err(e) ==> (stopped matches Err(f) && f@ == e@),
        unput matches Err(e) && e@ == "Adapter task closed"@,
        lost matches Err(e) && e@ == "Adapter task dropped reply"@,
        listed matches Ok(m) && m@ == manifest@,
        unlisted matches Err(e) && e@ == "Adapter task closed"@,
        forgotten matches Err(e) && e@ == "Adapter task dropped reply"@,
        gone is Ok && left is Ok,
{
}

} // verus!
