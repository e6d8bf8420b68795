//! The flow gate: the client may ask the server to stop draining the shell's
//! output for a while; a bounded wait always ends in a resume.
use vstd::prelude::*;

verus! {

/// How long the reader waits on a paused gate before it resumes by itself.
pub const PAUSE_TIMEOUT_MS: u64 = 2000;

/// What happens to a gate: the client pauses or resumes, or the reader's
/// bounded wait on a paused gate ends.
pub enum GateEvent {
    Pause,
    Resume,
    WaitEnded,
}

/// The paused flag once an event has happened.
pub open spec fn gate_step(paused: bool, e: GateEvent) -> bool {
    match e {
        GateEvent::Pause => true,
        GateEvent::Resume => false,
        GateEvent::WaitEnded => false,
    }
}

/// The paused flag once a run of events has happened.
pub open spec fn gate_run(paused: bool, events: Seq<GateEvent>) -> bool
    decreases events.len(),
{
    if events.len() == 0 {
        paused
    } else {
        gate_run(gate_step(paused, events[0]), events.drop_first())
    }
}

/// The reader may read from the PTY.
pub open spec fn reads_allowed(paused: bool) -> bool {
    !paused
}

/// The latch between the PTY reader and the socket receiver.
pub struct FlowGate {
    paused: bool,
}

impl View for FlowGate {
    type V = bool;

    closed spec fn view(&self) -> bool {
        self.paused
    }
}

impl FlowGate {
    /// A gate that lets the reader run.
    pub fn new() -> (r: Self)
        ensures
            r@ == false,
    {
        FlowGate { paused: false }
    }

    pub fn is_paused(&self) -> (r: bool)
        ensures
            r == self@,
    {
        self.paused
    }

    /// The client asks for a pause.
    pub fn pause(&mut self)
        ensures
            final(self)@ == gate_step(old(self)@, GateEvent::Pause),
    {
        self.paused = true;
    }

    /// The client asks to go on; teardown does the same to free the reader.
    pub fn resume(&mut self)
        ensures
            final(self)@ == gate_step(old(self)@, GateEvent::Resume),
    {
        self.paused = false;
    }

    /// The reader's bounded wait has ended. A gate still paused then was not
    /// resumed in time, and is resumed here. Returns whether that happened.
    pub fn end_wait(&mut self) -> (auto_resumed: bool)
        ensures
            final(self)@ == gate_step(old(self)@, GateEvent::WaitEnded),
            auto_resumed == old(self)@,
    {
        let auto_resumed = self.paused;
        self.paused = false;
        auto_resumed
    }
}

/// Pausing twice is pausing once.
pub proof fn lemma_pause_idempotent(paused: bool)
    ensures
        gate_step(gate_step(paused, GateEvent::Pause), GateEvent::Pause) == gate_step(
            paused,
            GateEvent::Pause,
        ),
{
}

/// Resuming twice is resuming once.
pub proof fn lemma_resume_idempotent(paused: bool)
    ensures
        gate_step(gate_step(paused, GateEvent::Resume), GateEvent::Resume) == gate_step(
            paused,
            GateEvent::Resume,
        ),
{
}

/// A pause followed by a resume is a resume.
pub proof fn lemma_resume_after_pause(paused: bool)
    ensures
        gate_step(gate_step(paused, GateEvent::Pause), GateEvent::Resume) == gate_step(
            paused,
            GateEvent::Resume,
        ),
{
}

/// After a pause the reader is held until a resume arrives or its bounded
/// wait ends; either one lets it read again.
pub proof fn lemma_pause_holds_reader(paused: bool, events: Seq<GateEvent>, last: GateEvent)
    requires
        events.len() > 0,
        events[0] == GateEvent::Pause,
        forall|i: int| 0 < i < events.len() ==> #[trigger] events[i] == GateEvent::Pause,
        last != GateEvent::Pause,
    ensures
        !reads_allowed(gate_run(paused, events)),
        reads_allowed(gate_run(paused, events.push(last))),
    decreases events.len(),
{
    lemma_run_pauses(paused, events);
    lemma_run_push(paused, events, last);
}

proof fn lemma_run_pauses(paused: bool, events: Seq<GateEvent>)
    requires
        forall|i: int| 0 <= i < events.len() ==> #[trigger] events[i] == GateEvent::Pause,
        events.len() > 0 || paused,
    ensures
        gate_run(paused, events),
    decreases events.len(),
{
    if events.len() > 0 {
        let rest = events.drop_first();
        assert forall|i: int| 0 <= i < rest.len() implies #[trigger] rest[i] == GateEvent::Pause by {
            assert(rest[i] == events[i + 1]);
        }
        lemma_run_pauses(gate_step(paused, events[0]), rest);
    }
}

proof fn lemma_run_push(paused: bool, events: Seq<GateEvent>, last: GateEvent)
    ensures
        gate_run(paused, events.push(last)) == gate_step(gate_run(paused, events), last),
    decreases events.len(),
{
    if events.len() == 0 {
        assert(events.push(last).drop_first() =~= Seq::<GateEvent>::empty());
        assert(events.push(last)[0] == last);
        let p1 = gate_step(paused, last);
        assert(gate_run(p1, Seq::<GateEvent>::empty()) == p1);
    } else {
        assert(events.push(last).drop_first() =~= events.drop_first().push(last));
        assert(events.push(last)[0] == events[0]);
        lemma_run_push(gate_step(paused, events[0]), events.drop_first(), last);
    }
}

} // verus!
