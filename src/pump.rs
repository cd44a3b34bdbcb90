//! The output pump: turns what a session's terminal produces into events
//! named after the session, one drain at a time.
use vstd::prelude::*;

verus! {

/// Every event of a session is named `tty-data-` followed by its identity.
pub open spec fn event_prefix() -> Seq<char> {
    seq!['t', 't', 'y', '-', 'd', 'a', 't', 'a', '-']
}

/// The event name of session `session_id`.
pub open spec fn event_name_of(session_id: Seq<char>) -> Seq<char> {
    event_prefix() + session_id
}

/// What one drain of a terminal's read side gave.
pub enum ReadOutcome {
    /// The bytes buffered at that moment, possibly none.
    Bytes(Vec<u8>),
    /// The terminal's output is closed: the process is gone.
    Closed,
    /// The read failed.
    Failed,
}

/// What the pump asks of its caller after a drain.
pub enum PumpAction {
    /// Nothing to send; drain again after the poll interval.
    Idle,
    /// Send one event, under the pump's event name, carrying these bytes.
    Emit(Vec<u8>),
    /// The output is over: stop draining.
    Finish,
}

/// A pump as mathematics: its event name, whether it still drains, and the
/// payloads of the events it asked for, in order.
pub struct PumpView {
    pub event: Seq<char>,
    pub running: bool,
    pub emitted: Seq<Seq<u8>>,
}

impl PumpView {
    /// The bytes carried by all events so far, as one stream.
    pub open spec fn stream(self) -> Seq<u8> {
        self.emitted.flatten()
    }
}

/// Whether a drain ends the pump.
pub open spec fn ends(outcome: ReadOutcome) -> bool {
    !(outcome is Bytes)
}

/// A pump that has emitted nothing yet.
pub open spec fn fresh(event: Seq<char>) -> PumpView {
    PumpView { event, running: true, emitted: Seq::empty() }
}

/// The pump after one drain: a non-empty drain adds one event with exactly
/// those bytes, an empty one changes nothing, the end of the output stops it,
/// and a stopped pump stays as it is.
pub open spec fn pumped(v: PumpView, outcome: ReadOutcome) -> PumpView {
    if !v.running {
        v
    } else {
        match outcome {
            ReadOutcome::Bytes(b) => if b@.len() == 0 {
                v
            } else {
                PumpView { emitted: v.emitted.push(b@), ..v }
            },
            _ => PumpView { running: false, ..v },
        }
    }
}

/// The action that goes with one drain, as `pumped` describes it.
pub open spec fn action_for(v: PumpView, outcome: ReadOutcome, action: PumpAction) -> bool {
    match action {
        PumpAction::Emit(b) => v.running && (outcome matches ReadOutcome::Bytes(d) && b@ == d@
            && b@.len() > 0),
        PumpAction::Idle => v.running && (outcome matches ReadOutcome::Bytes(d) && d@.len() == 0),
        PumpAction::Finish => !v.running || ends(outcome),
    }
}

/// The pump after a run of drains.
pub open spec fn pumped_all(v: PumpView, outcomes: Seq<ReadOutcome>) -> PumpView
    decreases outcomes.len(),
{
    if outcomes.len() == 0 {
        v
    } else {
        pumped(pumped_all(v, outcomes.drop_last()), outcomes.last())
    }
}

/// Whether the output ended somewhere in a run of drains.
pub open spec fn ended(outcomes: Seq<ReadOutcome>) -> bool {
    exists|i: int| 0 <= i < outcomes.len() && ends(#[trigger] outcomes[i])
}

/// The bytes that a run of drains gave before the output ended, in order.
pub open spec fn output_before_end(outcomes: Seq<ReadOutcome>) -> Seq<u8>
    decreases outcomes.len(),
{
    if outcomes.len() == 0 {
        Seq::empty()
    } else {
        let before = output_before_end(outcomes.drop_last());
        if ended(outcomes.drop_last()) {
            before
        } else {
            match outcomes.last() {
                ReadOutcome::Bytes(b) => before + b@,
                _ => before,
            }
        }
    }
}

/// A pump started afresh carries, across its events and in order, exactly
/// the bytes that the terminal gave before its output ended; it sends no
/// empty event, keeps its name, and stops once the output has ended.
pub proof fn events_carry_the_output(event: Seq<char>, outcomes: Seq<ReadOutcome>)
    ensures
        pumped_all(fresh(event), outcomes).stream() == output_before_end(outcomes),
        pumped_all(fresh(event), outcomes).running == !ended(outcomes),
        pumped_all(fresh(event), outcomes).event == event,
        forall|i: int|
            0 <= i < pumped_all(fresh(event), outcomes).emitted.len()
                ==> #[trigger] pumped_all(fresh(event), outcomes).emitted[i].len() > 0,
    decreases outcomes.len(),
{
    if outcomes.len() > 0 {
        let rest = outcomes.drop_last();
        let last = outcomes.last();
        events_carry_the_output(event, rest);
        let v = pumped_all(fresh(event), rest);
        if ended(rest) {
            let i = choose|i: int| 0 <= i < rest.len() && ends(#[trigger] rest[i]);
            assert(outcomes[i] == rest[i]);
        } else {
            assert forall|i: int| 0 <= i < rest.len() implies !ends(#[trigger] outcomes[i]) by {
                assert(outcomes[i] == rest[i]);
            }
            if ends(last) {
                assert(ends(outcomes[outcomes.len() - 1]));
            }
            match last {
                ReadOutcome::Bytes(b) => {
                    if b@.len() == 0 {
                        assert(output_before_end(rest) + b@ =~= output_before_end(rest));
                    } else {
                        v.emitted.lemma_flatten_push(b@);
                    }
                },
                _ => {},
            }
        }
    }
}

/// The event name of session `session_id`: `tty-data-` and the identity.
pub fn event_name(session_id: &str) -> (r: String)
    ensures
        r@ == event_name_of(session_id@),
{
    let prefix = String::from_str("tty-data-");
    proof {
        reveal_strlit("tty-data-");
    }
    assert(prefix@ == event_prefix());
    prefix.concat(session_id)
}

/// The output pump of one session.
pub struct OutputPump {
    event: String,
    running: bool,
    emitted: Ghost<Seq<Seq<u8>>>,
}

impl View for OutputPump {
    type V = PumpView;

    closed spec fn view(&self) -> PumpView {
        PumpView { event: self.event@, running: self.running, emitted: self.emitted@ }
    }
}

impl OutputPump {
    /// A pump for session `session_id` that has emitted nothing yet.
    pub fn new(session_id: &str) -> (r: Self)
        ensures
            r@ == fresh(event_name_of(session_id@)),
    {
        OutputPump { event: event_name(session_id), running: true, emitted: Ghost(Seq::empty()) }
    }

    /// The name under which this pump's events are sent.
    pub fn event(&self) -> (r: &str)
        ensures
            r@ == self@.event,
    {
        self.event.as_str()
    }

    /// Whether the pump still drains.
    pub fn is_running(&self) -> (r: bool)
        ensures
            r == self@.running,
    {
        self.running
    }

    /// Takes one drain of the terminal and says what to do with it.
    pub fn step(&mut self, outcome: ReadOutcome) -> (r: PumpAction)
        ensures
            final(self)@ == pumped(old(self)@, outcome),
            action_for(old(self)@, outcome, r),
    {
        if !self.running {
            return PumpAction::Finish;
        }
        match outcome {
            ReadOutcome::Bytes(bytes) => {
                if bytes.len() == 0 {
                    PumpAction::Idle
                } else {
                    self.emitted = Ghost(self.emitted@.push(bytes@));
                    PumpAction::Emit(bytes)
                }
            },
            ReadOutcome::Closed | ReadOutcome::Failed => {
                self.running = false;
                PumpAction::Finish
            },
        }
    }
}

} // verus!
