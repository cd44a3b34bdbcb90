//! The session registry: which identities were handed out, which sessions
//! are live, and the input that each live session has been given.
use vstd::prelude::*;
use vstd::seq_lib::lemma_flatten_concat;

use crate::identity::{is_identity_text, random_identity};

verus! {

/// How many random identities `create` draws before it gives up.
pub const IDENTITY_ATTEMPTS: usize = 8;

/// The input side of one session's terminal.
pub trait InputSink {
    /// Writes `bytes` to the terminal's input side; `false` when the write failed.
    fn send(&mut self, bytes: &[u8]) -> bool;
}

/// Why a session could not be set up.
#[derive(Debug, Clone, Copy, PartialEq, Eq, Structural)]
pub enum SessionError {
    /// The pseudo-terminal could not be allocated.
    TerminalAllocation,
    /// The command could not be started on the terminal.
    Spawn,
    /// Every identity drawn was already in use.
    IdentityExhausted,
    /// The identity offered for a new session was handed out before.
    DuplicateIdentity,
}

/// What the registry holds, as mathematics: every identity ever handed out,
/// and for each live session the payloads written into it, in order.
pub struct RegistryView {
    pub issued: Set<Seq<char>>,
    pub inputs: Map<Seq<char>, Seq<Seq<u8>>>,
}

impl RegistryView {
    /// Every live session has an identity that was handed out.
    pub open spec fn valid(self) -> bool {
        self.inputs.dom().subset_of(self.issued)
    }

    /// The bytes written into session `id`, as one stream.
    pub open spec fn stream(self, id: Seq<char>) -> Seq<u8> {
        self.inputs[id].flatten()
    }
}

/// `after` is `before` with a new session `id` whose identity was never used.
pub open spec fn created(before: RegistryView, after: RegistryView, id: Seq<char>) -> bool {
    &&& !before.issued.contains(id)
    &&& after.issued == before.issued.insert(id)
    &&& after.inputs == before.inputs.insert(id, Seq::<Seq<u8>>::empty())
}

/// The registry after `data` is written into session `id`: appended to its
/// input when the session is live, nothing otherwise.
pub open spec fn written(before: RegistryView, id: Seq<char>, data: Seq<u8>) -> RegistryView {
    if before.inputs.contains_key(id) {
        RegistryView {
            issued: before.issued,
            inputs: before.inputs.insert(id, before.inputs[id].push(data)),
        }
    } else {
        before
    }
}

/// The registry after `payloads` are written into session `id`, one after another.
pub open spec fn written_all(before: RegistryView, id: Seq<char>, payloads: Seq<Seq<u8>>) -> RegistryView
    decreases payloads.len(),
{
    if payloads.len() == 0 {
        before
    } else {
        written(written_all(before, id, payloads.drop_last()), id, payloads.last())
    }
}

/// The registry after session `id` is taken out; its identity stays used.
pub open spec fn removed(before: RegistryView, id: Seq<char>) -> RegistryView {
    RegistryView { issued: before.issued, inputs: before.inputs.remove(id) }
}

/// No identity handed out in `before` is forgotten in `after`.
pub open spec fn evolves(before: RegistryView, after: RegistryView) -> bool {
    before.issued.subset_of(after.issued)
}

/// The line that asks a session's shell to end: `exit` and a newline.
pub open spec fn stop_line() -> Seq<u8> {
    seq![101u8, 120u8, 105u8, 116u8, 10u8]
}

/// Each registry operation keeps every identity handed out before it.
pub proof fn operations_keep_identities(
    v: RegistryView,
    after: RegistryView,
    id: Seq<char>,
    data: Seq<u8>,
)
    ensures
        evolves(v, v),
        evolves(v, written(v, id, data)),
        evolves(v, removed(v, id)),
        created(v, after, id) ==> evolves(v, after),
{
}

/// Keeping identities carries over a chain of operations.
pub proof fn evolves_transitive(a: RegistryView, b: RegistryView, c: RegistryView)
    requires
        evolves(a, b),
        evolves(b, c),
    ensures
        evolves(a, c),
{
}

/// An identity is never handed out twice: a session created after any run of
/// registry operations gets an identity unlike that of any earlier session.
pub proof fn identities_never_reused(
    v0: RegistryView,
    v1: RegistryView,
    v2: RegistryView,
    v3: RegistryView,
    first: Seq<char>,
    second: Seq<char>,
)
    requires
        created(v0, v1, first),
        evolves(v1, v2),
        created(v2, v3, second),
    ensures
        first != second,
{
    assert(v1.issued.contains(first));
    assert(v2.issued.contains(first));
}

/// Two writes into one live session, one after the other, reach its input in
/// that order and each in one piece.
pub proof fn writes_keep_order(v: RegistryView, id: Seq<char>, first: Seq<u8>, second: Seq<u8>)
    requires
        v.inputs.contains_key(id),
    ensures
        written(written(v, id, first), id, second).inputs[id] == v.inputs[id].push(first).push(
            second,
        ),
        written(written(v, id, first), id, second).stream(id) == v.stream(id) + first + second,
{
    v.inputs[id].lemma_flatten_push(first);
    v.inputs[id].push(first).lemma_flatten_push(second);
}

/// Writing or stopping under an identity that was never handed out leaves
/// the registry exactly as it was.
pub proof fn unknown_identity_untouched(v: RegistryView, id: Seq<char>, data: Seq<u8>)
    requires
        v.valid(),
        !v.issued.contains(id),
    ensures
        written(v, id, data) == v,
        written(v, id, stop_line()) == v,
{
}

/// Stopping a session twice is answered alike both times, and neither call
/// changes which identities are used or which sessions are live.
pub proof fn stop_twice(v: RegistryView, id: Seq<char>)
    ensures
        written(v, id, stop_line()).inputs.contains_key(id) == v.inputs.contains_key(id),
        written(written(v, id, stop_line()), id, stop_line()).issued == v.issued,
        written(written(v, id, stop_line()), id, stop_line()).inputs.dom() == v.inputs.dom(),
{
    let once = written(v, id, stop_line());
    if v.inputs.contains_key(id) {
        assert(once.inputs.dom() =~= v.inputs.dom());
        assert(written(once, id, stop_line()).inputs.dom() =~= v.inputs.dom());
    }
}

/// Payloads that several writers hand to one live session, in whichever
/// order they took the registry, each reach its input whole: the input grows
/// by exactly those payloads, and its stream by their concatenation.
pub proof fn writes_stay_whole(v: RegistryView, id: Seq<char>, payloads: Seq<Seq<u8>>)
    requires
        v.inputs.contains_key(id),
    ensures
        written_all(v, id, payloads).issued == v.issued,
        written_all(v, id, payloads).inputs.dom() == v.inputs.dom(),
        written_all(v, id, payloads).inputs[id] == v.inputs[id] + payloads,
        written_all(v, id, payloads).stream(id) == v.stream(id) + payloads.flatten(),
    decreases payloads.len(),
{
    if payloads.len() == 0 {
        assert(v.inputs[id] + payloads =~= v.inputs[id]);
    } else {
        let rest = payloads.drop_last();
        writes_stay_whole(v, id, rest);
        let mid = written_all(v, id, rest);
        assert(mid.inputs.dom().insert(id) =~= mid.inputs.dom());
        assert((v.inputs[id] + rest).push(payloads.last()) =~= v.inputs[id] + payloads);
        lemma_flatten_concat(v.inputs[id], payloads);
    }
}

struct SessionRecord<S> {
    id: String,
    sink: S,
    input: Ghost<Seq<Seq<u8>>>,
}

/// The table of sessions. Identities are never reused: one that was handed
/// out stays recorded after its session is removed.
pub struct SessionRegistry<S> {
    issued: Vec<String>,
    live: Vec<SessionRecord<S>>,
    model: Ghost<RegistryView>,
    held: Ghost<Map<Seq<char>, S>>,
}

impl<S> View for SessionRegistry<S> {
    type V = RegistryView;

    closed spec fn view(&self) -> RegistryView {
        self.model@
    }
}

impl<S: InputSink> SessionRegistry<S> {
    /// The stored tables agree with the model.
    pub closed spec fn wf(&self) -> bool {
        let m = self.model@;
        &&& forall|i: int|
            0 <= i < self.issued@.len() ==> #[trigger] m.issued.contains(self.issued@[i]@)
        &&& forall|id: Seq<char>|
            m.issued.contains(id) ==> exists|i: int|
                0 <= i < self.issued@.len() && #[trigger] self.issued@[i]@ == id
        &&& forall|i: int|
            0 <= i < self.live@.len() ==> #[trigger] m.inputs.contains_key(self.live@[i].id@)
                && m.inputs[self.live@[i].id@] == self.live@[i].input@
        &&& forall|id: Seq<char>|
            m.inputs.contains_key(id) ==> exists|i: int|
                0 <= i < self.live@.len() && #[trigger] self.live@[i].id@ == id
        &&& forall|i: int, j: int|
            0 <= i < self.live@.len() && 0 <= j < self.live@.len() && i != j
                ==> self.live@[i].id@ != self.live@[j].id@
        &&& forall|i: int|
            0 <= i < self.live@.len() ==> #[trigger] self.held@.contains_key(self.live@[i].id@)
                && self.held@[self.live@[i].id@] == self.live@[i].sink
        &&& self.held@.dom() == m.inputs.dom()
        &&& m.valid()
    }

    /// The input side held for each live session.
    pub closed spec fn sinks(&self) -> Map<Seq<char>, S> {
        self.held@
    }

    /// What every operation keeps: live sessions have used identities, and
    /// each holds an input side.
    pub open spec fn consistent(&self) -> bool {
        &&& self@.valid()
        &&& self.sinks().dom() == self@.inputs.dom()
    }

    /// An empty registry.
    pub fn new() -> (r: Self)
        ensures
            r.wf(),
            r.consistent(),
            r@.issued == Set::<Seq<char>>::empty(),
            r@.inputs == Map::<Seq<char>, Seq<Seq<u8>>>::empty(),
    {
        SessionRegistry {
            issued: Vec::new(),
            live: Vec::new(),
            model: Ghost(RegistryView { issued: Set::empty(), inputs: Map::empty() }),
            held: Ghost(Map::empty()),
        }
    }

    fn contains_issued(&self, id: &String) -> (r: bool)
        requires
            self.wf(),
        ensures
            r == self@.issued.contains(id@),
    {
        let mut i: usize = 0;
        while i < self.issued.len()
            invariant
                self.wf(),
                0 <= i <= self.issued@.len(),
                forall|j: int| 0 <= j < i ==> self.issued@[j]@ != id@,
            decreases self.issued@.len() - i,
        {
            if self.issued[i] == *id {
                return true;
            }
            i += 1;
        }
        false
    }

    fn find_live(&self, id: &String) -> (r: Option<usize>)
        requires
            self.wf(),
        ensures
            r is Some <==> self@.inputs.contains_key(id@),
            r matches Some(i) ==> i < self.live@.len() && self.live@[i as int].id@ == id@,
    {
        let mut i: usize = 0;
        while i < self.live.len()
            invariant
                self.wf(),
                0 <= i <= self.live@.len(),
                forall|j: int| 0 <= j < i ==> self.live@[j].id@ != id@,
            decreases self.live@.len() - i,
        {
            if self.live[i].id == *id {
                return Some(i);
            }
            i += 1;
        }
        None
    }

    /// Whether `id` was ever handed out by this registry.
    pub fn is_issued(&self, id: &str) -> (r: bool)
        requires
            self.wf(),
        ensures
            r == self@.issued.contains(id@),
    {
        let key = String::from_str(id);
        self.contains_issued(&key)
    }

    /// Whether `id` names a live session.
    pub fn is_live(&self, id: &str) -> (r: bool)
        requires
            self.wf(),
        ensures
            r == self@.inputs.contains_key(id@),
    {
        let key = String::from_str(id);
        self.find_live(&key).is_some()
    }

    /// Draws random identities until one is found that this registry never
    /// handed out, at most `IDENTITY_ATTEMPTS` times.
    pub fn fresh_identity(&self) -> (r: Option<String>)
        requires
            self.wf(),
        ensures
            r matches Some(id) ==> !self@.issued.contains(id@) && is_identity_text(id@),
            self@.issued == Set::<Seq<char>>::empty() ==> r is Some,
    {
        let mut attempt: usize = 0;
        while attempt < IDENTITY_ATTEMPTS
            invariant
                self.wf(),
                attempt > 0 ==> self@.issued != Set::<Seq<char>>::empty(),
            decreases IDENTITY_ATTEMPTS - attempt,
        {
            let candidate = random_identity();
            if !self.contains_issued(&candidate) {
                return Some(candidate);
            }
            assert(self@.issued.contains(candidate@));
            assert(!Set::<Seq<char>>::empty().contains(candidate@));
            attempt += 1;
        }
        None
    }

    /// Records a new live session under `id` with an empty input, unless
    /// `id` was handed out before.
    pub fn register(&mut self, id: String, sink: S) -> (r: Result<(), SessionError>)
        requires
            old(self).wf(),
        ensures
            final(self).wf(),
            final(self).consistent(),
            r is Ok <==> !old(self)@.issued.contains(id@),
            r is Ok ==> created(old(self)@, final(self)@, id@) && final(self).sinks()
                == old(self).sinks().insert(id@, sink),
            r is Err ==> r == Err::<(), SessionError>(SessionError::DuplicateIdentity)
                && final(self)@ == old(self)@ && final(self).sinks() == old(self).sinks(),
    {
        if self.contains_issued(&id) {
            return Err(SessionError::DuplicateIdentity);
        }
        let ghost key = id@;
        let ghost before = self.model@;
        let ghost given = sink;
        let record = SessionRecord { id: id.clone(), sink, input: Ghost(Seq::empty()) };
        self.issued.push(id);
        self.live.push(record);
        self.model = Ghost(
            RegistryView {
                issued: before.issued.insert(key),
                inputs: before.inputs.insert(key, Seq::empty()),
            },
        );
        self.held = Ghost(self.held@.insert(key, given));
        proof {
            let m = self.model@;
            assert(self.held@.dom() =~= m.inputs.dom());
            let n = (self.issued@.len() - 1) as int;
            assert(self.issued@[n]@ == key);
            assert forall|id2: Seq<char>| m.issued.contains(id2) implies exists|i: int|
                0 <= i < self.issued@.len() && #[trigger] self.issued@[i]@ == id2 by {
                if id2 != key {
                    let i = choose|i: int| 0 <= i < old(self).issued@.len() && #[trigger] old(self).issued@[i]@ == id2;
                    assert(self.issued@[i]@ == id2);
                }
            }
            let k = (self.live@.len() - 1) as int;
            assert(self.live@[k].id@ == key);
            assert forall|id2: Seq<char>| m.inputs.contains_key(id2) implies exists|i: int|
                0 <= i < self.live@.len() && #[trigger] self.live@[i].id@ == id2 by {
                if id2 != key {
                    let i = choose|i: int| 0 <= i < old(self).live@.len() && #[trigger] old(self).live@[i].id@ == id2;
                    assert(self.live@[i].id@ == id2);
                }
            }
            assert forall|i: int| 0 <= i < k implies #[trigger] self.live@[i].id@ != key by {
                assert(old(self).live@[i] == self.live@[i]);
                assert(before.inputs.contains_key(self.live@[i].id@));
            }
            assert forall|i: int| 0 <= i < self.live@.len() implies #[trigger] self.held@.contains_key(self.live@[i].id@)
                && self.held@[self.live@[i].id@] == self.live@[i].sink by {
                if i < k {
                    assert(old(self).live@[i] == self.live@[i]);
                    assert(before.inputs.contains_key(self.live@[i].id@));
                }
            }
        }
        Ok(())
    }

    /// Starts a live session that writes into `sink`, under a fresh identity.
    pub fn create(&mut self, sink: S) -> (r: Result<String, SessionError>)
        requires
            old(self).wf(),
        ensures
            final(self).wf(),
            final(self).consistent(),
            r matches Ok(id) ==> created(old(self)@, final(self)@, id@) && is_identity_text(id@)
                && final(self).sinks() == old(self).sinks().insert(id@, sink),
            r is Err ==> r == Err::<String, SessionError>(SessionError::IdentityExhausted)
                && final(self)@ == old(self)@ && final(self).sinks() == old(self).sinks(),
            old(self)@.issued == Set::<Seq<char>>::empty() ==> r is Ok,
    {
        match self.fresh_identity() {
            None => Err(SessionError::IdentityExhausted),
            Some(id) => {
                let key = id.clone();
                let registered = self.register(id, sink);
                assert(registered is Ok);
                Ok(key)
            },
        }
    }

    /// Writes `data` into session `id` when it is live; does nothing for an
    /// identity that names no live session. A failed write is not reported.
    /// Returns whether the session was live.
    pub fn write(&mut self, id: &str, data: &[u8]) -> (r: bool)
        requires
            old(self).wf(),
        ensures
            final(self).wf(),
            final(self).consistent(),
            r == old(self)@.inputs.contains_key(id@),
            final(self)@ == written(old(self)@, id@, data@),
            old(self)@.inputs.contains_key(id@) ==> final(self).sinks() == old(self).sinks().insert(
                id@,
                final(self).sinks()[id@],
            ),
            !old(self)@.inputs.contains_key(id@) ==> final(self).sinks() == old(self).sinks(),
    {
        let key = String::from_str(id);
        match self.find_live(&key) {
            None => false,
            Some(i) => {
                let ghost before = self.model@;
                let ghost held_before = self.held@;
                let record = &mut self.live[i];
                let _accepted = record.sink.send(data);
                record.input = Ghost(record.input@.push(data@));
                self.held = Ghost(held_before.insert(id@, self.live@[i as int].sink));
                self.model = Ghost(
                    RegistryView {
                        issued: before.issued,
                        inputs: before.inputs.insert(id@, before.inputs[id@].push(data@)),
                    },
                );
                proof {
                    let m = self.model@;
                                        assert forall|id2: Seq<char>| m.issued.contains(id2) implies exists|j: int|
                        0 <= j < self.issued@.len() && #[trigger] self.issued@[j]@ == id2 by {
                        let j = choose|j: int| 0 <= j < old(self).issued@.len() && #[trigger] old(self).issued@[j]@ == id2;
                        assert(self.issued@[j]@ == id2);
                    }
                    assert forall|j: int| 0 <= j < self.live@.len() implies #[trigger] self.live@[j].id
                        == old(self).live@[j].id by {
                        if j != i {
                            assert(old(self).live@[j] == self.live@[j]);
                        }
                    }
                    assert forall|j: int| 0 <= j < self.live@.len() implies #[trigger] m.inputs.contains_key(self.live@[j].id@)
                        && m.inputs[self.live@[j].id@] == self.live@[j].input@ by {
                        assert(self.live@[j].id == old(self).live@[j].id);
                        if j != i {
                            assert(old(self).live@[j] == self.live@[j]);
                            assert(old(self).live@[j].id@ != old(self).live@[i as int].id@);
                            assert(before.inputs.contains_key(old(self).live@[j].id@));
                        } else {
                            assert(before.inputs.contains_key(old(self).live@[i as int].id@));
                            assert(before.inputs[id@] == old(self).live@[i as int].input@);
                        }
                    }
                    assert forall|id2: Seq<char>| m.inputs.contains_key(id2) implies exists|j: int|
                        0 <= j < self.live@.len() && #[trigger] self.live@[j].id@ == id2 by {
                        let j = choose|j: int| 0 <= j < old(self).live@.len() && #[trigger] old(self).live@[j].id@ == id2;
                        assert(self.live@[j].id@ == id2);
                    }
                }
                true
            },
        }
    }

    /// Asks the shell of session `id` to end by writing the line `exit`.
    /// Like `write`, does nothing for an identity that names no live session.
    pub fn stop(&mut self, id: &str) -> (r: bool)
        requires
            old(self).wf(),
        ensures
            final(self).wf(),
            final(self).consistent(),
            r == old(self)@.inputs.contains_key(id@),
            final(self)@ == written(old(self)@, id@, stop_line()),
            old(self)@.inputs.contains_key(id@) ==> final(self).sinks() == old(self).sinks().insert(
                id@,
                final(self).sinks()[id@],
            ),
            !old(self)@.inputs.contains_key(id@) ==> final(self).sinks() == old(self).sinks(),
    {
        let line: Vec<u8> = vec![101u8, 120u8, 105u8, 116u8, 10u8];
        assert(line@ == stop_line());
        self.write(id, line.as_slice())
    }

    /// Takes session `id` out of the registry and hands back its input side,
    /// or `None` when no live session has that identity. The identity stays
    /// used: no later session gets it.
    pub fn remove(&mut self, id: &str) -> (r: Option<S>)
        requires
            old(self).wf(),
        ensures
            final(self).wf(),
            final(self).consistent(),
            r == (if old(self)@.inputs.contains_key(id@) {
                Some(old(self).sinks()[id@])
            } else {
                None
            }),
            final(self)@ == removed(old(self)@, id@),
            final(self).sinks() == old(self).sinks().remove(id@),
    {
        let key = String::from_str(id);
        let ghost before = self.model@;
        match self.find_live(&key) {
            None => {
                proof {
                    assert(removed(before, id@).inputs =~= before.inputs);
                    assert(self.held@.remove(id@) =~= self.held@);
                }
                None
            },
            Some(i) => {
                let ghost held_before = self.held@;
                let record = self.live.remove(i);
                self.model = Ghost(removed(before, id@));
                self.held = Ghost(held_before.remove(id@));
                proof {
                    let m = self.model@;
                    let ol = old(self).live@;
                    assert(held_before.contains_key(ol[i as int].id@));
                    assert(self.held@.dom() =~= m.inputs.dom());
                    assert forall|j: int| 0 <= j < self.live@.len() implies #[trigger] self.held@.contains_key(self.live@[j].id@)
                        && self.held@[self.live@[j].id@] == self.live@[j].sink by {
                        let j2 = if j < i { j } else { j + 1 };
                        assert(self.live@[j] == ol[j2]);
                        assert(ol[j2].id@ != ol[i as int].id@);
                        assert(held_before.contains_key(ol[j2].id@));
                    }
                    assert forall|id2: Seq<char>| m.issued.contains(id2) implies exists|j: int|
                        0 <= j < self.issued@.len() && #[trigger] self.issued@[j]@ == id2 by {
                        let j = choose|j: int| 0 <= j < old(self).issued@.len() && #[trigger] old(self).issued@[j]@ == id2;
                        assert(self.issued@[j]@ == id2);
                    }
                    assert forall|j: int| 0 <= j < self.live@.len() implies #[trigger] m.inputs.contains_key(self.live@[j].id@)
                        && m.inputs[self.live@[j].id@] == self.live@[j].input@ by {
                        let j2 = if j < i { j } else { j + 1 };
                        assert(self.live@[j] == ol[j2]);
                        assert(j2 != i);
                        assert(ol[j2].id@ != ol[i as int].id@);
                        assert(before.inputs.contains_key(ol[j2].id@));
                    }
                    assert forall|id2: Seq<char>| m.inputs.contains_key(id2) implies exists|j: int|
                        0 <= j < self.live@.len() && #[trigger] self.live@[j].id@ == id2 by {
                        let j = choose|j: int| 0 <= j < ol.len() && #[trigger] ol[j].id@ == id2;
                        if j < i {
                            assert(self.live@[j].id@ == id2);
                        } else {
                            assert(self.live@[j - 1].id@ == id2);
                        }
                    }
                    assert forall|a: int, b: int|
                        0 <= a < self.live@.len() && 0 <= b < self.live@.len() && a != b
                            implies self.live@[a].id@ != self.live@[b].id@ by {
                        let a2 = if a < i { a } else { a + 1 };
                        let b2 = if b < i { b } else { b + 1 };
                        assert(self.live@[a] == ol[a2]);
                        assert(self.live@[b] == ol[b2]);
                    }
                }
                Some(record.sink)
            },
        }
    }
}

} // verus!
