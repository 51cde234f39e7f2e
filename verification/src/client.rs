//! The client side: the mirror of each file's content, rebuilt from the
//! event stream under the same validate-and-clamp rule the codec defines,
//! and the four-state connection machine with its capped, jittered
//! exponential reconnect backoff.
//!
//! Connecting, receiving and persisting are I/O and stay outside the
//! library; the machine decides, the surrounding loop performs.

use vstd::prelude::*;
use vstd::hash_map::StringHashMap;
use crate::codec::FileChange;
use crate::codec::spec_apply;
use crate::codec::spec_rejected;

verus! {

/// How many failed connect attempts are made before giving up for good.
pub const MAX_RECONNECT_ATTEMPTS: u32 = 15;

/// The backoff delay before the first reconnect attempt, in milliseconds.
pub const INITIAL_RECONNECT_DELAY_MS: u64 = 100;

/// The cap on the backoff delay, in milliseconds.
pub const MAX_RECONNECT_DELAY_MS: u64 = 2000;

/// The bound under which the per-attempt random jitter stays, in
/// milliseconds.
pub const JITTER_BOUND_MS: u64 = 100;

/// The file id a change event belongs to.
pub open spec fn spec_file_of(event: FileChange) -> Seq<char> {
    match event {
        FileChange::FullContent { file_id, .. } => file_id@,
        FileChange::Diff { file_id, .. } => file_id@,
    }
}

/// The mirrored content of the file named `id`: empty until a first event
/// for that id arrives.
pub open spec fn spec_mirror_content(mirror: Map<Seq<char>, Seq<char>>, id: Seq<char>) -> Seq<
    char,
> {
    if mirror.contains_key(id) {
        mirror[id]
    } else {
        Seq::empty()
    }
}

/// The client's mirrored contents, one cached string per file id.
pub struct ClientMirror {
    contents: StringHashMap<String>,
}

impl View for ClientMirror {
    type V = Map<Seq<char>, Seq<char>>;

    closed spec fn view(&self) -> Map<Seq<char>, Seq<char>> {
        self.contents@.map_values(|content: String| content@)
    }
}

impl ClientMirror {
    /// No file mirrored yet.
    pub fn new() -> (mirror: Self)
        ensures
            mirror@ == Map::<Seq<char>, Seq<char>>::empty(),
    {
        let mirror = ClientMirror { contents: StringHashMap::new() };
        proof {
            assert(mirror@ =~= Map::<Seq<char>, Seq<char>>::empty());
        }
        mirror
    }

    /// The mirrored content of the file named `file_id`, as it must be
    /// persisted: empty until a first event for that id arrives.
    pub fn content_of(&self, file_id: &str) -> (content: String)
        ensures
            content@ == spec_mirror_content(self@, file_id@),
    {
        proof {
            assert(self@.contains_key(file_id@) == self.contents@.contains_key(file_id@));
            if self.contents@.contains_key(file_id@) {
                assert(self@[file_id@] == self.contents@[file_id@]@);
            }
        }
        match self.contents.get(file_id) {
            Option::Some(content) => content.clone(),
            Option::None => String::new(),
        }
    }

    /// Consumes one event, in arrival order: a full snapshot replaces the
    /// file's mirrored content outright; a positional edit patches it under
    /// the codec's validate-and-clamp rule, against empty content when the
    /// file was never seen. Returns the file's new content, to be
    /// persisted, or `None` when the edit's position lay beyond the content
    /// and was rejected — the mirror is then unchanged.
    pub fn apply_change(&mut self, change: &FileChange) -> (updated: Option<String>)
        ensures
            !spec_rejected(*change, spec_mirror_content(old(self)@, spec_file_of(*change)))
                ==> {
                &&& final(self)@ == old(self)@.insert(
                    spec_file_of(*change),
                    spec_apply(*change, spec_mirror_content(old(self)@, spec_file_of(*change))),
                )
                &&& updated matches Some(content) && content@ == spec_apply(
                    *change,
                    spec_mirror_content(old(self)@, spec_file_of(*change)),
                )
            },
            spec_rejected(*change, spec_mirror_content(old(self)@, spec_file_of(*change)))
                ==> final(self)@ == old(self)@ && updated is None,
    {
        let file_id: &String = match change {
            FileChange::FullContent { file_id, .. } => file_id,
            FileChange::Diff { file_id, .. } => file_id,
        };
        let mut current: String = match self.contents.get(file_id.as_str()) {
            Option::Some(content) => content.clone(),
            Option::None => String::new(),
        };
        proof {
            assert(spec_file_of(*change) == file_id@);
            assert(old(self)@.contains_key(file_id@) == old(self).contents@.contains_key(
                file_id@,
            ));
            if old(self).contents@.contains_key(file_id@) {
                assert(old(self)@[file_id@] == old(self).contents@[file_id@]@);
            }
            assert(current@ == spec_mirror_content(old(self)@, file_id@));
        }
        let applied: bool = change.apply(&mut current);
        if applied {
            self.contents.insert(file_id.clone(), current.clone());
            proof {
                assert(self@ =~= old(self)@.insert(
                    spec_file_of(*change),
                    spec_apply(*change, spec_mirror_content(old(self)@, spec_file_of(*change))),
                ));
            }
            Option::Some(current)
        } else {
            Option::None
        }
    }
}

/// The connection lifecycle of the client.
#[derive(Debug, Clone, Copy, PartialEq, Eq, Structural)]
pub enum ConnectionState {
    /// Not connected; a reconnect decision is pending.
    Disconnected,
    /// A connect attempt is under way, under a bounded timeout.
    Connecting,
    /// Connected: events are being consumed in order.
    Connected,
    /// Over for good — after a graceful peer close, or after the reconnect
    /// attempts were exhausted.
    Terminated,
}

/// What the machine asks its driver to do after a failed attempt.
#[derive(Debug, Clone, Copy, PartialEq, Eq, Structural)]
pub enum RetryDecision {
    /// Sleep this many milliseconds, then attempt to connect again.
    RetryAfter(u64),
    /// Give up: report fatal failure and stop.
    GiveUp,
}

/// The client's connection machine: its lifecycle state, how many attempts
/// have failed, and the base backoff delay the next failure will start
/// from.
pub struct ClientSync {
    /// Where the machine stands in its lifecycle.
    pub state: ConnectionState,
    /// How many connect attempts have failed so far.
    pub attempts: u32,
    /// The base delay the next failure's backoff starts from.
    pub backoff_ms: u64,
}

impl ClientSync {
    /// The machine's internal bounds: the base delay never exceeds its cap,
    /// and attempts can only be exhausted in the terminated state.
    pub open spec fn wf(&self) -> bool {
        &&& INITIAL_RECONNECT_DELAY_MS <= self.backoff_ms <= MAX_RECONNECT_DELAY_MS
        &&& (self.attempts >= MAX_RECONNECT_ATTEMPTS ==> self.state is Terminated)
    }

    /// A fresh machine: disconnected, nothing failed yet, backoff at its
    /// base value.
    pub fn new() -> (machine: Self)
        ensures
            machine == spec_new_client(),
            machine.wf(),
    {
        ClientSync {
            state: ConnectionState::Disconnected,
            attempts: 0,
            backoff_ms: INITIAL_RECONNECT_DELAY_MS,
        }
    }

    /// Begins a connect attempt.
    pub fn start_connect(&mut self)
        requires
            old(self).state is Disconnected,
            old(self).wf(),
        ensures
            *final(self) == (ClientSync { state: ConnectionState::Connecting, ..*old(self) }),
            final(self).wf(),
    {
        self.state = ConnectionState::Connecting;
    }

    /// Records a successful connect: the machine is connected and consumes
    /// events. Earlier failed attempts stay counted.
    pub fn on_connect_success(&mut self)
        requires
            old(self).state is Connecting,
            old(self).wf(),
        ensures
            *final(self) == (ClientSync { state: ConnectionState::Connected, ..*old(self) }),
            final(self).wf(),
    {
        self.state = ConnectionState::Connected;
    }

    /// Records a graceful, peer-initiated close: an intentional end, not an
    /// error — the machine terminates without any further reconnect.
    pub fn on_peer_close(&mut self)
        requires
            old(self).state is Connected,
            old(self).wf(),
        ensures
            *final(self) == (ClientSync { state: ConnectionState::Terminated, ..*old(self) }),
            final(self).wf(),
    {
        self.state = ConnectionState::Terminated;
    }

    /// Records a failure — a connect attempt that failed or timed out, or a
    /// transport error that dropped an established session — and decides
    /// what follows, per `spec_failure_step`: one more retry after the
    /// jittered, capped exponential backoff, or, once the attempt budget is
    /// exhausted, giving up for good.
    pub fn on_failure(&mut self, jitter: u64) -> (decision: RetryDecision)
        requires
            old(self).state is Connecting || old(self).state is Connected,
            old(self).wf(),
        ensures
            (*final(self), decision) == spec_failure_step(*old(self), jitter),
            final(self).wf(),
    {
        self.attempts = self.attempts + 1;
        if self.attempts >= MAX_RECONNECT_ATTEMPTS {
            self.state = ConnectionState::Terminated;
            RetryDecision::GiveUp
        } else {
            self.state = ConnectionState::Disconnected;
            let bounded_jitter: u64 = jitter % JITTER_BOUND_MS;
            let sleep: u64 = if self.backoff_ms + bounded_jitter <= MAX_RECONNECT_DELAY_MS {
                self.backoff_ms + bounded_jitter
            } else {
                MAX_RECONNECT_DELAY_MS
            };
            self.backoff_ms = if self.backoff_ms * 2 <= MAX_RECONNECT_DELAY_MS {
                self.backoff_ms * 2
            } else {
                MAX_RECONNECT_DELAY_MS
            };
            RetryDecision::RetryAfter(sleep)
        }
    }
}

/// A fresh client machine.
pub open spec fn spec_new_client() -> ClientSync {
    ClientSync {
        state: ConnectionState::Disconnected,
        attempts: 0,
        backoff_ms: INITIAL_RECONNECT_DELAY_MS,
    }
}

/// The delay slept before the next attempt: the base backoff plus the
/// bounded jitter, capped at the maximum delay.
pub open spec fn spec_backoff_sleep(backoff_ms: u64, jitter: u64) -> int {
    let raw = backoff_ms + (jitter % JITTER_BOUND_MS);
    if raw <= MAX_RECONNECT_DELAY_MS {
        raw
    } else {
        MAX_RECONNECT_DELAY_MS as int
    }
}

/// The base backoff after one more failure: doubled, capped at the maximum
/// delay.
pub open spec fn spec_next_backoff(backoff_ms: u64) -> int {
    if backoff_ms * 2 <= MAX_RECONNECT_DELAY_MS {
        backoff_ms * 2
    } else {
        MAX_RECONNECT_DELAY_MS as int
    }
}

/// One failure: the attempt count grows by one; once it reaches the budget
/// the machine terminates with `GiveUp`, otherwise it returns to
/// `Disconnected` with `RetryAfter` the jittered, capped backoff, and the
/// base backoff doubles (capped).
pub open spec fn spec_failure_step(machine: ClientSync, jitter: u64) -> (ClientSync,
    RetryDecision,
) {
    let attempts = (machine.attempts + 1) as u32;
    if attempts >= MAX_RECONNECT_ATTEMPTS {
        (
            ClientSync { state: ConnectionState::Terminated, attempts, ..machine },
            RetryDecision::GiveUp,
        )
    } else {
        (
            ClientSync {
                state: ConnectionState::Disconnected,
                attempts,
                backoff_ms: spec_next_backoff(machine.backoff_ms) as u64,
            },
            RetryDecision::RetryAfter(spec_backoff_sleep(machine.backoff_ms, jitter) as u64),
        )
    }
}

/// The machine after a run of consecutive failures, one per jitter value.
pub open spec fn spec_fail_run(machine: ClientSync, jitters: Seq<u64>) -> ClientSync
    decreases jitters.len(),
{
    if jitters.len() == 0 {
        machine
    } else {
        spec_fail_run(spec_failure_step(machine, jitters[0]).0, jitters.drop_first())
    }
}

/// Each failure of a run counts, and a run long enough to exhaust the
/// attempt budget leaves the machine terminated.
pub proof fn lemma_fail_run(machine: ClientSync, jitters: Seq<u64>)
    requires
        machine.attempts + jitters.len() <= u32::MAX,
    ensures
        spec_fail_run(machine, jitters).attempts == machine.attempts + jitters.len(),
        jitters.len() > 0 && machine.attempts + jitters.len() >= MAX_RECONNECT_ATTEMPTS
            ==> spec_fail_run(machine, jitters).state is Terminated,
    decreases jitters.len(),
{
    if jitters.len() > 0 {
        lemma_fail_run(spec_failure_step(machine, jitters[0]).0, jitters.drop_first());
    }
}

/// Reconnect-exhaustion law: from a fresh machine, a run of
/// `MAX_RECONNECT_ATTEMPTS` consecutive failed attempts — whatever jitter
/// each drew — leaves the machine terminated, and the last failure's
/// decision is `GiveUp`: a fatal report, never a further retry.
pub proof fn lemma_reconnect_exhaustion(jitters: Seq<u64>)
    requires
        jitters.len() == MAX_RECONNECT_ATTEMPTS,
    ensures
        spec_fail_run(spec_new_client(), jitters).state is Terminated,
        spec_failure_step(
            spec_fail_run(spec_new_client(), jitters.drop_last()),
            jitters.last(),
        ).1 is GiveUp,
{
    lemma_fail_run(spec_new_client(), jitters);
    lemma_fail_run(spec_new_client(), jitters.drop_last());
    lemma_fail_run_snoc(spec_new_client(), jitters);
}

/// A run of failures splits into the run without its last failure,
/// followed by that failure.
pub proof fn lemma_fail_run_snoc(machine: ClientSync, jitters: Seq<u64>)
    requires
        jitters.len() > 0,
    ensures
        spec_fail_run(machine, jitters) == spec_failure_step(
            spec_fail_run(machine, jitters.drop_last()),
            jitters.last(),
        ).0,
    decreases jitters.len(),
{
    let step0 = spec_failure_step(machine, jitters[0]).0;
    assert(spec_fail_run(machine, jitters) == spec_fail_run(step0, jitters.drop_first()));
    if jitters.len() == 1 {
        assert(jitters.drop_last() =~= Seq::<u64>::empty());
        assert(jitters.drop_first() =~= Seq::<u64>::empty());
        assert(spec_fail_run(step0, jitters.drop_first()) == step0);
        assert(spec_fail_run(machine, jitters.drop_last()) == machine);
        assert(jitters.last() == jitters[0]);
    } else {
        assert(jitters.drop_first().drop_last() =~= jitters.drop_last().drop_first());
        assert(jitters.drop_first().last() == jitters.last());
        assert(jitters.drop_last()[0] == jitters[0]);
        lemma_fail_run_snoc(step0, jitters.drop_first());
        assert(spec_fail_run(machine, jitters.drop_last()) == spec_fail_run(
            step0,
            jitters.drop_last().drop_first(),
        ));
        assert(spec_fail_run(step0, jitters.drop_first()) == spec_failure_step(
            spec_fail_run(step0, jitters.drop_first().drop_last()),
            jitters.drop_first().last(),
        ).0);
    }
}

} // verus!
