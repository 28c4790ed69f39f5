use vstd::prelude::*;
use crate::relay::{BackoffPolicy, ConnectionState, RelayAction, RelayDescriptor, RelayEvent, next_step};

verus! {

/// Errors of the relay pool's operations.
#[derive(Debug, Clone, Copy, PartialEq, Eq, Structural)]
pub enum PoolError {
    /// No relay with that url is tracked.
    NotFound,
    /// The pool already tracks its maximum number of relays.
    PoolFull,
}

/// What `connect_and_subscribe` did.
#[derive(Debug, Clone, Copy, PartialEq, Eq, Structural)]
pub enum ConnectOutcome {
    /// The url was already tracked: nothing was added and no task is to be started.
    AlreadyTracked,
    /// A descriptor was added: its management task is to be started.
    Added,
}

/// Index of the descriptor for `url` in `s`, if any.
pub open spec fn tracked_at(s: Seq<RelayDescriptor>, url: Seq<char>, i: int) -> bool {
    0 <= i < s.len() && s[i].url@ == url
}

/// Whether `s` holds a descriptor for `url`.
pub open spec fn tracks(s: Seq<RelayDescriptor>, url: Seq<char>) -> bool {
    exists|i: int| tracked_at(s, url, i)
}

/// Whether no url occurs twice in `s`: the url is the pool's key.
pub open spec fn urls_distinct(s: Seq<RelayDescriptor>) -> bool {
    forall|i: int, j: int| 0 <= i < j < s.len() ==> s[i].url@ != s[j].url@
}

/// Number of descriptors of `s` in state `Connected`.
pub open spec fn count_connected(s: Seq<RelayDescriptor>) -> nat
    decreases s.len(),
{
    if s.len() == 0 {
        0
    } else {
        count_connected(s.drop_last()) + if s.last().state == ConnectionState::Connected { 1nat } else { 0nat }
    }
}

/// At most every descriptor is connected.
pub proof fn lemma_count_connected_bound(s: Seq<RelayDescriptor>)
    ensures
        count_connected(s) <= s.len(),
    decreases s.len(),
{
    if s.len() > 0 {
        lemma_count_connected_bound(s.drop_last());
    }
}

/// The set of upstream relays, keyed by url.
pub struct RelayPool {
    relays: Vec<RelayDescriptor>,
    policy: BackoffPolicy,
    max_connections: usize,
}

impl RelayPool {
    /// The descriptors, in order of addition.
    pub closed spec fn view(&self) -> Seq<RelayDescriptor> {
        self.relays@
    }

    pub closed spec fn policy(&self) -> BackoffPolicy {
        self.policy
    }

    pub closed spec fn max_relays(&self) -> nat {
        self.max_connections as nat
    }

    pub closed spec fn wf(&self) -> bool {
        &&& self.policy.wf()
        &&& forall|i: int, j: int| 0 <= i < j < self.relays@.len() ==> self.relays@[i].url@ != self.relays@[j].url@
        &&& forall|i: int| 0 <= i < self.relays@.len() ==> (#[trigger] self.relays@[i]).backoff_ms <= self.policy.ceiling_ms
    }

    /// The answer `connect_and_subscribe(url)` gives.
    pub open spec fn connect_result(&self, url: Seq<char>) -> Result<ConnectOutcome, PoolError> {
        if tracks(self.view(), url) {
            Ok(ConnectOutcome::AlreadyTracked)
        } else if self.view().len() >= self.max_relays() {
            Err(PoolError::PoolFull)
        } else {
            Ok(ConnectOutcome::Added)
        }
    }

    /// A well-formed pool holds each url once, under a well-formed policy.
    pub proof fn lemma_wf_facts(&self)
        requires
            self.wf(),
        ensures
            urls_distinct(self.view()),
            self.policy().wf(),
    {
    }

    /// Creates an empty pool.
    pub fn new(policy: BackoffPolicy, max_connections: usize) -> (r: Self)
        requires
            policy.wf(),
        ensures
            r.wf(),
            r.view() == Seq::<RelayDescriptor>::empty(),
            r.policy() == policy,
            r.max_relays() == max_connections,
    {
        RelayPool { relays: Vec::new(), policy, max_connections }
    }

    fn find(&self, url: &String) -> (r: Option<usize>)
        requires
            self.wf(),
        ensures
            match r {
                Some(i) => tracked_at(self.view(), url@, i as int),
                None => !tracks(self.view(), url@),
            },
    {
        let mut i: usize = 0;
        while i < self.relays.len()
            invariant
                0 <= i <= self.relays@.len(),
                forall|j: int| 0 <= j < i ==> self.relays@[j].url@ != url@,
            decreases self.relays@.len() - i,
        {
            if self.relays[i].url == *url {
                return Some(i);
            }
            i = i + 1;
        }
        None
    }

    /// Starts tracking `url`. Idempotent: a url already tracked is left as it
    /// is and no second management task is asked for.
    pub fn connect_and_subscribe(&mut self, url: &str) -> (r: Result<ConnectOutcome, PoolError>)
        requires
            old(self).wf(),
        ensures
            final(self).wf(),
            r == old(self).connect_result(url@),
            final(self).policy() == old(self).policy(),
            final(self).max_relays() == old(self).max_relays(),
            r == Ok::<ConnectOutcome, PoolError>(ConnectOutcome::Added) ==> final(self).view() == old(self).view().push(
                (RelayDescriptor {
                    url: final(self).view().last().url,
                    state: ConnectionState::Disconnected,
                    last_success_ms: 0,
                    connected_since_ms: 0,
                    failures: 0,
                    backoff_ms: old(self).policy().base_ms,
                }),
            ) && final(self).view().last().url@ == url@,
            r != Ok::<ConnectOutcome, PoolError>(ConnectOutcome::Added) ==> final(self).view() == old(self).view(),
            r.is_ok() ==> tracks(final(self).view(), url@),
    {
        let u = url.to_owned();
        match self.find(&u) {
            Some(i) => {
                assert(tracked_at(self.view(), url@, i as int));
                Ok(ConnectOutcome::AlreadyTracked)
            },
            None => {
                if self.relays.len() >= self.max_connections {
                    return Err(PoolError::PoolFull);
                }
                let ghost v0 = self.view();
                let d = RelayDescriptor::new(u, &self.policy);
                self.relays.push(d);
                assert(tracked_at(self.view(), url@, self.view().len() - 1));
                assert forall|a: int, b: int| 0 <= a < b < self.relays@.len()
                    implies self.relays@[a].url@ != self.relays@[b].url@ by {
                    assert(self.relays@[a] == v0[a]);
                    if b < v0.len() {
                        assert(self.relays@[b] == v0[b]);
                    } else {
                        assert(!tracked_at(v0, url@, a));
                    }
                }
                assert forall|k: int| 0 <= k < self.relays@.len()
                    implies (#[trigger] self.relays@[k]).backoff_ms <= self.policy.ceiling_ms by {
                    if k < v0.len() {
                        assert(self.relays@[k] == v0[k]);
                    }
                }
                Ok(ConnectOutcome::Added)
            },
        }
    }

    /// Stops tracking `url`; the caller has already stopped its management
    /// task and awaited it. `NotFound` when the url is not tracked.
    pub fn disconnect_relay(&mut self, url: &str) -> (r: Result<(), PoolError>)
        requires
            old(self).wf(),
        ensures
            final(self).wf(),
            r.is_err() <==> !tracks(old(self).view(), url@),
            r.is_err() ==> r == Err::<(), PoolError>(PoolError::NotFound) && final(self).view() == old(self).view(),
            r.is_ok() ==> exists|i: int| tracked_at(old(self).view(), url@, i)
                && final(self).view() == old(self).view().remove(i),
            !tracks(final(self).view(), url@),
            final(self).policy() == old(self).policy(),
            final(self).max_relays() == old(self).max_relays(),
    {
        let u = url.to_owned();
        match self.find(&u) {
            None => Err(PoolError::NotFound),
            Some(i) => {
                let ghost v0 = self.view();
                self.relays.remove(i);
                assert(self.view() =~= v0.remove(i as int));
                assert(tracked_at(v0, url@, i as int));
                assert forall|k: int| 0 <= k < self.view().len() implies self.view()[k].url@ != url@ by {
                    if k < i {
                        assert(self.view()[k] == v0[k]);
                    } else {
                        assert(self.view()[k] == v0[k + 1]);
                    }
                }
                Ok(())
            },
        }
    }

    /// The tracked urls, in order of addition.
    pub fn list_relays(&self) -> (r: Vec<String>)
        requires
            self.wf(),
        ensures
            r@.len() == self.view().len(),
            forall|i: int| 0 <= i < r@.len() ==> r@[i] == self.view()[i].url,
            forall|i: int, j: int| 0 <= i < j < r@.len() ==> r@[i]@ != r@[j]@,
    {
        let mut out: Vec<String> = Vec::new();
        let mut i: usize = 0;
        while i < self.relays.len()
            invariant
                0 <= i <= self.relays@.len(),
                out@.len() == i,
                forall|j: int| 0 <= j < i ==> out@[j] == self.relays@[j].url,
            decreases self.relays@.len() - i,
        {
            out.push(self.relays[i].url.clone());
            i = i + 1;
        }
        out
    }

    /// The state of each tracked relay, in order of addition.
    pub fn get_connection_statuses(&self) -> (r: Vec<(String, ConnectionState)>)
        requires
            self.wf(),
        ensures
            r@.len() == self.view().len(),
            forall|i: int| 0 <= i < r@.len() ==> r@[i] == (self.view()[i].url, self.view()[i].state),
            forall|i: int, j: int| 0 <= i < j < r@.len() ==> r@[i].0@ != r@[j].0@,
            count_connected(self.view()) <= r@.len(),
    {
        let mut out: Vec<(String, ConnectionState)> = Vec::new();
        let mut i: usize = 0;
        while i < self.relays.len()
            invariant
                0 <= i <= self.relays@.len(),
                out@.len() == i,
                forall|j: int| 0 <= j < i ==> out@[j] == (self.relays@[j].url, self.relays@[j].state),
            decreases self.relays@.len() - i,
        {
            out.push((self.relays[i].url.clone(), self.relays[i].state));
            i = i + 1;
        }
        proof { lemma_count_connected_bound(self.relays@); }
        out
    }

    /// Number of relays currently connected.
    pub fn active_connections(&self) -> (r: usize)
        ensures
            r == count_connected(self.view()),
    {
        let mut n: usize = 0;
        let mut i: usize = 0;
        while i < self.relays.len()
            invariant
                0 <= i <= self.relays@.len(),
                n == count_connected(self.relays@.subrange(0, i as int)),
                n <= i,
            decreases self.relays@.len() - i,
        {
            assert(self.relays@.subrange(0, i as int + 1).drop_last() =~= self.relays@.subrange(0, i as int));
            if self.relays[i].state == ConnectionState::Connected {
                n = n + 1;
            }
            i = i + 1;
        }
        assert(self.relays@.subrange(0, self.relays@.len() as int) =~= self.relays@);
        n
    }

    /// Feeds `ev`, observed by the management task of `url` at `now`, to that
    /// relay's state machine and returns the action the task must take.
    pub fn apply(&mut self, url: &str, ev: RelayEvent, now: u64, jitter: u64) -> (r: Result<RelayAction, PoolError>)
        requires
            old(self).wf(),
        ensures
            final(self).wf(),
            final(self).policy() == old(self).policy(),
            final(self).max_relays() == old(self).max_relays(),
            r.is_err() <==> !tracks(old(self).view(), url@),
            r.is_err() ==> r == Err::<RelayAction, PoolError>(PoolError::NotFound) && final(self).view() == old(self).view(),
            r.is_ok() ==> exists|i: int| tracked_at(old(self).view(), url@, i) && ({
                let (d, a) = next_step(old(self).view()[i], ev, now, jitter, old(self).policy());
                final(self).view() == old(self).view().update(i, d) && r == Ok::<RelayAction, PoolError>(a)
            }),
    {
        let u = url.to_owned();
        match self.find(&u) {
            None => Err(PoolError::NotFound),
            Some(i) => {
                let ghost v0 = self.view();
                let mut d = self.relays.remove(i);
                assert(d == v0[i as int]);
                let a = d.step(ev, now, jitter, &self.policy);
                self.relays.insert(i, d);
                assert(self.view() =~= v0.update(i as int, d));
                assert(tracked_at(v0, url@, i as int));
                assert forall|k: int| 0 <= k < self.relays@.len()
                    implies (#[trigger] self.relays@[k]).backoff_ms <= self.policy.ceiling_ms by {
                    if k != i {
                        assert(self.relays@[k] == v0[k]);
                    }
                }
                Ok(a)
            },
        }
    }
}

/// Adding a relay twice starts one management task: once a url is tracked,
/// `connect_and_subscribe` answers `AlreadyTracked` and adds nothing; and
/// removing a url that is not tracked fails with `NotFound`.
pub proof fn lemma_connect_idempotent(p: &RelayPool, url: Seq<char>)
    requires
        tracks(p.view(), url),
    ensures
        p.connect_result(url) == Ok::<ConnectOutcome, PoolError>(ConnectOutcome::AlreadyTracked),
{
}

} // verus!
