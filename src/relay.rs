use vstd::prelude::*;

verus! {

/// Longest backoff a policy may use: one day, in milliseconds.
pub const MAX_BACKOFF_MS: u64 = 86_400_000;

/// Connection state of one upstream relay.
#[derive(Debug, Clone, Copy, PartialEq, Eq, Structural)]
pub enum ConnectionState {
    Disconnected,
    Connecting,
    Connected,
    Reconnecting,
}

/// What a relay's management task observed.
#[derive(Debug, Clone, Copy, PartialEq, Eq, Structural)]
pub enum RelayEvent {
    /// A connection attempt was dispatched.
    DialStarted,
    /// The connection attempt succeeded and the subscription is open.
    DialSucceeded,
    /// The connection attempt failed.
    DialFailed,
    /// An event was read from the connection.
    EventReceived,
    /// The connection reported an I/O or protocol error.
    StreamFailed,
    /// The periodic health-check timer fired.
    HealthCheck,
    /// The relay is being removed.
    Stop,
}

/// What the relay's management task must do next.
#[derive(Debug, Clone, Copy, PartialEq, Eq, Structural)]
pub enum RelayAction {
    /// Nothing changes.
    Nothing,
    /// Keep reading from the open connection.
    KeepReading,
    /// Drop the connection, if any, and dial again after this many milliseconds.
    RetryAfter(u64),
    /// Close the connection and end the task.
    Close,
}

/// Reconnection timing: exponential backoff from `base_ms`, capped at
/// `ceiling_ms`; a relay silent for `silence_ms` is forced to reconnect.
#[derive(Debug, Clone, Copy, PartialEq, Eq, Structural)]
pub struct BackoffPolicy {
    pub base_ms: u64,
    pub ceiling_ms: u64,
    pub silence_ms: u64,
}

impl BackoffPolicy {
    pub open spec fn wf(&self) -> bool {
        1 <= self.base_ms <= self.ceiling_ms <= MAX_BACKOFF_MS
    }

    /// Builds a policy; the base is raised to at least 1 ms and the ceiling
    /// is kept between the base and `MAX_BACKOFF_MS`.
    pub fn new(base_ms: u64, ceiling_ms: u64, silence_ms: u64) -> (r: Self)
        ensures
            r.wf(),
            r.base_ms == clamp(base_ms, 1, MAX_BACKOFF_MS),
            r.ceiling_ms == clamp(ceiling_ms, r.base_ms, MAX_BACKOFF_MS),
            r.silence_ms == silence_ms,
    {
        let b: u64 = if base_ms < 1 { 1 } else if base_ms > MAX_BACKOFF_MS { MAX_BACKOFF_MS } else { base_ms };
        let c: u64 = if ceiling_ms < b { b } else if ceiling_ms > MAX_BACKOFF_MS { MAX_BACKOFF_MS } else { ceiling_ms };
        BackoffPolicy { base_ms: b, ceiling_ms: c, silence_ms }
    }
}

/// `x` kept within `lo ..= hi`.
pub open spec fn clamp(x: u64, lo: u64, hi: u64) -> u64 {
    if x < lo { lo } else if x > hi { hi } else { x }
}

/// The backoff after one more failure: doubled, but never above the ceiling.
pub open spec fn grown_backoff(backoff: u64, p: BackoffPolicy) -> u64 {
    if 2 * backoff >= p.ceiling_ms { p.ceiling_ms } else { (2 * backoff) as u64 }
}

/// The wait before the next dial: the backoff plus a jitter of up to a
/// quarter of it, drawn from `jitter`.
pub open spec fn retry_delay(backoff: u64, jitter: u64) -> u64 {
    (backoff + (jitter as int) % (backoff / 4 + 1)) as u64
}

/// One managed upstream relay.
#[derive(Debug)]
pub struct RelayDescriptor {
    pub url: String,
    pub state: ConnectionState,
    pub last_success_ms: u64,
    pub connected_since_ms: u64,
    pub failures: u32,
    pub backoff_ms: u64,
}

/// The descriptor after a connection is lost at `now`: the backoff restarts
/// from the base when the connection had lasted at least one ceiling.
pub open spec fn after_loss(d: RelayDescriptor, now: u64, jitter: u64, p: BackoffPolicy) -> (RelayDescriptor, RelayAction) {
    let sustained = now as int >= d.connected_since_ms as int + p.ceiling_ms as int;
    let b = if sustained { p.base_ms } else { d.backoff_ms };
    let f: u32 = if sustained { 1 } else if d.failures < u32::MAX { (d.failures + 1) as u32 } else { d.failures };
    (
        RelayDescriptor { state: ConnectionState::Reconnecting, failures: f, backoff_ms: grown_backoff(b, p), ..d },
        RelayAction::RetryAfter(retry_delay(b, jitter)),
    )
}

/// The relay state machine: the descriptor and action after `ev` at `now`.
/// Events that do not apply to the current state change nothing.
pub open spec fn next_step(d: RelayDescriptor, ev: RelayEvent, now: u64, jitter: u64, p: BackoffPolicy) -> (RelayDescriptor, RelayAction) {
    match ev {
        RelayEvent::Stop => (RelayDescriptor { state: ConnectionState::Disconnected, ..d }, RelayAction::Close),
        RelayEvent::DialStarted => {
            if d.state == ConnectionState::Disconnected || d.state == ConnectionState::Reconnecting {
                (RelayDescriptor { state: ConnectionState::Connecting, ..d }, RelayAction::Nothing)
            } else {
                (d, RelayAction::Nothing)
            }
        },
        RelayEvent::DialSucceeded => {
            if d.state == ConnectionState::Connecting {
                (
                    RelayDescriptor { state: ConnectionState::Connected, last_success_ms: now, connected_since_ms: now, ..d },
                    RelayAction::KeepReading,
                )
            } else {
                (d, RelayAction::Nothing)
            }
        },
        RelayEvent::DialFailed => {
            if d.state == ConnectionState::Connecting {
                let f: u32 = if d.failures < u32::MAX { (d.failures + 1) as u32 } else { d.failures };
                (
                    RelayDescriptor { state: ConnectionState::Reconnecting, failures: f, backoff_ms: grown_backoff(d.backoff_ms, p), ..d },
                    RelayAction::RetryAfter(retry_delay(d.backoff_ms, jitter)),
                )
            } else {
                (d, RelayAction::Nothing)
            }
        },
        RelayEvent::EventReceived => {
            if d.state == ConnectionState::Connected {
                (RelayDescriptor { last_success_ms: now, ..d }, RelayAction::KeepReading)
            } else {
                (d, RelayAction::Nothing)
            }
        },
        RelayEvent::StreamFailed => {
            if d.state == ConnectionState::Connected {
                after_loss(d, now, jitter, p)
            } else {
                (d, RelayAction::Nothing)
            }
        },
        RelayEvent::HealthCheck => {
            if d.state == ConnectionState::Connected && now as int >= d.last_success_ms as int + p.silence_ms as int {
                after_loss(d, now, jitter, p)
            } else {
                (d, RelayAction::Nothing)
            }
        },
    }
}

fn grow(backoff: u64, p: &BackoffPolicy) -> (r: u64)
    requires
        p.wf(),
        backoff <= p.ceiling_ms,
    ensures
        r == grown_backoff(backoff, *p),
        r <= p.ceiling_ms,
{
    if 2 * backoff >= p.ceiling_ms { p.ceiling_ms } else { 2 * backoff }
}

fn delay(backoff: u64, jitter: u64) -> (r: u64)
    requires
        backoff <= MAX_BACKOFF_MS,
    ensures
        r == retry_delay(backoff, jitter),
{
    backoff + jitter % (backoff / 4 + 1)
}

impl RelayDescriptor {
    /// Creates the descriptor of a relay that has not been dialled yet.
    pub fn new(url: String, p: &BackoffPolicy) -> (r: Self)
        ensures
            r.url == url,
            r.state == ConnectionState::Disconnected,
            r.last_success_ms == 0,
            r.connected_since_ms == 0,
            r.failures == 0,
            r.backoff_ms == p.base_ms,
    {
        RelayDescriptor {
            url,
            state: ConnectionState::Disconnected,
            last_success_ms: 0,
            connected_since_ms: 0,
            failures: 0,
            backoff_ms: p.base_ms,
        }
    }

    fn lose(&mut self, now: u64, jitter: u64, p: &BackoffPolicy) -> (a: RelayAction)
        requires
            p.wf(),
            old(self).backoff_ms <= p.ceiling_ms,
        ensures
            (*final(self), a) == after_loss(*old(self), now, jitter, *p),
    {
        let sustained = now >= self.connected_since_ms && now - self.connected_since_ms >= p.ceiling_ms;
        let b: u64 = if sustained { p.base_ms } else { self.backoff_ms };
        self.failures = if sustained { 1 } else if self.failures < u32::MAX { self.failures + 1 } else { self.failures };
        self.state = ConnectionState::Reconnecting;
        self.backoff_ms = grow(b, p);
        RelayAction::RetryAfter(delay(b, jitter))
    }

    /// Applies `ev`, observed at `now`, to this relay; `jitter` is a random
    /// draw used to spread retries.
    pub fn step(&mut self, ev: RelayEvent, now: u64, jitter: u64, p: &BackoffPolicy) -> (a: RelayAction)
        requires
            p.wf(),
            old(self).backoff_ms <= p.ceiling_ms,
        ensures
            (*final(self), a) == next_step(*old(self), ev, now, jitter, *p),
            final(self).backoff_ms <= p.ceiling_ms,
            final(self).url == old(self).url,
    {
        match ev {
            RelayEvent::Stop => {
                self.state = ConnectionState::Disconnected;
                RelayAction::Close
            },
            RelayEvent::DialStarted => {
                if self.state == ConnectionState::Disconnected || self.state == ConnectionState::Reconnecting {
                    self.state = ConnectionState::Connecting;
                }
                RelayAction::Nothing
            },
            RelayEvent::DialSucceeded => {
                if self.state == ConnectionState::Connecting {
                    self.state = ConnectionState::Connected;
                    self.last_success_ms = now;
                    self.connected_since_ms = now;
                    RelayAction::KeepReading
                } else {
                    RelayAction::Nothing
                }
            },
            RelayEvent::DialFailed => {
                if self.state == ConnectionState::Connecting {
                    let b = self.backoff_ms;
                    self.failures = if self.failures < u32::MAX { self.failures + 1 } else { self.failures };
                    self.state = ConnectionState::Reconnecting;
                    self.backoff_ms = grow(b, p);
                    RelayAction::RetryAfter(delay(b, jitter))
                } else {
                    RelayAction::Nothing
                }
            },
            RelayEvent::EventReceived => {
                if self.state == ConnectionState::Connected {
                    self.last_success_ms = now;
                    RelayAction::KeepReading
                } else {
                    RelayAction::Nothing
                }
            },
            RelayEvent::StreamFailed => {
                if self.state == ConnectionState::Connected {
                    self.lose(now, jitter, p)
                } else {
                    RelayAction::Nothing
                }
            },
            RelayEvent::HealthCheck => {
                if self.state == ConnectionState::Connected && now >= self.last_success_ms
                    && now - self.last_success_ms >= p.silence_ms {
                    self.lose(now, jitter, p)
                } else {
                    RelayAction::Nothing
                }
            },
        }
    }
}

} // verus!
