//! The per-notification lifecycle: a fourteen-state machine with an explicit
//! transition table, bounded history, timing, retry policy with backoff and a
//! circuit breaker, and per-platform delivery state.

use vstd::prelude::*;

use crate::errors::{NotificationError, NotificationResult};
use crate::identity::{random_u64, CorrelationId};
use crate::platform::{plat_get, plat_lookup, Platform};
use crate::time_wrapper::clock_now_millis;

verus! {

// ---------------------------------------------------------------------------
// States and the transition table
// ---------------------------------------------------------------------------

/// Kinds of errors carried by a failed state.
#[derive(Debug, Clone, Copy, PartialEq, Eq, Structural)]
pub enum ErrorType {
    ValidationError,
    AuthorizationError,
    NetworkError,
    PlatformError,
    TimeoutError,
    ResourceError,
    ConfigurationError,
}

/// What went wrong when a notification failed.  Timestamps are milliseconds
/// since the Unix epoch.
#[derive(Debug, Clone, PartialEq, Eq)]
pub struct ErrorDetails {
    pub error_type: ErrorType,
    pub message: String,
    pub retry_count: u32,
    pub last_attempt: Option<u64>,
    pub platform_errors: Vec<(Platform, String)>,
}

/// Equality of error details up to the identity of the error list's
/// backing vector: every field agrees, the platform errors element for
/// element.
pub open spec fn details_equiv(a: ErrorDetails, b: ErrorDetails) -> bool {
    &&& a.error_type == b.error_type
    &&& a.message == b.message
    &&& a.retry_count == b.retry_count
    &&& a.last_attempt == b.last_attempt
    &&& a.platform_errors@ == b.platform_errors@
}

impl ErrorDetails {
    /// An equivalent copy of the error details.
    pub fn duplicate(&self) -> (r: ErrorDetails)
        ensures
            details_equiv(r, *self),
    {
        let mut platform_errors: Vec<(Platform, String)> = Vec::new();
        let n: usize = self.platform_errors.len();
        let mut i: usize = 0;
        while i < n
            invariant
                n == self.platform_errors@.len(),
                i <= n,
                platform_errors@ == self.platform_errors@.subrange(0, i as int),
            decreases n - i,
        {
            platform_errors.push((self.platform_errors[i].0, self.platform_errors[i].1.clone()));
            i = i + 1;
            proof {
                assert(platform_errors@ =~= self.platform_errors@.subrange(0, i as int));
            }
        }
        proof {
            assert(platform_errors@ =~= self.platform_errors@);
        }
        ErrorDetails {
            error_type: self.error_type,
            message: self.message.clone(),
            retry_count: self.retry_count,
            last_attempt: self.last_attempt,
            platform_errors,
        }
    }
}

/// The states a notification moves through.
#[derive(Debug, Clone, PartialEq, Eq)]
pub enum NotificationState {
    /// Just created.
    Created,
    /// Content validation in progress.
    Validating,
    /// Capability negotiation and routing.
    PlatformRouting,
    /// Queued for delivery.
    Queued,
    /// Delivery in progress.
    Delivering,
    /// Delivered on every target platform.
    Delivered,
    /// Waiting for user interaction.
    InteractionPending,
    /// The user interacted.
    InteractionReceived,
    /// Processing the interaction.
    ProcessingResponse,
    /// Updated with new content.
    Updated,
    /// Cancelled; terminal.
    Cancelled,
    /// Expired; terminal.
    Expired,
    /// Delivery or processing failed.
    Failed(ErrorDetails),
    /// Finished its lifecycle; terminal.
    Completed,
}

impl Default for NotificationState {
    /// `Created`.
    fn default() -> (r: NotificationState)
        ensures
            r is Created,
    {
        NotificationState::Created
    }
}

/// Equality of states up to the identity of a failed state's error list:
/// the same variant, with equivalent error details on `Failed`.
pub open spec fn state_equiv(a: NotificationState, b: NotificationState) -> bool {
    match (a, b) {
        (NotificationState::Failed(d1), NotificationState::Failed(d2)) => details_equiv(d1, d2),
        _ => a == b && !(a is Failed),
    }
}

/// Equivalent states sit identically in the transition table.
pub proof fn lemma_equiv_transition(a: NotificationState, b: NotificationState)
    requires
        state_equiv(a, b),
    ensures
        forall|f: NotificationState| spec_can_transition(f, a) == spec_can_transition(f, b),
        forall|t: NotificationState| spec_can_transition(a, t) == spec_can_transition(b, t),
{
}

impl NotificationState {
    /// An equivalent copy of the state.
    pub fn duplicate(&self) -> (r: NotificationState)
        ensures
            state_equiv(r, *self),
    {
        match self {
            NotificationState::Created => NotificationState::Created,
            NotificationState::Validating => NotificationState::Validating,
            NotificationState::PlatformRouting => NotificationState::PlatformRouting,
            NotificationState::Queued => NotificationState::Queued,
            NotificationState::Delivering => NotificationState::Delivering,
            NotificationState::Delivered => NotificationState::Delivered,
            NotificationState::InteractionPending => NotificationState::InteractionPending,
            NotificationState::InteractionReceived => NotificationState::InteractionReceived,
            NotificationState::ProcessingResponse => NotificationState::ProcessingResponse,
            NotificationState::Updated => NotificationState::Updated,
            NotificationState::Cancelled => NotificationState::Cancelled,
            NotificationState::Expired => NotificationState::Expired,
            NotificationState::Failed(d) => NotificationState::Failed(d.duplicate()),
            NotificationState::Completed => NotificationState::Completed,
        }
    }
}

/// The transition table: exactly the pairs a notification may move along.
/// The payload of a `Failed` state plays no part.
pub open spec fn spec_can_transition(from: NotificationState, to: NotificationState) -> bool {
    match from {
        NotificationState::Created => to is Validating || to is Cancelled,
        NotificationState::Validating => to is PlatformRouting || to is Failed
            || to is Cancelled,
        NotificationState::PlatformRouting => to is Queued || to is Delivering || to is Failed
            || to is Cancelled,
        NotificationState::Queued => to is Delivering || to is Expired || to is Cancelled,
        NotificationState::Delivering => to is Delivered || to is Failed || to is Expired
            || to is Cancelled,
        NotificationState::Delivered => to is InteractionPending || to is InteractionReceived
            || to is Updated || to is Expired || to is Completed,
        NotificationState::InteractionPending => to is InteractionReceived
            || to is ProcessingResponse || to is Expired,
        NotificationState::InteractionReceived => to is ProcessingResponse || to is Completed,
        NotificationState::ProcessingResponse => to is InteractionPending || to is Completed
            || to is Failed,
        NotificationState::Updated => to is Delivering || to is InteractionPending
            || to is Completed,
        NotificationState::Failed(_) => to is Validating || to is PlatformRouting
            || to is Delivering || to is Cancelled,
        NotificationState::Cancelled => false,
        NotificationState::Expired => false,
        NotificationState::Completed => false,
    }
}

impl NotificationState {
    /// Whether the table permits moving from this state to `target`.
    pub fn can_transition_to(&self, target: &NotificationState) -> (r: bool)
        ensures
            r == spec_can_transition(*self, *target),
    {
        match self {
            NotificationState::Created => match target {
                NotificationState::Validating | NotificationState::Cancelled => true,
                _ => false,
            },
            NotificationState::Validating => match target {
                NotificationState::PlatformRouting | NotificationState::Failed(_)
                    | NotificationState::Cancelled => true,
                _ => false,
            },
            NotificationState::PlatformRouting => match target {
                NotificationState::Queued | NotificationState::Delivering
                    | NotificationState::Failed(_) | NotificationState::Cancelled => true,
                _ => false,
            },
            NotificationState::Queued => match target {
                NotificationState::Delivering | NotificationState::Expired
                    | NotificationState::Cancelled => true,
                _ => false,
            },
            NotificationState::Delivering => match target {
                NotificationState::Delivered | NotificationState::Failed(_)
                    | NotificationState::Expired | NotificationState::Cancelled => true,
                _ => false,
            },
            NotificationState::Delivered => match target {
                NotificationState::InteractionPending | NotificationState::InteractionReceived
                    | NotificationState::Updated | NotificationState::Expired
                    | NotificationState::Completed => true,
                _ => false,
            },
            NotificationState::InteractionPending => match target {
                NotificationState::InteractionReceived | NotificationState::ProcessingResponse
                    | NotificationState::Expired => true,
                _ => false,
            },
            NotificationState::InteractionReceived => match target {
                NotificationState::ProcessingResponse | NotificationState::Completed => true,
                _ => false,
            },
            NotificationState::ProcessingResponse => match target {
                NotificationState::InteractionPending | NotificationState::Completed
                    | NotificationState::Failed(_) => true,
                _ => false,
            },
            NotificationState::Updated => match target {
                NotificationState::Delivering | NotificationState::InteractionPending
                    | NotificationState::Completed => true,
                _ => false,
            },
            NotificationState::Failed(_) => match target {
                NotificationState::Validating | NotificationState::PlatformRouting
                    | NotificationState::Delivering | NotificationState::Cancelled => true,
                _ => false,
            },
            NotificationState::Cancelled => false,
            NotificationState::Expired => false,
            NotificationState::Completed => false,
        }
    }

    /// Whether this state is terminal: no transition leaves it.
    pub fn is_terminal(&self) -> (r: bool)
        ensures
            r == (*self is Cancelled || *self is Expired || *self is Completed),
    {
        match self {
            NotificationState::Cancelled | NotificationState::Expired
                | NotificationState::Completed => true,
            _ => false,
        }
    }

    /// Whether this state indicates success.
    pub fn is_successful(&self) -> (r: bool)
        ensures
            r == (*self is Delivered || *self is InteractionReceived || *self is Completed),
    {
        match self {
            NotificationState::Delivered | NotificationState::InteractionReceived
                | NotificationState::Completed => true,
            _ => false,
        }
    }

    /// Whether this state indicates failure.
    pub fn is_failed(&self) -> (r: bool)
        ensures
            r == (*self is Failed),
    {
        match self {
            NotificationState::Failed(_) => true,
            _ => false,
        }
    }
}

/// A terminal state admits no outgoing transition at all.
pub proof fn lemma_terminal_states_final(from: NotificationState, to: NotificationState)
    ensures
        (from is Cancelled || from is Expired || from is Completed) ==> !spec_can_transition(
            from,
            to,
        ),
{
}

// ---------------------------------------------------------------------------
// Transitions and history
// ---------------------------------------------------------------------------

/// Why a transition happened.
#[derive(Debug, Clone, Copy, PartialEq, Eq, Structural)]
pub enum TransitionReason {
    Initial,
    ValidationCompleted,
    ValidationFailed,
    PlatformCapabilitiesResolved,
    QueuedByAttentionManager,
    DeliveryStarted,
    DeliveryCompleted,
    DeliveryFailed,
    UserInteraction,
    Timeout,
    Cancellation,
    Expiration,
    Retry,
    Update,
    SystemEvent,
}

impl Default for TransitionReason {
    /// `Initial`.
    fn default() -> (r: TransitionReason)
        ensures
            r is Initial,
    {
        TransitionReason::Initial
    }
}

/// One recorded transition.  The timestamp is milliseconds since the epoch.
#[derive(Debug, Clone, PartialEq, Eq)]
pub struct StateTransition {
    pub from_state: Option<NotificationState>,
    pub to_state: NotificationState,
    pub timestamp: u64,
    pub reason: TransitionReason,
    pub correlation_id: Option<CorrelationId>,
}

/// The most entries the history ring keeps.
pub const HISTORY_LIMIT: usize = 100;

/// A well-formed history: non-empty, within the ring bound, opening with the
/// creation entry, and every later entry a pair the table permits.
pub open spec fn history_wf(h: Seq<StateTransition>) -> bool {
    &&& h.len() >= 1
    &&& h.len() <= HISTORY_LIMIT
    &&& h[0].from_state is None
    &&& h[0].to_state is Created
    &&& forall|k: int|
        1 <= k < h.len() ==> {
            &&& (#[trigger] h[k]).from_state is Some
            &&& spec_can_transition(h[k].from_state->0, h[k].to_state)
        }
}

// ---------------------------------------------------------------------------
// Timing
// ---------------------------------------------------------------------------

/// When the notification reached each stage, in milliseconds since the
/// epoch; durations in milliseconds.
#[derive(Debug, Clone, PartialEq, Eq, Structural)]
pub struct NotificationTiming {
    pub created_at: u64,
    pub validation_started: Option<u64>,
    pub validation_duration: Option<u64>,
    pub platform_routing_started: Option<u64>,
    pub queued_at: Option<u64>,
    pub queue_duration: Option<u64>,
    pub delivery_started: Option<u64>,
    pub delivery_duration: Option<u64>,
    pub delivered_at: Option<u64>,
    pub last_interaction: Option<u64>,
    pub failed_at: Option<u64>,
    pub expired_at: Option<u64>,
    pub total_processing_time: Option<u64>,
}

impl NotificationTiming {
    /// Timing for a notification created at `created_at`.
    pub fn new(created_at: u64) -> (r: NotificationTiming)
        ensures
            r.created_at == created_at,
            r.queued_at is None,
            r.delivery_started is None,
            r.delivered_at is None,
    {
        NotificationTiming {
            created_at,
            validation_started: None,
            validation_duration: None,
            platform_routing_started: None,
            queued_at: None,
            queue_duration: None,
            delivery_started: None,
            delivery_duration: None,
            delivered_at: None,
            last_interaction: None,
            failed_at: None,
            expired_at: None,
            total_processing_time: None,
        }
    }

    /// Fill derived durations that have become measurable: how long the
    /// notification has been queued, how long validation took once routing
    /// or delivery started, and the delivery duration once delivered.
    pub fn update(&mut self)
        ensures
            final(self).created_at == old(self).created_at,
            final(self).queued_at == old(self).queued_at,
            final(self).delivery_started == old(self).delivery_started,
            final(self).delivered_at == old(self).delivered_at,
            old(self).queued_at is Some && old(self).queue_duration is None
                ==> final(self).queue_duration is Some,
            old(self).queue_duration is Some
                ==> final(self).queue_duration == old(self).queue_duration,
    {
        let now: u64 = clock_now_millis();
        match (self.queued_at, self.queue_duration) {
            (Some(queued_at), None) => {
                self.queue_duration = Some(now.saturating_sub(queued_at));
            },
            _ => {},
        }
        match (self.validation_started, self.validation_duration) {
            (Some(validation_start), None) => {
                if self.platform_routing_started.is_some() || self.delivery_started.is_some() {
                    self.validation_duration = Some(now.saturating_sub(validation_start));
                }
            },
            _ => {},
        }
        match (self.delivery_started, self.delivery_duration) {
            (Some(delivery_start), None) => {
                if self.delivered_at.is_some() {
                    self.delivery_duration = Some(now.saturating_sub(delivery_start));
                    self.total_processing_time = Some(now.saturating_sub(self.created_at));
                }
            },
            _ => {},
        }
    }

    /// Milliseconds spent in the current state, measured from the stage
    /// timestamp that state corresponds to (creation when none applies).
    pub fn time_in_current_state(&self, current_state: &NotificationState) -> u64 {
        let now: u64 = clock_now_millis();
        let anchor: u64 = match current_state {
            NotificationState::Validating => match self.validation_started {
                Some(t) => t,
                None => now,
            },
            NotificationState::PlatformRouting => match self.platform_routing_started {
                Some(t) => t,
                None => now,
            },
            NotificationState::Queued => match self.queued_at {
                Some(t) => t,
                None => now,
            },
            NotificationState::Delivering => match self.delivery_started {
                Some(t) => t,
                None => now,
            },
            _ => self.created_at,
        };
        now.saturating_sub(anchor)
    }
}

// ---------------------------------------------------------------------------
// Retry policy
// ---------------------------------------------------------------------------

/// How retry delays grow.  All times in milliseconds; the multiplier is an
/// integer factor and the jitter a fraction in thousandths.
#[derive(Debug, Clone, PartialEq, Eq, Structural)]
pub enum BackoffStrategy {
    /// The same delay every time.
    Fixed(u64),
    /// A linear ramp capped at `max_delay`.
    Linear { base_delay: u64, increment: u64, max_delay: u64 },
    /// Exponential growth with uniform jitter, capped at `max_delay`.
    ExponentialWithJitter { base_delay: u64, max_delay: u64, multiplier: u32, jitter_permille: u32 },
}

/// `base * multiplier^attempt`, saturating.
pub open spec fn spec_exponential(base: u64, multiplier: u32, attempt: nat) -> int
    decreases attempt,
{
    if attempt == 0 {
        base as int
    } else {
        spec_exponential(base, multiplier, (attempt - 1) as nat) * multiplier as int
    }
}

/// The delay a strategy yields for `attempt` given the random draw `rnd`:
/// fixed delays verbatim, linear ramps capped, and for exponential backoff
/// the exponential delay displaced by at most the jitter fraction and
/// clamped to `[0, max_delay]`.
pub open spec fn spec_backoff_delay(s: BackoffStrategy, attempt: u32, rnd: u64) -> int {
    match s {
        BackoffStrategy::Fixed(d) => d as int,
        BackoffStrategy::Linear { base_delay, increment, max_delay } => {
            let raw = base_delay + increment * attempt;
            if raw > max_delay as int {
                max_delay as int
            } else {
                raw
            }
        },
        BackoffStrategy::ExponentialWithJitter { base_delay, max_delay, multiplier, jitter_permille } => {
            let exp0 = spec_exponential(base_delay, multiplier, attempt as nat);
            let exp = if exp0 > max_delay as int {
                max_delay as int
            } else {
                exp0
            };
            let jitter_span = exp * jitter_permille as int / 1000;
            let noise = (rnd as int % (2 * jitter_span + 1)) - jitter_span;
            let jittered = exp + noise;
            if jittered < 0 {
                0
            } else if jittered > max_delay as int {
                max_delay as int
            } else {
                jittered
            }
        },
    }
}

impl BackoffStrategy {
    /// The delay for `attempt` computed from the random draw `rnd`.
    pub fn calculate_delay_with(&self, attempt: u32, rnd: u64) -> (r: u64)
        ensures
            r as int == spec_backoff_delay(*self, attempt, rnd),
    {
        match self {
            BackoffStrategy::Fixed(d) => *d,
            BackoffStrategy::Linear { base_delay, increment, max_delay } => {
                let stepped: u64 = match increment.checked_mul(attempt as u64) {
                    Some(x) => x,
                    None => {
                        proof {
                            assert(base_delay + increment * attempt as int
                                > max_delay as int) by (nonlinear_arith)
                                requires
                                    increment * attempt as int > u64::MAX,
                                    max_delay <= u64::MAX,
                                    base_delay >= 0,
                            ;
                        }
                        return *max_delay;
                    },
                };
                let raw: u64 = match base_delay.checked_add(stepped) {
                    Some(x) => x,
                    None => {
                        return *max_delay;
                    },
                };
                if raw > *max_delay {
                    *max_delay
                } else {
                    raw
                }
            },
            BackoffStrategy::ExponentialWithJitter {
                base_delay,
                max_delay,
                multiplier,
                jitter_permille,
            } => {
                // base * multiplier^attempt, capped at max_delay.
                let mut exp: u64 = *base_delay;
                let mut k: u32 = 0;
                let mut capped: bool = false;
                while k < attempt
                    invariant
                        k <= attempt,
                        !capped ==> exp as int == spec_exponential(
                            *base_delay,
                            *multiplier,
                            k as nat,
                        ),
                        capped ==> exp == *max_delay && spec_exponential(
                            *base_delay,
                            *multiplier,
                            k as nat,
                        ) > max_delay as int,
                        capped ==> *multiplier >= 1,
                    decreases attempt - k,
                {
                    proof {
                        lemma_exponential_monotone_step(*base_delay, *multiplier, k as nat);
                    }
                    if !capped {
                        match exp.checked_mul(*multiplier as u64) {
                            Some(x) => {
                                if x > *max_delay {
                                    exp = *max_delay;
                                    capped = true;
                                } else {
                                    exp = x;
                                }
                            },
                            None => {
                                exp = *max_delay;
                                capped = true;
                            },
                        }
                    } else {
                        proof {
                            lemma_exponential_capped_step(
                                *base_delay,
                                *multiplier,
                                k as nat,
                                *max_delay as int,
                            );
                        }
                    }
                    k = k + 1;
                }
                let exp_final: u64 = if exp > *max_delay {
                    *max_delay
                } else {
                    exp
                };
                proof {
                    assert(exp_final as int == {
                        let exp0 = spec_exponential(*base_delay, *multiplier, attempt as nat);
                        if exp0 > *max_delay as int {
                            *max_delay as int
                        } else {
                            exp0
                        }
                    });
                }
                // Displace by up to the jitter fraction, clamp to the cap.
                proof {
                    assert((exp_final as int) * (*jitter_permille as int) < 0x1_0000_0000_0000_0000
                        * 0x1_0000_0000) by (nonlinear_arith)
                        requires
                            0 <= (exp_final as int),
                            (exp_final as int) < 0x1_0000_0000_0000_0000,
                            0 <= ((*jitter_permille) as int),
                            ((*jitter_permille) as int) < 0x1_0000_0000,
                    ;
                }
                let jitter_span: u128 = (exp_final as u128) * (*jitter_permille as u128) / 1000;
                let span_mod: u128 = 2 * jitter_span + 1;
                let noise_raw: u128 = (rnd as u128) % span_mod;
                let jittered: i128 = exp_final as i128 + noise_raw as i128 - jitter_span as i128;
                proof {
                    assert(jitter_span as int == exp_final as int * (*jitter_permille as int)
                        / 1000);
                    assert(span_mod as int == 2 * jitter_span as int + 1);
                }
                let clamped: u64 = if jittered < 0 {
                    0
                } else if jittered > *max_delay as i128 {
                    *max_delay
                } else {
                    jittered as u64
                };
                clamped
            },
        }
    }
}

/// One more multiplication never shrinks the exponential when the factor is
/// at least one; with factor zero it collapses to zero.
proof fn lemma_exponential_monotone_step(base: u64, multiplier: u32, k: nat)
    ensures
        multiplier >= 1 ==> spec_exponential(base, multiplier, k + 1) >= spec_exponential(
            base,
            multiplier,
            k,
        ),
        spec_exponential(base, multiplier, k + 1) == spec_exponential(base, multiplier, k)
            * multiplier as int,
        spec_exponential(base, multiplier, k) >= 0,
    decreases k,
{
    if k > 0 {
        lemma_exponential_monotone_step(base, multiplier, (k - 1) as nat);
    }
    assert(spec_exponential(base, multiplier, k) >= 0) by {
        lemma_exponential_nonneg(base, multiplier, k);
    }
    if multiplier >= 1 {
        assert(spec_exponential(base, multiplier, k) * multiplier as int >= spec_exponential(
            base,
            multiplier,
            k,
        )) by (nonlinear_arith)
            requires
                spec_exponential(base, multiplier, k) >= 0,
                multiplier >= 1,
        ;
    }
}

proof fn lemma_exponential_nonneg(base: u64, multiplier: u32, k: nat)
    ensures
        spec_exponential(base, multiplier, k) >= 0,
    decreases k,
{
    if k > 0 {
        lemma_exponential_nonneg(base, multiplier, (k - 1) as nat);
        assert(spec_exponential(base, multiplier, k) == spec_exponential(
            base,
            multiplier,
            (k - 1) as nat,
        ) * multiplier as int);
        assert(spec_exponential(base, multiplier, (k - 1) as nat) * multiplier as int
            >= 0) by (nonlinear_arith)
            requires
                spec_exponential(base, multiplier, (k - 1) as nat) >= 0,
                multiplier >= 0,
        ;
    }
}

/// Once the exponential exceeds a cap it stays above it, provided the
/// factor is at least one.
proof fn lemma_exponential_capped_step(base: u64, multiplier: u32, k: nat, cap: int)
    requires
        spec_exponential(base, multiplier, k) > cap,
        cap >= 0,
    ensures
        multiplier >= 1 ==> spec_exponential(base, multiplier, k + 1) > cap,
        multiplier == 0 ==> spec_exponential(base, multiplier, k + 1) == 0,
{
    lemma_exponential_monotone_step(base, multiplier, k);
}

/// The circuit breaker's states.
#[derive(Debug, Clone, Copy, PartialEq, Eq, Structural)]
pub enum CircuitBreakerState {
    /// Normal operation.
    Closed,
    /// Failing fast; retries suppressed.
    Open,
    /// Probing whether the fault has cleared.
    HalfOpen,
}

/// Retry policy and failure tracking.  Times in milliseconds.
#[derive(Debug, Clone)]
pub struct RetryPolicy {
    pub max_attempts: u32,
    pub current_attempt: u32,
    pub backoff_strategy: BackoffStrategy,
    pub circuit_breaker_state: CircuitBreakerState,
    pub circuit_breaker_threshold: u32,
    pub circuit_breaker_opened_at: Option<u64>,
    pub circuit_breaker_timeout_millis: u64,
    pub consecutive_failures: u32,
    pub last_error: Option<NotificationError>,
    pub last_attempt: Option<u64>,
}

/// A well-formed retry policy: the attempt counter never passes the bound
/// and an open breaker remembers when it opened.
pub open spec fn retry_policy_wf(p: RetryPolicy) -> bool {
    &&& p.current_attempt <= p.max_attempts
    &&& (p.circuit_breaker_state is Open ==> p.circuit_breaker_opened_at is Some)
}

impl Default for RetryPolicy {
    /// Three attempts; exponential backoff from 100 ms to 30 s with factor
    /// two and ten percent jitter; the breaker opens after five consecutive
    /// failures and holds for five minutes.
    fn default() -> (r: RetryPolicy)
        ensures
            r.max_attempts == 3,
            r.current_attempt == 0,
            r.backoff_strategy == (BackoffStrategy::ExponentialWithJitter {
                base_delay: 100u64,
                max_delay: 30000u64,
                multiplier: 2u32,
                jitter_permille: 100u32,
            }),
            r.circuit_breaker_state is Closed,
            r.circuit_breaker_threshold == 5,
            r.circuit_breaker_opened_at is None,
            r.circuit_breaker_timeout_millis == 300000,
            r.consecutive_failures == 0,
            retry_policy_wf(r),
    {
        RetryPolicy {
            max_attempts: 3,
            current_attempt: 0,
            backoff_strategy: BackoffStrategy::ExponentialWithJitter {
                base_delay: 100,
                max_delay: 30000,
                multiplier: 2,
                jitter_permille: 100,
            },
            circuit_breaker_state: CircuitBreakerState::Closed,
            circuit_breaker_threshold: 5,
            circuit_breaker_opened_at: None,
            circuit_breaker_timeout_millis: 300000,
            consecutive_failures: 0,
            last_error: None,
            last_attempt: None,
        }
    }
}

impl RetryPolicy {
    /// The delay before the given attempt, drawn with fresh jitter.  It
    /// never exceeds the strategy's cap.
    pub fn calculate_next_delay(&self, attempt: u32) -> (r: u64)
        ensures
            exists|rnd: u64| r as int == spec_backoff_delay(self.backoff_strategy, attempt, rnd),
    {
        let rnd: u64 = random_u64();
        let r: u64 = self.backoff_strategy.calculate_delay_with(attempt, rnd);
        proof {
            assert(r as int == spec_backoff_delay(self.backoff_strategy, attempt, rnd));
        }
        r
    }

    /// Whether the breaker admits a retry now: yes when closed or half-open;
    /// an open breaker flips to half-open once its timeout has elapsed.
    pub fn should_retry_circuit_breaker(&mut self) -> (r: bool)
        ensures
            old(self).circuit_breaker_state is Closed ==> r && *final(self) == *old(self),
            old(self).circuit_breaker_state is HalfOpen ==> r && *final(self) == *old(self),
            old(self).circuit_breaker_state is Open && old(self).circuit_breaker_opened_at
                is None ==> !r && *final(self) == *old(self),
            final(self).max_attempts == old(self).max_attempts,
            final(self).current_attempt == old(self).current_attempt,
            final(self).consecutive_failures == old(self).consecutive_failures,
    {
        match self.circuit_breaker_state {
            CircuitBreakerState::Closed => true,
            CircuitBreakerState::Open => {
                match self.circuit_breaker_opened_at {
                    Some(opened_at) => {
                        let now: u64 = clock_now_millis();
                        if now.saturating_sub(opened_at) >= self.circuit_breaker_timeout_millis {
                            self.circuit_breaker_state = CircuitBreakerState::HalfOpen;
                            true
                        } else {
                            false
                        }
                    },
                    None => false,
                }
            },
            CircuitBreakerState::HalfOpen => true,
        }
    }

    /// Record that the next attempt has been scheduled: stamp the time, move
    /// an open breaker whose timeout elapsed to half-open, and close a
    /// half-open breaker (a retry being scheduled means the probe may run),
    /// resetting the failure count.
    pub fn schedule_next_attempt(&mut self, _delay_millis: u64)
        ensures
            final(self).last_attempt is Some,
            final(self).max_attempts == old(self).max_attempts,
            final(self).current_attempt == old(self).current_attempt,
            final(self).backoff_strategy == old(self).backoff_strategy,
            final(self).circuit_breaker_state is HalfOpen ==> final(self).circuit_breaker_state
                is HalfOpen,
            old(self).circuit_breaker_state is Closed ==> final(self).circuit_breaker_state
                is Closed && final(self).consecutive_failures == old(self).consecutive_failures,
            retry_policy_wf(*old(self)) ==> retry_policy_wf(*final(self)),
    {
        let now: u64 = clock_now_millis();
        self.last_attempt = Some(now);
        match (self.circuit_breaker_state, self.circuit_breaker_opened_at) {
            (CircuitBreakerState::Open, Some(opened_at)) => {
                if now.saturating_sub(opened_at) >= self.circuit_breaker_timeout_millis {
                    self.circuit_breaker_state = CircuitBreakerState::HalfOpen;
                }
            },
            _ => {},
        }
        match self.circuit_breaker_state {
            CircuitBreakerState::HalfOpen => {
                self.circuit_breaker_state = CircuitBreakerState::Closed;
                self.consecutive_failures = 0;
                self.circuit_breaker_opened_at = None;
            },
            _ => {},
        }
    }
}

// ---------------------------------------------------------------------------
// Expiration, receipts and per-platform delivery state
// ---------------------------------------------------------------------------

/// When a notification stops being worth delivering.  Times in milliseconds.
#[derive(Debug, Clone, PartialEq, Eq, Structural)]
pub struct ExpirationPolicy {
    /// Time to live from creation.
    pub ttl_millis: Option<u64>,
    /// Absolute expiry, milliseconds since the epoch.
    pub expires_at: Option<u64>,
    /// The longest a delivery may run.
    pub delivery_timeout_millis: u64,
    /// The longest to wait for user interaction.
    pub interaction_timeout_millis: u64,
    /// Whether to clean up when expired.
    pub cleanup_on_expiry: bool,
}

impl Default for ExpirationPolicy {
    /// One hour to live, thirty seconds to deliver, ten minutes to interact.
    fn default() -> (r: ExpirationPolicy)
        ensures
            r.ttl_millis == Some(3600000u64),
            r.expires_at is None,
            r.delivery_timeout_millis == 30000,
            r.interaction_timeout_millis == 600000,
            r.cleanup_on_expiry,
    {
        ExpirationPolicy {
            ttl_millis: Some(3600000),
            expires_at: None,
            delivery_timeout_millis: 30000,
            interaction_timeout_millis: 600000,
            cleanup_on_expiry: true,
        }
    }
}

/// Receipt of one successful native delivery.
#[derive(Debug, Clone, PartialEq, Eq)]
pub struct DeliveryReceipt {
    pub platform: Platform,
    pub native_id: String,
    /// Milliseconds since the epoch.
    pub delivered_at: u64,
    pub delivery_latency_millis: u64,
    pub receipt_id: String,
    pub metadata: Vec<(String, String)>,
}

impl Default for DeliveryReceipt {
    /// An empty receipt stamped now.
    fn default() -> DeliveryReceipt {
        DeliveryReceipt {
            platform: Platform::MacOS,
            native_id: String::new(),
            delivered_at: clock_now_millis(),
            delivery_latency_millis: 0,
            receipt_id: String::new(),
            metadata: Vec::new(),
        }
    }
}

/// The outcome of one delivery attempt.
#[derive(Debug, Clone)]
pub enum DeliveryAttemptResult {
    Success(DeliveryReceipt),
    Failure(NotificationError),
}

/// Where one platform's delivery stands.
#[derive(Debug, Clone, PartialEq, Eq)]
pub enum PlatformDeliveryStatus {
    Pending,
    InProgress,
    Delivered,
    Failed(String),
    Cancelled,
}

/// A platform API error.
#[derive(Debug, Clone, PartialEq, Eq)]
pub struct PlatformError {
    pub error_code: Option<i32>,
    pub error_message: String,
    pub retry_after_millis: Option<u64>,
    pub is_permanent: bool,
}

/// One platform's delivery state.
#[derive(Debug, Clone, PartialEq, Eq)]
pub struct PlatformDeliveryState {
    pub platform: Platform,
    pub status: PlatformDeliveryStatus,
    pub native_id: Option<String>,
    pub attempt_count: u32,
    /// Milliseconds since the epoch.
    pub last_attempt: Option<u64>,
    pub delivery_latency_millis: Option<u64>,
    pub error_details: Option<PlatformError>,
}

/// Delivery progress over all platforms.
#[derive(Debug, Clone, PartialEq, Eq)]
pub enum DeliveryProgress {
    NotStarted,
    InProgress,
    PartiallyComplete { successful: usize, total: usize },
    Completed,
    Failed,
}

// ---------------------------------------------------------------------------
// Performance metrics
// ---------------------------------------------------------------------------

/// One recorded transition, for metrics.
#[derive(Debug, Clone, PartialEq, Eq)]
pub struct StateTransitionMetric {
    pub from_state: NotificationState,
    pub to_state: NotificationState,
    pub timestamp: u64,
    pub duration_in_previous_state: Option<u64>,
}

/// Per-platform performance numbers.  Rates in thousandths.
#[derive(Debug, Clone, PartialEq, Eq)]
pub struct PlatformMetrics {
    pub delivery_latency_millis: Option<u64>,
    pub success_rate_permille: u32,
    pub error_count: u32,
    pub retry_count: u32,
    pub last_error: Option<String>,
}

/// Whole-notification performance numbers.  Rates in thousandths.
#[derive(Debug, Clone, PartialEq, Eq, Structural)]
pub struct OverallMetrics {
    pub total_state_transitions: u64,
    pub average_processing_time_millis: Option<u64>,
    pub success_rate_permille: u32,
    pub error_rate_permille: u32,
    pub retry_rate_permille: u32,
}

impl Default for OverallMetrics {
    /// All zero.
    fn default() -> (r: OverallMetrics)
        ensures
            r.total_state_transitions == 0,
            r.average_processing_time_millis is None,
    {
        OverallMetrics {
            total_state_transitions: 0,
            average_processing_time_millis: None,
            success_rate_permille: 0,
            error_rate_permille: 0,
            retry_rate_permille: 0,
        }
    }
}

/// Performance data collected for one notification.
#[derive(Debug, Clone)]
pub struct PerformanceMetrics {
    pub state_transitions: Vec<StateTransitionMetric>,
    pub platform_metrics: Vec<(Platform, PlatformMetrics)>,
    pub overall_metrics: OverallMetrics,
}

impl PerformanceMetrics {
    /// Empty metrics.
    pub fn new() -> (r: PerformanceMetrics)
        ensures
            r.state_transitions@.len() == 0,
            r.platform_metrics@.len() == 0,
            r.overall_metrics.total_state_transitions == 0,
    {
        PerformanceMetrics {
            state_transitions: Vec::new(),
            platform_metrics: Vec::new(),
            overall_metrics: OverallMetrics::default(),
        }
    }

    /// Record one state transition: fill the previous entry's dwell time,
    /// append the new one and bump the counter.
    pub fn record_state_transition(
        &mut self,
        from_state: &NotificationState,
        to_state: &NotificationState,
        timestamp: u64,
    )
        ensures
            final(self).state_transitions@.len() == old(self).state_transitions@.len() + 1,
            state_equiv(final(self).state_transitions@.last().from_state, *from_state),
            state_equiv(final(self).state_transitions@.last().to_state, *to_state),
            final(self).state_transitions@.last().timestamp == timestamp,
            final(self).overall_metrics.total_state_transitions == (
            if old(self).overall_metrics.total_state_transitions < u64::MAX {
                old(self).overall_metrics.total_state_transitions + 1
            } else {
                u64::MAX as int
            }),
            final(self).platform_metrics == old(self).platform_metrics,
    {
        let transition: StateTransitionMetric = StateTransitionMetric {
            from_state: from_state.duplicate(),
            to_state: to_state.duplicate(),
            timestamp,
            duration_in_previous_state: None,
        };
        let n: usize = self.state_transitions.len();
        if n > 0 {
            let previous_ts: u64 = self.state_transitions[n - 1].timestamp;
            let updated: StateTransitionMetric = StateTransitionMetric {
                from_state: self.state_transitions[n - 1].from_state.duplicate(),
                to_state: self.state_transitions[n - 1].to_state.duplicate(),
                timestamp: previous_ts,
                duration_in_previous_state: Some(timestamp.saturating_sub(previous_ts)),
            };
            self.state_transitions.set(n - 1, updated);
        }
        self.state_transitions.push(transition);
        self.overall_metrics.total_state_transitions =
            if self.overall_metrics.total_state_transitions < u64::MAX {
            self.overall_metrics.total_state_transitions + 1
        } else {
            u64::MAX
        };
    }

    /// Record one platform's metrics.
    pub fn record_platform_metrics(&mut self, platform: Platform, metrics: PlatformMetrics)
        ensures
            plat_get(final(self).platform_metrics@, platform) == Some(metrics),
    {
        crate::platform::plat_upsert(&mut self.platform_metrics, platform, metrics);
    }
}

impl Default for PerformanceMetrics {
    /// Empty metrics.
    fn default() -> (r: PerformanceMetrics)
        ensures
            r.state_transitions@.len() == 0,
    {
        PerformanceMetrics::new()
    }
}

// ---------------------------------------------------------------------------
// The lifecycle record
// ---------------------------------------------------------------------------

/// The full lifecycle of one notification: its state, per-platform delivery
/// states, timing, retry policy, expiration policy, receipt, bounded history
/// and metrics.
#[derive(Debug, Clone)]
pub struct NotificationLifecycle {
    /// The current state.
    pub state: NotificationState,
    /// Per-platform delivery state; at most one entry per platform.
    pub platform_states: Vec<(Platform, PlatformDeliveryState)>,
    /// Timing of the stages reached so far.
    pub timing: NotificationTiming,
    /// Retry policy and attempt tracking.
    pub retry_policy: RetryPolicy,
    /// Expiration policy.
    pub expiration: ExpirationPolicy,
    /// The delivery receipt, once one arrived.
    pub delivery_receipt: Option<DeliveryReceipt>,
    /// The transition history ring.
    pub state_history: Vec<StateTransition>,
    /// Collected metrics.
    pub performance_metrics: PerformanceMetrics,
}

impl NotificationLifecycle {
    /// Well-formedness: the history is a valid ring and the retry policy is
    /// within its bounds.
    pub open spec fn wf(self) -> bool {
        &&& history_wf(self.state_history@)
        &&& retry_policy_wf(self.retry_policy)
    }

    /// A fresh lifecycle in `Created`, with the creation entry as the whole
    /// history.
    pub fn new() -> (r: NotificationLifecycle)
        ensures
            r.state is Created,
            r.state_history@.len() == 1,
            r.state_history@[0].from_state is None,
            r.state_history@[0].to_state is Created,
            r.state_history@[0].reason is Initial,
            r.state_history@[0].correlation_id is None,
            r.platform_states@.len() == 0,
            r.retry_policy.current_attempt == 0,
            r.retry_policy.max_attempts == 3,
            r.retry_policy.circuit_breaker_state is Closed,
            r.retry_policy.consecutive_failures == 0,
            r.retry_policy.circuit_breaker_threshold == 5,
            r.retry_policy.circuit_breaker_timeout_millis == 300000,
            r.expiration.ttl_millis == Some(3600000u64),
            r.expiration.delivery_timeout_millis == 30000,
            r.expiration.interaction_timeout_millis == 600000,
            r.timing.queued_at is None,
            r.timing.delivery_started is None,
            r.timing.delivered_at is None,
            r.delivery_receipt is None,
            r.performance_metrics.state_transitions@.len() == 0,
            r.wf(),
    {
        let now: u64 = clock_now_millis();
        let mut state_history: Vec<StateTransition> = Vec::new();
        state_history.push(
            StateTransition {
                from_state: None,
                to_state: NotificationState::Created,
                timestamp: now,
                reason: TransitionReason::Initial,
                correlation_id: None,
            },
        );
        NotificationLifecycle {
            state: NotificationState::Created,
            platform_states: Vec::new(),
            timing: NotificationTiming::new(now),
            retry_policy: RetryPolicy::default(),
            expiration: ExpirationPolicy::default(),
            delivery_receipt: None,
            state_history,
            performance_metrics: PerformanceMetrics::new(),
        }
    }

    /// Refresh the derived timing durations.  The stage timestamps the
    /// expiry rules read are untouched, so whether the notification is
    /// expired at any instant does not change.
    pub fn update_timing(&mut self)
        ensures
            final(self).state == old(self).state,
            final(self).platform_states == old(self).platform_states,
            final(self).state_history == old(self).state_history,
            final(self).retry_policy == old(self).retry_policy,
            final(self).expiration == old(self).expiration,
            final(self).timing.created_at == old(self).timing.created_at,
            final(self).timing.queued_at == old(self).timing.queued_at,
            final(self).timing.delivery_started == old(self).timing.delivery_started,
            final(self).timing.delivered_at == old(self).timing.delivered_at,
            forall|now: u64|
                final(self).spec_expired_at(now) == old(self).spec_expired_at(now),
            old(self).wf() ==> final(self).wf(),
    {
        self.timing.update();
    }

    /// Record that a retry was scheduled after the given delay.
    pub fn schedule_retry(&mut self, delay_millis: u64)
        ensures
            final(self).state == old(self).state,
            final(self).platform_states == old(self).platform_states,
            final(self).state_history == old(self).state_history,
            final(self).retry_policy.current_attempt == old(self).retry_policy.current_attempt,
            final(self).retry_policy.max_attempts == old(self).retry_policy.max_attempts,
            final(self).retry_policy.backoff_strategy == old(self).retry_policy.backoff_strategy,
            final(self).retry_policy.last_attempt is Some,
            old(self).wf() ==> final(self).wf(),
    {
        self.retry_policy.schedule_next_attempt(delay_millis);
    }

    /// Move to `new_state` if the transition table permits it; otherwise
    /// fail and change nothing.  An accepted transition appends to the
    /// history an entry carrying the old state, the new state, the reason
    /// and the correlation id, stamps the matching timing field, and counts
    /// the transition in the metrics.
    pub fn transition_to(
        &mut self,
        new_state: NotificationState,
        reason: TransitionReason,
        correlation_id: Option<CorrelationId>,
    ) -> (r: NotificationResult<()>)
        requires
            old(self).wf(),
        ensures
            final(self).wf(),
            r is Ok <==> spec_can_transition(old(self).state, new_state),
            r is Err ==> *final(self) == *old(self) && (r matches Err(
                NotificationError::ValidationError { field, .. },
            ) && field@ == "state_transition"@),
            r is Ok ==> {
                &&& final(self).state == new_state
                &&& final(self).state_history@.len() >= 2
                // Exactly one entry is appended.  Below the ring bound the
                // prior history is kept whole; at the bound the oldest
                // non-initial entry is evicted and the creation entry kept.
                &&& (old(self).state_history@.len() < HISTORY_LIMIT ==> {
                    &&& final(self).state_history@.len() == old(self).state_history@.len() + 1
                    &&& final(self).state_history@.subrange(
                        0,
                        old(self).state_history@.len() as int,
                    ) == old(self).state_history@
                })
                &&& (old(self).state_history@.len() >= HISTORY_LIMIT ==> {
                    &&& final(self).state_history@.len() == old(self).state_history@.len()
                    &&& final(self).state_history@[0] == old(self).state_history@[0]
                    &&& (forall|k: int|
                        1 <= k < old(self).state_history@.len() - 1
                            ==> #[trigger] final(self).state_history@[k] == old(
                            self,
                        ).state_history@[k + 1])
                })
                &&& final(self).performance_metrics.state_transitions@.len() == old(
                    self,
                ).performance_metrics.state_transitions@.len() + 1
                &&& final(self).state_history@.last().from_state == Some(old(self).state)
                &&& state_equiv(final(self).state_history@.last().to_state, new_state)
                &&& final(self).state_history@.last().reason == reason
                &&& final(self).state_history@.last().correlation_id == correlation_id
                &&& spec_can_transition(
                    final(self).state_history@.last().from_state->0,
                    final(self).state_history@.last().to_state,
                )
                &&& final(self).platform_states == old(self).platform_states
                &&& final(self).retry_policy == old(self).retry_policy
                &&& final(self).expiration == old(self).expiration
                &&& (new_state is Queued ==> final(self).timing.queued_at is Some)
                &&& (new_state is Delivering ==> final(self).timing.delivery_started is Some)
                &&& (new_state is Delivered ==> final(self).timing.delivered_at is Some
                    && final(self).timing.total_processing_time is Some)
            },
    {
        if !self.state.can_transition_to(&new_state) {
            return Err(
                NotificationError::ValidationError {
                    field: "state_transition".to_owned(),
                    message: "Invalid state transition".to_owned(),
                },
            );
        }
        let now: u64 = clock_now_millis();
        let history_copy: NotificationState = new_state.duplicate();
        proof {
            lemma_equiv_transition(history_copy, new_state);
        }
        // Swap the new state in; `previous` then holds the old state.
        let mut previous: NotificationState = new_state;
        core::mem::swap(&mut self.state, &mut previous);
        // Stamp the timing field the new state corresponds to.
        match &self.state {
            NotificationState::Validating => {
                self.timing.validation_started = Some(now);
            },
            NotificationState::PlatformRouting => {
                match self.timing.validation_started {
                    Some(validation_start) => {
                        self.timing.validation_duration = Some(
                            now.saturating_sub(validation_start),
                        );
                    },
                    None => {},
                }
                self.timing.platform_routing_started = Some(now);
            },
            NotificationState::Queued => {
                self.timing.queued_at = Some(now);
            },
            NotificationState::Delivering => {
                self.timing.delivery_started = Some(now);
            },
            NotificationState::Delivered => {
                match self.timing.delivery_started {
                    Some(delivery_start) => {
                        self.timing.delivery_duration = Some(
                            now.saturating_sub(delivery_start),
                        );
                    },
                    None => {},
                }
                self.timing.delivered_at = Some(now);
                self.timing.total_processing_time = Some(
                    now.saturating_sub(self.timing.created_at),
                );
            },
            NotificationState::InteractionReceived => {
                self.timing.last_interaction = Some(now);
            },
            NotificationState::Failed(_) => {
                self.timing.failed_at = Some(now);
            },
            NotificationState::Expired => {
                self.timing.expired_at = Some(now);
            },
            _ => {},
        }
        // Append to the history ring; the creation entry is never evicted.
        let ghost old_history = self.state_history@;
        if self.state_history.len() >= HISTORY_LIMIT {
            self.state_history.remove(1);
            proof {
                assert(self.state_history@ =~= old_history.subrange(0, 1) + old_history.skip(2));
                assert(self.state_history@[0] == old_history[0]);
                assert forall|k: int|
                    1 <= k < self.state_history@.len() implies ((
                #[trigger] self.state_history@[k]).from_state is Some && spec_can_transition(
                    self.state_history@[k].from_state->0,
                    self.state_history@[k].to_state,
                )) by {
                    assert(self.state_history@[k] == old_history[k + 1]);
                }
            }
        }
        let metrics_from: NotificationState = previous.duplicate();
        let transition: StateTransition = StateTransition {
            from_state: Some(previous),
            to_state: history_copy,
            timestamp: now,
            reason,
            correlation_id,
        };
        let ghost pre_push = self.state_history@;
        self.state_history.push(transition);
        proof {
            assert(self.state_history@.last().from_state == Some(old(self).state));
            if old(self).state_history@.len() < HISTORY_LIMIT {
                assert(pre_push == old(self).state_history@);
                assert(self.state_history@.subrange(0, pre_push.len() as int)
                    =~= pre_push);
            }
            assert forall|k: int|
                1 <= k < self.state_history@.len() implies ((
            #[trigger] self.state_history@[k]).from_state is Some && spec_can_transition(
                self.state_history@[k].from_state->0,
                self.state_history@[k].to_state,
            )) by {
                if k < pre_push.len() {
                    assert(self.state_history@[k] == pre_push[k]);
                }
            }
        }
        // Count the transition.
        self.performance_metrics.record_state_transition(&metrics_from, &self.state, now);
        Ok(())
    }

    /// Whether the notification is expired at time `now`: an absolute
    /// expiry reached, the time to live used up, a delivery running past
    /// the delivery timeout, or an interaction pending past the interaction
    /// timeout.
    pub open spec fn spec_expired_at(self, now: u64) -> bool {
        ||| (match self.expiration.expires_at {
            Some(expires_at) => now >= expires_at,
            None => false,
        })
        ||| (match self.expiration.ttl_millis {
            Some(ttl) => now >= self.timing.created_at && now - self.timing.created_at >= ttl,
            None => false,
        })
        ||| (self.state is Delivering && (match self.timing.delivery_started {
            Some(started) => now >= started && now - started
                >= self.expiration.delivery_timeout_millis,
            None => false,
        }))
        ||| (self.state is InteractionPending && (match self.timing.delivered_at {
            Some(delivered) => now >= delivered && now - delivered
                >= self.expiration.interaction_timeout_millis,
            None => false,
        }))
    }

    /// Whether the notification is expired at the clock reading `now`.
    pub fn is_expired_at(&self, now: u64) -> (r: bool)
        ensures
            r == self.spec_expired_at(now),
    {
        match self.expiration.expires_at {
            Some(expires_at) => {
                if now >= expires_at {
                    return true;
                }
            },
            None => {},
        }
        match self.expiration.ttl_millis {
            Some(ttl) => {
                if now >= self.timing.created_at && now - self.timing.created_at >= ttl {
                    return true;
                }
            },
            None => {},
        }
        match &self.state {
            NotificationState::Delivering => {
                match self.timing.delivery_started {
                    Some(started) => {
                        if now >= started && now - started
                            >= self.expiration.delivery_timeout_millis {
                            return true;
                        }
                    },
                    None => {},
                }
            },
            NotificationState::InteractionPending => {
                match self.timing.delivered_at {
                    Some(delivered) => {
                        if now >= delivered && now - delivered
                            >= self.expiration.interaction_timeout_millis {
                            return true;
                        }
                    },
                    None => {},
                }
            },
            _ => {},
        }
        false
    }

    /// Whether the notification is expired now.
    pub fn is_expired(&self) -> (r: bool)
        ensures
            exists|now: u64| r == self.spec_expired_at(now),
    {
        let now: u64 = clock_now_millis();
        let r: bool = self.is_expired_at(now);
        proof {
            assert(r == self.spec_expired_at(now));
        }
        r
    }

    /// Whether a retry is due: the notification failed, attempts remain,
    /// and the circuit breaker permits one — it is closed, or half-open
    /// (the state an open breaker reaches once its timeout elapses).
    pub fn should_retry(&self) -> (r: bool)
        ensures
            r == (self.state is Failed && self.retry_policy.current_attempt
                < self.retry_policy.max_attempts && (self.retry_policy.circuit_breaker_state
                is Closed || self.retry_policy.circuit_breaker_state is HalfOpen)),
    {
        match &self.state {
            NotificationState::Failed(_) => self.retry_policy.current_attempt
                < self.retry_policy.max_attempts && match self.retry_policy.circuit_breaker_state {
                CircuitBreakerState::Closed => true,
                CircuitBreakerState::HalfOpen => true,
                CircuitBreakerState::Open => false,
            },
            _ => false,
        }
    }

    /// The delay before the next retry, with fresh jitter, bounded by the
    /// backoff strategy for the current attempt.
    pub fn next_retry_delay(&self) -> (r: u64)
        ensures
            exists|rnd: u64|
                r as int == spec_backoff_delay(
                    self.retry_policy.backoff_strategy,
                    self.retry_policy.current_attempt,
                    rnd,
                ),
    {
        self.retry_policy.calculate_next_delay(self.retry_policy.current_attempt)
    }

    /// Record one delivery attempt: count it, and on failure grow the
    /// consecutive-failure count, opening the circuit breaker at the
    /// threshold; on success store the receipt and reset the count.
    pub fn record_delivery_attempt(&mut self, result: DeliveryAttemptResult)
        requires
            old(self).wf(),
            old(self).retry_policy.current_attempt < old(self).retry_policy.max_attempts,
        ensures
            final(self).wf(),
            final(self).retry_policy.current_attempt == old(self).retry_policy.current_attempt
                + 1,
            final(self).retry_policy.last_attempt is Some,
            final(self).state == old(self).state,
            (result is Success) ==> final(self).delivery_receipt is Some
                && final(self).retry_policy.consecutive_failures == 0,
            (result is Failure) ==> {
                &&& (result matches DeliveryAttemptResult::Failure(e)
                    && final(self).retry_policy.last_error == Some(e))
                &&& final(self).retry_policy.consecutive_failures == (
                if old(self).retry_policy.consecutive_failures < u32::MAX {
                    old(self).retry_policy.consecutive_failures + 1
                } else {
                    u32::MAX as int
                })
                &&& (final(self).retry_policy.consecutive_failures
                    >= final(self).retry_policy.circuit_breaker_threshold
                    ==> final(self).retry_policy.circuit_breaker_state is Open
                    && final(self).retry_policy.circuit_breaker_opened_at is Some)
            },
    {
        self.retry_policy.current_attempt = self.retry_policy.current_attempt + 1;
        let now: u64 = clock_now_millis();
        self.retry_policy.last_attempt = Some(now);
        match result {
            DeliveryAttemptResult::Success(receipt) => {
                self.delivery_receipt = Some(receipt);
                self.retry_policy.consecutive_failures = 0;
            },
            DeliveryAttemptResult::Failure(error) => {
                self.retry_policy.consecutive_failures =
                    if self.retry_policy.consecutive_failures < u32::MAX {
                    self.retry_policy.consecutive_failures + 1
                } else {
                    u32::MAX
                };
                self.retry_policy.last_error = Some(error);
                if self.retry_policy.consecutive_failures
                    >= self.retry_policy.circuit_breaker_threshold {
                    self.retry_policy.circuit_breaker_state = CircuitBreakerState::Open;
                    self.retry_policy.circuit_breaker_opened_at = Some(now);
                }
            },
        }
    }

    /// Set a platform's delivery state.  A platform already recorded as
    /// delivered keeps its state: a successful delivery is never
    /// overwritten by a later attempt.
    pub fn update_platform_state(&mut self, platform: Platform, state: PlatformDeliveryState)
        ensures
            final(self).state == old(self).state,
            final(self).state_history == old(self).state_history,
            final(self).retry_policy == old(self).retry_policy,
            old(self).wf() ==> final(self).wf(),
            (match plat_get(old(self).platform_states@, platform) {
                Some(existing) => existing.status is Delivered,
                None => false,
            }) ==> final(self).platform_states == old(self).platform_states,
            !(match plat_get(old(self).platform_states@, platform) {
                Some(existing) => existing.status is Delivered,
                None => false,
            }) ==> plat_get(final(self).platform_states@, platform) == Some(state) && (forall|
                p2: Platform,
            |
                p2 != platform ==> plat_get(final(self).platform_states@, p2) == plat_get(
                    old(self).platform_states@,
                    p2,
                )),
    {
        let keep: bool = match plat_lookup(&self.platform_states, platform) {
            Some(existing) => match existing.status {
                PlatformDeliveryStatus::Delivered => true,
                _ => false,
            },
            None => false,
        };
        if !keep {
            crate::platform::plat_upsert(&mut self.platform_states, platform, state);
        }
    }

    /// How far delivery has progressed over the platforms with recorded
    /// state: completed when all succeeded, failed when all failed,
    /// partial otherwise; with no recorded state, an answer read off the
    /// lifecycle state.
    pub fn delivery_progress(&self) -> (r: DeliveryProgress)
        ensures
            self.platform_states@.len() == 0 ==> r == (if self.state is Created || self.state
                is Validating {
                DeliveryProgress::NotStarted
            } else if self.state is Delivered {
                DeliveryProgress::Completed
            } else if self.state is Failed {
                DeliveryProgress::Failed
            } else {
                DeliveryProgress::InProgress
            }),
    {
        let total: usize = self.platform_states.len();
        if total == 0 {
            return match &self.state {
                NotificationState::Created | NotificationState::Validating => {
                    DeliveryProgress::NotStarted
                },
                NotificationState::Delivered => DeliveryProgress::Completed,
                NotificationState::Failed(_) => DeliveryProgress::Failed,
                _ => DeliveryProgress::InProgress,
            };
        }
        let mut successful: usize = 0;
        let mut failed: usize = 0;
        let mut i: usize = 0;
        while i < total
            invariant
                total == self.platform_states@.len(),
                i <= total,
                successful <= i,
                failed <= i,
            decreases total - i,
        {
            match &self.platform_states[i].1.status {
                PlatformDeliveryStatus::Delivered => {
                    successful = successful + 1;
                },
                PlatformDeliveryStatus::Failed(_) => {
                    failed = failed + 1;
                },
                _ => {},
            }
            i = i + 1;
        }
        if successful == total {
            DeliveryProgress::Completed
        } else if failed == total {
            DeliveryProgress::Failed
        } else {
            DeliveryProgress::PartiallyComplete { successful, total }
        }
    }

    /// The collected performance metrics.
    pub fn get_performance_metrics(&self) -> &PerformanceMetrics {
        &self.performance_metrics
    }
}

impl Default for NotificationLifecycle {
    /// A fresh lifecycle in `Created`.
    fn default() -> (r: NotificationLifecycle)
        ensures
            r.state is Created,
            r.wf(),
    {
        NotificationLifecycle::new()
    }
}

} // verus!
