//! The delivery worker's decisions and the shutdown protocol, as functions
//! from store snapshots and per-record state to actions.  The surrounding
//! application runs the worker loops, performs the platform I/O, and feeds
//! the outcomes back through `apply_delivery_result`.

use vstd::prelude::*;

use crate::backends::{NotificationRequest, PlatformDeliveryReceipt};
use crate::content::NotificationContent;
use crate::errors::NotificationError;
use crate::identity::{CorrelationId, NotificationId, NotificationIdentity};
use crate::lifecycle::{
    spec_backoff_delay, spec_can_transition, ErrorDetails, ErrorType, NotificationLifecycle,
    NotificationState, PlatformDeliveryState, PlatformDeliveryStatus, PlatformError,
    TransitionReason,
};
use crate::platform::{plat_get, plat_lookup, DeliveryOptions, Platform, PlatformIntegration};
use crate::time_wrapper::clock_now_millis;

verus! {

/// How a shutdown ended.
#[derive(Debug, Clone, PartialEq, Eq, Structural)]
pub enum ShutdownResult {
    /// All workers shut down cleanly.
    Clean,
    /// This many workers panicked during shutdown.
    WorkersPanicked(usize),
    /// Shutdown timed out waiting for workers.
    TimedOut,
}

/// One record of the store: the identity, content, lifecycle and platform
/// integration of a notification.
#[derive(Debug, Clone)]
pub struct NotificationRecord {
    pub identity: NotificationIdentity,
    pub content: NotificationContent,
    pub lifecycle: NotificationLifecycle,
    pub platform_integration: PlatformIntegration,
}

impl NotificationRecord {
    /// Well-formedness: the lifecycle is well formed and at least one
    /// platform is targeted.
    pub open spec fn wf(self) -> bool {
        &&& self.lifecycle.wf()
        &&& self.platform_integration.wf()
    }
}

/// Every listed target has recorded a successful delivery.
pub open spec fn spec_all_delivered(
    targets: Seq<Platform>,
    states: Seq<(Platform, PlatformDeliveryState)>,
) -> bool {
    forall|k: int|
        0 <= k < targets.len() ==> (match plat_get(states, #[trigger] targets[k]) {
            Some(st) => st.status is Delivered,
            None => false,
        })
}

/// Some listed target has recorded a failure.
pub open spec fn spec_some_failed(
    targets: Seq<Platform>,
    states: Seq<(Platform, PlatformDeliveryState)>,
) -> bool {
    exists|k: int|
        0 <= k < targets.len() && (match plat_get(states, #[trigger] targets[k]) {
            Some(st) => st.status is Failed,
            None => false,
        })
}

/// Every target platform has recorded a successful delivery.
pub open spec fn all_platforms_delivered(r: NotificationRecord) -> bool {
    spec_all_delivered(r.platform_integration.target_platforms@, r.lifecycle.platform_states@)
}

/// Some target platform has recorded a failure.
pub open spec fn some_platform_failed(r: NotificationRecord) -> bool {
    spec_some_failed(r.platform_integration.target_platforms@, r.lifecycle.platform_states@)
}

/// Whether a platform has recorded a successful delivery.
pub open spec fn spec_platform_delivered(
    states: Seq<(Platform, PlatformDeliveryState)>,
    p: Platform,
) -> bool {
    match plat_get(states, p) {
        Some(st) => st.status is Delivered,
        None => false,
    }
}

/// The target platforms still owed a delivery, in target order: those with
/// no recorded state or a state other than `Delivered`.
pub open spec fn spec_pending_targets(r: NotificationRecord) -> Seq<Platform> {
    r.platform_integration.target_platforms@.filter(
        |p: Platform| !spec_platform_delivered(r.lifecycle.platform_states@, p),
    )
}

/// The error entries the aggregate failure carries: each target platform
/// whose recorded state is `Failed`, paired with its message, in target
/// order.
pub open spec fn spec_failed_errors(
    targets: Seq<Platform>,
    states: Seq<(Platform, PlatformDeliveryState)>,
) -> Seq<(Platform, String)>
    decreases targets.len(),
{
    if targets.len() == 0 {
        Seq::<(Platform, String)>::empty()
    } else {
        (match plat_get(states, targets[0]) {
            Some(st) => match st.status {
                PlatformDeliveryStatus::Failed(message) => seq![(targets[0], message)],
                _ => Seq::<(Platform, String)>::empty(),
            },
            None => Seq::<(Platform, String)>::empty(),
        }) + spec_failed_errors(targets.drop_first(), states)
    }
}

/// Whether the transition table admits a move from `s` into a failed state
/// (the failure payload plays no part in the table).
pub open spec fn spec_can_fail(s: NotificationState) -> bool {
    s is Validating || s is PlatformRouting || s is Delivering || s is ProcessingResponse
}

/// One delivery job the collect phase produced: a platform still owed a
/// delivery, with a frozen request when authorization is already in hand.
#[derive(Debug, Clone)]
pub struct DeliveryJob {
    pub notification_id: NotificationId,
    pub platform: Platform,
    pub is_authorized: bool,
    pub request: Option<NotificationRequest>,
    pub correlation_id: CorrelationId,
}

/// The outcome of one delivery attempt, keyed back to its record.
#[derive(Debug, Clone)]
pub enum DeliveryResult {
    /// The platform accepted the notification.
    Success {
        notification_id: NotificationId,
        platform: Platform,
        receipt: PlatformDeliveryReceipt,
        correlation_id: CorrelationId,
    },
    /// The platform call failed.
    Failure {
        notification_id: NotificationId,
        platform: Platform,
        error: String,
        correlation_id: CorrelationId,
        retry_count: u32,
    },
    /// Authorization was refused.
    Unauthorized {
        notification_id: NotificationId,
        platform: Platform,
        correlation_id: CorrelationId,
    },
}

impl DeliveryResult {
    /// The record this result belongs to.
    pub fn notification_id(&self) -> (r: NotificationId)
        ensures
            r == self.spec_notification_id(),
    {
        match self {
            DeliveryResult::Success { notification_id, .. } => *notification_id,
            DeliveryResult::Failure { notification_id, .. } => *notification_id,
            DeliveryResult::Unauthorized { notification_id, .. } => *notification_id,
        }
    }

    /// The platform this result concerns, in specifications.
    pub open spec fn spec_platform(self) -> Platform {
        match self {
            DeliveryResult::Success { platform, .. } => platform,
            DeliveryResult::Failure { platform, .. } => platform,
            DeliveryResult::Unauthorized { platform, .. } => platform,
        }
    }

    /// The record this result belongs to, in specifications.
    pub open spec fn spec_notification_id(self) -> NotificationId {
        match self {
            DeliveryResult::Success { notification_id, .. } => notification_id,
            DeliveryResult::Failure { notification_id, .. } => notification_id,
            DeliveryResult::Unauthorized { notification_id, .. } => notification_id,
        }
    }
}

/// The collect phase for one queued record: one job for each target
/// platform not yet delivered, in target order — no more and no fewer.
/// A job is marked authorized exactly when the recorded authorization
/// state answers so (recorded `Authorized` always does, nothing recorded
/// never does, and an authorized job always rests on a recorded
/// `Authorized` or `Provisional` state); authorized jobs carry a frozen
/// request, the others none.
pub fn collect_jobs_for(id: NotificationId, record: &NotificationRecord) -> (jobs: Vec<
    DeliveryJob,
>)
    requires
        record.lifecycle.state is Queued,
    ensures
        jobs@.len() == spec_pending_targets(*record).len(),
        forall|k: int|
            0 <= k < jobs@.len() ==> {
                &&& (#[trigger] jobs@[k]).notification_id == id
                &&& jobs@[k].platform == spec_pending_targets(*record)[k]
                &&& jobs@[k].correlation_id == record.identity.correlation_id
                &&& (jobs@[k].request is Some <==> jobs@[k].is_authorized)
                &&& (plat_get(
                    record.platform_integration.authorization_states@,
                    jobs@[k].platform,
                ) is None ==> !jobs@[k].is_authorized)
                &&& ((match plat_get(
                    record.platform_integration.authorization_states@,
                    jobs@[k].platform,
                ) {
                    Some(state) => state is Authorized,
                    None => false,
                }) ==> jobs@[k].is_authorized)
                &&& (jobs@[k].is_authorized ==> (match plat_get(
                    record.platform_integration.authorization_states@,
                    jobs@[k].platform,
                ) {
                    Some(state) => state is Authorized || state is Provisional,
                    None => false,
                }))
            },
{
    let ghost pending_pred = |p: Platform|
        !spec_platform_delivered(record.lifecycle.platform_states@, p);
    let mut jobs: Vec<DeliveryJob> = Vec::new();
    let n: usize = record.platform_integration.target_platforms.len();
    let mut i: usize = 0;
    proof {
        reveal(Seq::filter);
        assert(record.platform_integration.target_platforms@.subrange(0, 0) =~= Seq::<
            Platform,
        >::empty());
        assert(record.platform_integration.target_platforms@.subrange(0, 0).filter(
            pending_pred,
        ) =~= Seq::<Platform>::empty());
    }
    while i < n
        invariant
            n == record.platform_integration.target_platforms@.len(),
            i <= n,
            record.lifecycle.state is Queued,
            jobs@.len() == record.platform_integration.target_platforms@.subrange(
                0,
                i as int,
            ).filter(pending_pred).len(),
            pending_pred == (|p: Platform|
                !spec_platform_delivered(record.lifecycle.platform_states@, p)),
            forall|k: int|
                0 <= k < jobs@.len() ==> {
                    &&& (#[trigger] jobs@[k]).notification_id == id
                    &&& jobs@[k].platform
                        == record.platform_integration.target_platforms@.subrange(
                        0,
                        i as int,
                    ).filter(pending_pred)[k]
                    &&& jobs@[k].correlation_id == record.identity.correlation_id
                    &&& (jobs@[k].request is Some <==> jobs@[k].is_authorized)
                    &&& (plat_get(
                        record.platform_integration.authorization_states@,
                        jobs@[k].platform,
                    ) is None ==> !jobs@[k].is_authorized)
                    &&& ((match plat_get(
                        record.platform_integration.authorization_states@,
                        jobs@[k].platform,
                    ) {
                        Some(state) => state is Authorized,
                        None => false,
                    }) ==> jobs@[k].is_authorized)
                    &&& (jobs@[k].is_authorized ==> (match plat_get(
                        record.platform_integration.authorization_states@,
                        jobs@[k].platform,
                    ) {
                        Some(state) => state is Authorized || state is Provisional,
                        None => false,
                    }))
                },
        decreases n - i,
    {
        let ghost targets = record.platform_integration.target_platforms@;
        let ghost prefix = targets.subrange(0, i as int).filter(pending_pred);
        let platform: Platform = record.platform_integration.target_platforms[i];
        let already_delivered: bool = match plat_lookup(
            &record.lifecycle.platform_states,
            platform,
        ) {
            Some(st) => match st.status {
                PlatformDeliveryStatus::Delivered => true,
                _ => false,
            },
            None => false,
        };
        proof {
            reveal(Seq::filter);
            assert(targets.subrange(0, i as int + 1).drop_last() =~= targets.subrange(
                0,
                i as int,
            ));
            assert(targets.subrange(0, i as int + 1).last() == platform);
            assert(already_delivered == spec_platform_delivered(
                record.lifecycle.platform_states@,
                platform,
            ));
        }
        if !already_delivered {
            let is_authorized: bool = record.platform_integration.is_authorized(platform);
            let request: Option<NotificationRequest> = if is_authorized {
                Some(
                    NotificationRequest {
                        notification_id: record.identity.id.to_text(),
                        content: freeze_content(&record.content),
                        options: DeliveryOptions::default(),
                        correlation_id: record.identity.correlation_id.as_str().to_owned(),
                    },
                )
            } else {
                None
            };
            let ghost jobs0 = jobs@;
            jobs.push(
                DeliveryJob {
                    notification_id: id,
                    platform,
                    is_authorized,
                    request,
                    correlation_id: record.identity.correlation_id.duplicate(),
                },
            );
            proof {
                assert(targets.subrange(0, i as int + 1).filter(pending_pred) =~= prefix.push(
                    platform,
                ));
                let ghost next_prefix = targets.subrange(0, i as int + 1).filter(pending_pred);
                assert forall|k: int| 0 <= k < jobs@.len() implies {
                    &&& (#[trigger] jobs@[k]).notification_id == id
                    &&& jobs@[k].platform == next_prefix[k]
                    &&& jobs@[k].correlation_id == record.identity.correlation_id
                    &&& (jobs@[k].request is Some <==> jobs@[k].is_authorized)
                    &&& (plat_get(
                        record.platform_integration.authorization_states@,
                        jobs@[k].platform,
                    ) is None ==> !jobs@[k].is_authorized)
                    &&& ((match plat_get(
                        record.platform_integration.authorization_states@,
                        jobs@[k].platform,
                    ) {
                        Some(state) => state is Authorized,
                        None => false,
                    }) ==> jobs@[k].is_authorized)
                    &&& (jobs@[k].is_authorized ==> (match plat_get(
                        record.platform_integration.authorization_states@,
                        jobs@[k].platform,
                    ) {
                        Some(state) => state is Authorized || state is Provisional,
                        None => false,
                    }))
                } by {
                    if k < jobs0.len() {
                        assert(jobs@[k] == jobs0[k]);
                        assert(next_prefix[k] == prefix[k]);
                    } else {
                        assert(jobs@[k].platform == platform);
                        assert(next_prefix[k] == platform);
                    }
                }
            }
        } else {
            proof {
                assert(targets.subrange(0, i as int + 1).filter(pending_pred) =~= prefix);
            }
        }
        i = i + 1;
    }
    proof {
        assert(record.platform_integration.target_platforms@.subrange(0, n as int)
            =~= record.platform_integration.target_platforms@);
    }
    jobs
}

/// A frozen copy of the content for a delivery request.
fn freeze_content(content: &NotificationContent) -> NotificationContent {
    content.clone()
}

/// The transition the delivery worker makes before a delivery: the record
/// moves to `Delivering` with reason `DeliveryStarted`.
pub fn begin_delivery(record: &mut NotificationRecord, correlation_id: Option<CorrelationId>)
    requires
        old(record).wf(),
    ensures
        final(record).wf(),
        old(record).lifecycle.state is Queued ==> final(record).lifecycle.state is Delivering
            && final(record).lifecycle.state_history@.last().reason is DeliveryStarted,
        !spec_can_transition(old(record).lifecycle.state, NotificationState::Delivering)
            ==> final(record).lifecycle.state == old(record).lifecycle.state,
        final(record).lifecycle.platform_states == old(record).lifecycle.platform_states,
        final(record).platform_integration == old(record).platform_integration,
        final(record).identity == old(record).identity,
{
    let allowed: bool = record.lifecycle.state.can_transition_to(
        &NotificationState::Delivering,
    );
    if allowed {
        let outcome = record.lifecycle.transition_to(
            NotificationState::Delivering,
            TransitionReason::DeliveryStarted,
            correlation_id,
        );
        proof {
            assert(outcome is Ok);
        }
    }
}

/// The commit phase for one delivery outcome: record the per-platform
/// state, then settle the aggregate — `Delivered` once every target
/// platform has delivered, `Failed` with the per-platform errors once any
/// has failed, unchanged while some are still pending.  A platform already
/// recorded as delivered keeps its state.
pub fn apply_delivery_result(record: &mut NotificationRecord, result: DeliveryResult)
    requires
        old(record).wf(),
    ensures
        final(record).wf(),
        final(record).platform_integration == old(record).platform_integration,
        final(record).identity == old(record).identity,
        // The per-platform write: a platform already recorded as delivered
        // keeps its state untouched; otherwise its recorded state now
        // reflects this outcome exactly, and no other platform's state
        // moves.
        spec_platform_delivered(old(record).lifecycle.platform_states@, result.spec_platform())
            ==> final(record).lifecycle.platform_states == old(
            record,
        ).lifecycle.platform_states,
        !spec_platform_delivered(
            old(record).lifecycle.platform_states@,
            result.spec_platform(),
        ) ==> {
            &&& (forall|p2: Platform|
                p2 != result.spec_platform() ==> plat_get(
                    final(record).lifecycle.platform_states@,
                    p2,
                ) == plat_get(old(record).lifecycle.platform_states@, p2))
            &&& (match result {
                DeliveryResult::Success { platform, receipt, .. } => (match plat_get(
                    final(record).lifecycle.platform_states@,
                    platform,
                ) {
                    Some(st) => {
                        &&& st.status is Delivered
                        &&& st.native_id == Some(receipt.native_id)
                        &&& st.delivery_latency_millis == Some(receipt.delivery_latency_millis)
                        &&& st.platform == receipt.platform
                    },
                    None => false,
                }),
                DeliveryResult::Failure { platform, error, retry_count, .. } => (match plat_get(
                    final(record).lifecycle.platform_states@,
                    platform,
                ) {
                    Some(st) => {
                        &&& st.status == PlatformDeliveryStatus::Failed(error)
                        &&& st.attempt_count == (if retry_count < u32::MAX {
                            retry_count + 1
                        } else {
                            u32::MAX as int
                        })
                        &&& (st.error_details matches Some(pe) && pe.error_message == error
                            && !pe.is_permanent)
                    },
                    None => false,
                }),
                DeliveryResult::Unauthorized { platform, .. } => (match plat_get(
                    final(record).lifecycle.platform_states@,
                    platform,
                ) {
                    Some(st) => {
                        &&& (st.status matches PlatformDeliveryStatus::Failed(m) && m@
                            == "Authorization required"@)
                        &&& (st.error_details matches Some(pe) && pe.is_permanent)
                    },
                    None => false,
                }),
            })
        },
        // The aggregate settles from what is now recorded: Delivered once
        // every target delivered, Failed carrying exactly the failed
        // targets once any failed, untouched while some are still pending.
        (spec_all_delivered(
            old(record).platform_integration.target_platforms@,
            final(record).lifecycle.platform_states@,
        ) && old(record).platform_integration.target_platforms@.len() > 0
            && spec_can_transition(old(record).lifecycle.state, NotificationState::Delivered))
            ==> final(record).lifecycle.state is Delivered && final(record).lifecycle.state_history@.last().reason is DeliveryCompleted,
        (!(spec_all_delivered(
            old(record).platform_integration.target_platforms@,
            final(record).lifecycle.platform_states@,
        ) && old(record).platform_integration.target_platforms@.len() > 0)
            && spec_some_failed(
            old(record).platform_integration.target_platforms@,
            final(record).lifecycle.platform_states@,
        ) && spec_can_fail(old(record).lifecycle.state)) ==> (final(record).lifecycle.state
            matches NotificationState::Failed(d) && d.platform_errors@ == spec_failed_errors(
            old(record).platform_integration.target_platforms@,
            final(record).lifecycle.platform_states@,
        ) && d.error_type is PlatformError && final(record).lifecycle.state_history@.last().reason is DeliveryFailed),
        (!(spec_all_delivered(
            old(record).platform_integration.target_platforms@,
            final(record).lifecycle.platform_states@,
        ) && old(record).platform_integration.target_platforms@.len() > 0)
            && !spec_some_failed(
            old(record).platform_integration.target_platforms@,
            final(record).lifecycle.platform_states@,
        )) ==> final(record).lifecycle.state == old(record).lifecycle.state,
        // Settling to Delivered means every target platform delivered.
        final(record).lifecycle.state is Delivered && !(old(record).lifecycle.state
            is Delivered) ==> all_platforms_delivered(*final(record)),
        // Settling to Failed means some target platform failed.
        final(record).lifecycle.state is Failed && !(old(record).lifecycle.state is Failed)
            ==> some_platform_failed(*final(record)),
{
    let correlation: CorrelationId = match &result {
        DeliveryResult::Success { correlation_id, .. } => correlation_id.clone(),
        DeliveryResult::Failure { correlation_id, .. } => correlation_id.clone(),
        DeliveryResult::Unauthorized { correlation_id, .. } => correlation_id.clone(),
    };
    let now: u64 = clock_now_millis();
    match result {
        DeliveryResult::Success { platform, receipt, .. } => {
            let state: PlatformDeliveryState = PlatformDeliveryState {
                platform: receipt.platform,
                status: PlatformDeliveryStatus::Delivered,
                native_id: Some(receipt.native_id),
                attempt_count: 1,
                last_attempt: Some(now),
                delivery_latency_millis: Some(receipt.delivery_latency_millis),
                error_details: None,
            };
            record.lifecycle.update_platform_state(platform, state);
        },
        DeliveryResult::Failure { platform, error, retry_count, .. } => {
            let message: String = error.clone();
            let state: PlatformDeliveryState = PlatformDeliveryState {
                platform,
                status: PlatformDeliveryStatus::Failed(error),
                native_id: None,
                attempt_count: retry_count.saturating_add(1),
                last_attempt: Some(now),
                delivery_latency_millis: None,
                error_details: Some(
                    PlatformError {
                        error_code: None,
                        error_message: message,
                        retry_after_millis: None,
                        is_permanent: false,
                    },
                ),
            };
            record.lifecycle.update_platform_state(platform, state);
        },
        DeliveryResult::Unauthorized { platform, .. } => {
            let state: PlatformDeliveryState = PlatformDeliveryState {
                platform,
                status: PlatformDeliveryStatus::Failed("Authorization required".to_owned()),
                native_id: None,
                attempt_count: 1,
                last_attempt: Some(now),
                delivery_latency_millis: None,
                error_details: Some(
                    PlatformError {
                        error_code: None,
                        error_message: "Authorization required".to_owned(),
                        retry_after_millis: None,
                        is_permanent: true,
                    },
                ),
            };
            record.lifecycle.update_platform_state(platform, state);
        },
    }
    settle_aggregate_state(record, correlation);
}

/// Settle the aggregate state after per-platform updates: `Delivered` when
/// all targets delivered, `Failed` with the collected platform errors when
/// any failed, unchanged otherwise.
pub fn settle_aggregate_state(record: &mut NotificationRecord, correlation_id: CorrelationId)
    requires
        old(record).wf(),
    ensures
        final(record).wf(),
        final(record).platform_integration == old(record).platform_integration,
        final(record).identity == old(record).identity,
        final(record).lifecycle.platform_states == old(record).lifecycle.platform_states,
        final(record).lifecycle.retry_policy == old(record).lifecycle.retry_policy,
        final(record).lifecycle.state is Delivered && !(old(record).lifecycle.state
            is Delivered) ==> all_platforms_delivered(*final(record)),
        final(record).lifecycle.state is Failed && !(old(record).lifecycle.state is Failed)
            ==> some_platform_failed(*final(record)),
        // Settling is owed, not merely permitted: with every target
        // delivered the record moves to Delivered when the table allows it;
        // with a failed target and not all delivered it moves to Failed
        // carrying exactly the failed targets and their messages; otherwise
        // the state is untouched.
        (all_platforms_delivered(*old(record))
            && old(record).platform_integration.target_platforms@.len() > 0
            && spec_can_transition(old(record).lifecycle.state, NotificationState::Delivered))
            ==> final(record).lifecycle.state is Delivered && final(record).lifecycle.state_history@.last().reason is DeliveryCompleted,
        (!(all_platforms_delivered(*old(record))
            && old(record).platform_integration.target_platforms@.len() > 0)
            && some_platform_failed(*old(record)) && spec_can_fail(old(record).lifecycle.state))
            ==> (final(record).lifecycle.state matches NotificationState::Failed(d) && {
            &&& d.platform_errors@ == spec_failed_errors(
                old(record).platform_integration.target_platforms@,
                old(record).lifecycle.platform_states@,
            )
            &&& d.error_type is PlatformError
            &&& (final(record).lifecycle.state_history@.last().reason is DeliveryFailed)
        }),
        (!(all_platforms_delivered(*old(record))
            && old(record).platform_integration.target_platforms@.len() > 0)
            && !some_platform_failed(*old(record))) ==> final(record).lifecycle.state == old(
            record,
        ).lifecycle.state,
        (all_platforms_delivered(*old(record))
            && old(record).platform_integration.target_platforms@.len() > 0
            && !spec_can_transition(old(record).lifecycle.state, NotificationState::Delivered))
            ==> final(record).lifecycle.state == old(record).lifecycle.state,
        (!(all_platforms_delivered(*old(record))
            && old(record).platform_integration.target_platforms@.len() > 0)
            && some_platform_failed(*old(record)) && !spec_can_fail(
            old(record).lifecycle.state,
        )) ==> final(record).lifecycle.state == old(record).lifecycle.state,
{
    let ghost targets = old(record).platform_integration.target_platforms@;
    let ghost states = old(record).lifecycle.platform_states@;
    let n: usize = record.platform_integration.target_platforms.len();
    let mut all_delivered: bool = true;
    let mut any_failed: bool = false;
    let mut platform_errors: Vec<(Platform, String)> = Vec::new();
    let mut i: usize = 0;
    proof {
        assert(targets.skip(0) =~= targets);
        assert(platform_errors@ + spec_failed_errors(targets, states) =~= spec_failed_errors(
            targets,
            states,
        ));
    }
    while i < n
        invariant
            n == targets.len(),
            targets == record.platform_integration.target_platforms@,
            states == record.lifecycle.platform_states@,
            i <= n,
            record == old(record),
            all_delivered == (forall|k: int|
                0 <= k < i ==> (match plat_get(states, #[trigger] targets[k]) {
                    Some(st) => st.status is Delivered,
                    None => false,
                })),
            any_failed == (exists|k: int|
                0 <= k < i && (match plat_get(states, #[trigger] targets[k]) {
                    Some(st) => st.status is Failed,
                    None => false,
                })),
            spec_failed_errors(targets, states) == platform_errors@ + spec_failed_errors(
                targets.skip(i as int),
                states,
            ),
        decreases n - i,
    {
        proof {
            assert(targets.skip(i as int)[0] == targets[i as int]);
            assert(targets.skip(i as int).drop_first() =~= targets.skip(i as int + 1));
        }
        let platform: Platform = record.platform_integration.target_platforms[i];
        match plat_lookup(&record.lifecycle.platform_states, platform) {
            Some(st) => {
                match &st.status {
                    PlatformDeliveryStatus::Delivered => {},
                    PlatformDeliveryStatus::Failed(message) => {
                        all_delivered = false;
                        any_failed = true;
                        let ghost errors0 = platform_errors@;
                        platform_errors.push((platform, message.clone()));
                        proof {
                            assert(platform_errors@ =~= errors0 + seq![
                                (platform, st.status->Failed_0),
                            ]);
                        }
                    },
                    _ => {
                        all_delivered = false;
                    },
                }
            },
            None => {
                all_delivered = false;
            },
        }
        i = i + 1;
    }
    proof {
        assert(targets.skip(n as int) =~= Seq::<Platform>::empty());
        assert(platform_errors@ + Seq::<(Platform, String)>::empty() =~= platform_errors@);
        assert(platform_errors@ == spec_failed_errors(targets, states));
    }
    if all_delivered && n > 0 {
        let allowed: bool = record.lifecycle.state.can_transition_to(
            &NotificationState::Delivered,
        );
        if allowed {
            let outcome = record.lifecycle.transition_to(
                NotificationState::Delivered,
                TransitionReason::DeliveryCompleted,
                Some(correlation_id),
            );
            proof {
                assert(outcome is Ok);
            }
        }
    } else if any_failed {
        let details: ErrorDetails = ErrorDetails {
            error_type: ErrorType::PlatformError,
            message: "Delivery failed for one or more platforms".to_owned(),
            retry_count: 0,
            last_attempt: Some(clock_now_millis()),
            platform_errors,
        };
        let ghost details_ghost = details;
        let target: NotificationState = NotificationState::Failed(details);
        let allowed: bool = record.lifecycle.state.can_transition_to(&target);
        proof {
            assert(allowed == spec_can_fail(old(record).lifecycle.state));
        }
        if allowed {
            let outcome = record.lifecycle.transition_to(
                target,
                TransitionReason::DeliveryFailed,
                Some(correlation_id),
            );
            proof {
                assert(outcome is Ok);
                assert(record.lifecycle.state == NotificationState::Failed(details_ghost));
            }
        }
    }
}

/// The lifecycle monitor's step for one record at the clock reading `now`:
/// refresh timing, expire what has expired, and schedule a retry when one
/// is due.  An expired record that the table lets expire moves to
/// `Expired`; otherwise the state is untouched.  A retry is scheduled —
/// and its jittered delay returned — exactly when the record stands in
/// `Failed` with attempts remaining and the breaker closed or half-open.
pub fn lifecycle_monitor_step(record: &mut NotificationRecord, now: u64) -> (scheduled: Option<
    u64,
>)
    requires
        old(record).wf(),
    ensures
        final(record).wf(),
        final(record).platform_integration == old(record).platform_integration,
        final(record).identity == old(record).identity,
        final(record).lifecycle.platform_states == old(record).lifecycle.platform_states,
        (old(record).lifecycle.spec_expired_at(now) && spec_can_transition(
            old(record).lifecycle.state,
            NotificationState::Expired,
        )) ==> final(record).lifecycle.state is Expired,
        (!old(record).lifecycle.spec_expired_at(now) || !spec_can_transition(
            old(record).lifecycle.state,
            NotificationState::Expired,
        )) ==> final(record).lifecycle.state == old(record).lifecycle.state,
        scheduled is Some <==> (final(record).lifecycle.state is Failed && old(
            record,
        ).lifecycle.retry_policy.current_attempt < old(
            record,
        ).lifecycle.retry_policy.max_attempts && (old(
            record,
        ).lifecycle.retry_policy.circuit_breaker_state is Closed || old(
            record,
        ).lifecycle.retry_policy.circuit_breaker_state is HalfOpen)),
        scheduled matches Some(delay) ==> (exists|rnd: u64|
            delay as int == spec_backoff_delay(
                old(record).lifecycle.retry_policy.backoff_strategy,
                old(record).lifecycle.retry_policy.current_attempt,
                rnd,
            )) && final(record).lifecycle.retry_policy.last_attempt is Some,
{
    record.lifecycle.update_timing();
    proof {
        assert(record.lifecycle.spec_expired_at(now) == old(record).lifecycle.spec_expired_at(
            now,
        ));
    }
    if record.lifecycle.is_expired_at(now) {
        let allowed: bool = record.lifecycle.state.can_transition_to(
            &NotificationState::Expired,
        );
        if allowed {
            let outcome = record.lifecycle.transition_to(
                NotificationState::Expired,
                TransitionReason::Expiration,
                None,
            );
            proof {
                assert(outcome is Ok);
            }
        }
    }
    if record.lifecycle.should_retry() {
        let delay: u64 = record.lifecycle.next_retry_delay();
        record.lifecycle.schedule_retry(delay);
        Some(delay)
    } else {
        None
    }
}

// ---------------------------------------------------------------------------
// Shutdown
// ---------------------------------------------------------------------------

/// The store tally a shutdown reports before cancelling.
#[derive(Debug, Clone, PartialEq, Eq, Structural)]
pub struct ShutdownCounts {
    pub queued: usize,
    pub delivering: usize,
    pub delivered: usize,
    pub failed: usize,
    pub other: usize,
}

/// Which tally bucket a state falls in.
#[derive(Debug, Clone, Copy, PartialEq, Eq, Structural)]
pub enum StateBucket {
    QueuedBucket,
    DeliveringBucket,
    DeliveredBucket,
    FailedBucket,
    OtherBucket,
}

/// The bucket of one state.
pub open spec fn spec_bucket(s: NotificationState) -> StateBucket {
    match s {
        NotificationState::Queued => StateBucket::QueuedBucket,
        NotificationState::Delivering => StateBucket::DeliveringBucket,
        NotificationState::Delivered => StateBucket::DeliveredBucket,
        NotificationState::Failed(_) => StateBucket::FailedBucket,
        _ => StateBucket::OtherBucket,
    }
}

/// How many records of a snapshot fall in a bucket.
pub open spec fn spec_bucket_count(
    records: Seq<(NotificationId, NotificationRecord)>,
    bucket: StateBucket,
) -> int
    decreases records.len(),
{
    if records.len() == 0 {
        0
    } else {
        (if spec_bucket(records[0].1.lifecycle.state) == bucket {
            1int
        } else {
            0int
        }) + spec_bucket_count(records.drop_first(), bucket)
    }
}

/// Tally the records of a store snapshot by state: each count is exactly
/// the number of records in that state, and the five sum to the snapshot's
/// size.
pub fn tally_states(records: &Vec<(NotificationId, NotificationRecord)>) -> (counts:
    ShutdownCounts)
    requires
        records@.len() <= usize::MAX,
    ensures
        counts.queued == spec_bucket_count(records@, StateBucket::QueuedBucket),
        counts.delivering == spec_bucket_count(records@, StateBucket::DeliveringBucket),
        counts.delivered == spec_bucket_count(records@, StateBucket::DeliveredBucket),
        counts.failed == spec_bucket_count(records@, StateBucket::FailedBucket),
        counts.other == spec_bucket_count(records@, StateBucket::OtherBucket),
        counts.queued + counts.delivering + counts.delivered + counts.failed + counts.other
            == records@.len(),
{
    let n: usize = records.len();
    let mut counts: ShutdownCounts = ShutdownCounts {
        queued: 0,
        delivering: 0,
        delivered: 0,
        failed: 0,
        other: 0,
    };
    let mut i: usize = 0;
    proof {
        assert(records@.skip(0) =~= records@);
    }
    while i < n
        invariant
            n == records@.len(),
            i <= n,
            counts.queued + counts.delivering + counts.delivered + counts.failed + counts.other
                == i,
            spec_bucket_count(records@, StateBucket::QueuedBucket) == counts.queued
                + spec_bucket_count(records@.skip(i as int), StateBucket::QueuedBucket),
            spec_bucket_count(records@, StateBucket::DeliveringBucket) == counts.delivering
                + spec_bucket_count(records@.skip(i as int), StateBucket::DeliveringBucket),
            spec_bucket_count(records@, StateBucket::DeliveredBucket) == counts.delivered
                + spec_bucket_count(records@.skip(i as int), StateBucket::DeliveredBucket),
            spec_bucket_count(records@, StateBucket::FailedBucket) == counts.failed
                + spec_bucket_count(records@.skip(i as int), StateBucket::FailedBucket),
            spec_bucket_count(records@, StateBucket::OtherBucket) == counts.other
                + spec_bucket_count(records@.skip(i as int), StateBucket::OtherBucket),
        decreases n - i,
    {
        proof {
            assert(records@.skip(i as int)[0] == records@[i as int]);
            assert(records@.skip(i as int).drop_first() =~= records@.skip(i as int + 1));
        }
        match &records[i].1.lifecycle.state {
            NotificationState::Queued => {
                counts.queued = counts.queued + 1;
            },
            NotificationState::Delivering => {
                counts.delivering = counts.delivering + 1;
            },
            NotificationState::Delivered => {
                counts.delivered = counts.delivered + 1;
            },
            NotificationState::Failed(_) => {
                counts.failed = counts.failed + 1;
            },
            _ => {
                counts.other = counts.other + 1;
            },
        }
        i = i + 1;
    }
    proof {
        assert(records@.skip(n as int) =~= Seq::<(NotificationId, NotificationRecord)>::empty());
    }
    counts
}

/// The cancellations a shutdown owes, in store order: for every record
/// still delivering, one pair per target platform, in target order.
pub open spec fn spec_cancel_pairs(records: Seq<(NotificationId, NotificationRecord)>) -> Seq<
    (NotificationId, Platform),
>
    decreases records.len(),
{
    if records.len() == 0 {
        Seq::<(NotificationId, Platform)>::empty()
    } else {
        (if records[0].1.lifecycle.state is Delivering {
            Seq::new(
                records[0].1.platform_integration.target_platforms@.len(),
                |k: int| (records[0].0, records[0].1.platform_integration.target_platforms@[k]),
            )
        } else {
            Seq::<(NotificationId, Platform)>::empty()
        }) + spec_cancel_pairs(records.drop_first())
    }
}

/// The cancellations a shutdown must attempt: exactly one per target
/// platform of every record still delivering, in store and target order —
/// each delivering record's id paired with each of its own targets, once.
pub fn cancel_plan(records: &Vec<(NotificationId, NotificationRecord)>) -> (plan: Vec<(
    NotificationId,
    Platform,
)>)
    ensures
        plan@ == spec_cancel_pairs(records@),
{
    let mut plan: Vec<(NotificationId, Platform)> = Vec::new();
    let n: usize = records.len();
    let mut i: usize = 0;
    proof {
        assert(records@.skip(0) =~= records@);
        assert(plan@ + spec_cancel_pairs(records@) =~= spec_cancel_pairs(records@));
    }
    while i < n
        invariant
            n == records@.len(),
            i <= n,
            spec_cancel_pairs(records@) == plan@ + spec_cancel_pairs(records@.skip(i as int)),
        decreases n - i,
    {
        proof {
            assert(records@.skip(i as int)[0] == records@[i as int]);
            assert(records@.skip(i as int).drop_first() =~= records@.skip(i as int + 1));
        }
        let delivering: bool = match &records[i].1.lifecycle.state {
            NotificationState::Delivering => true,
            _ => false,
        };
        if delivering {
            let ghost targets = records@[i as int].1.platform_integration.target_platforms@;
            let ghost record_id = records@[i as int].0;
            let m: usize = records[i].1.platform_integration.target_platforms.len();
            let ghost plan0 = plan@;
            let mut t: usize = 0;
            while t < m
                invariant
                    n == records@.len(),
                    i < n,
                    targets == records@[i as int].1.platform_integration.target_platforms@,
                    record_id == records@[i as int].0,
                    m == targets.len(),
                    t <= m,
                    plan@.len() == plan0.len() + t,
                    plan@.subrange(0, plan0.len() as int) == plan0,
                    forall|k: int|
                        0 <= k < t ==> #[trigger] plan@[plan0.len() + k] == (
                            record_id,
                            targets[k],
                        ),
                decreases m - t,
            {
                let platform: Platform =
                    records[i].1.platform_integration.target_platforms[t];
                let ghost before = plan@;
                plan.push((records[i].0, platform));
                proof {
                    assert(plan@.subrange(0, plan0.len() as int) =~= plan0);
                }
                t = t + 1;
            }
            proof {
                let ghost mapped = Seq::new(targets.len(), |k: int| (record_id, targets[k]));
                assert forall|k: int| 0 <= k < plan@.len() implies plan@[k] == (plan0
                    + mapped)[k] by {
                    if k < plan0.len() {
                        assert(plan@.subrange(0, plan0.len() as int)[k] == plan@[k]);
                    } else {
                        assert(plan@[plan0.len() + (k - plan0.len())] == (
                            record_id,
                            targets[k - plan0.len()],
                        ));
                    }
                }
                assert(plan@ =~= plan0 + mapped);
            }
        }
        i = i + 1;
    }
    proof {
        assert(records@.skip(n as int) =~= Seq::<(NotificationId, NotificationRecord)>::empty());
        assert(plan@ + Seq::<(NotificationId, Platform)>::empty() =~= plan@);
    }
    plan
}

/// What to report for a shutdown join phase: clean when no worker
/// panicked, the panic count otherwise, and a timeout when the join did
/// not finish.
pub fn classify_join_outcome(joined: bool, panicked: usize) -> (r: ShutdownResult)
    ensures
        !joined ==> r is TimedOut,
        joined && panicked == 0 ==> r is Clean,
        joined && panicked > 0 ==> r == ShutdownResult::WorkersPanicked(panicked),
{
    if !joined {
        ShutdownResult::TimedOut
    } else if panicked == 0 {
        ShutdownResult::Clean
    } else {
        ShutdownResult::WorkersPanicked(panicked)
    }
}

} // verus!
