//! Analytics data carried with notifications: user interactions, experiment
//! assignments, tracing events and behavioral signals.  Durations are in
//! milliseconds; timestamps are milliseconds since the Unix epoch.  The
//! floating-point scoring computed over these values lives with the
//! surrounding application.

use vstd::prelude::*;

use crate::identity::{CorrelationId, SpanId, TraceId};
use crate::platform::Platform;
use crate::time_wrapper::DefaultableInstant;

verus! {

/// Kinds of user interaction with a notification.
#[derive(Debug, Clone, Copy, PartialEq, Eq, Hash, Structural)]
pub enum InteractionType {
    Delivered,
    Viewed,
    Clicked,
    ActionPressed,
    InputSubmitted,
    MenuSelected,
    Dismissed,
    Closed,
    SharedContent,
    Copied,
    Saved,
    Forwarded,
}

impl Default for InteractionType {
    /// `Delivered`.
    fn default() -> (r: InteractionType)
        ensures
            r is Delivered,
    {
        InteractionType::Delivered
    }
}

/// How an interaction ended.
#[derive(Debug, Clone, PartialEq, Eq)]
pub enum InteractionOutcome {
    Success,
    Partial,
    Failed { reason: String },
    Abandoned,
}

impl Default for InteractionOutcome {
    /// `Success`.
    fn default() -> (r: InteractionOutcome)
        ensures
            r is Success,
    {
        InteractionOutcome::Success
    }
}

/// The circumstances of an interaction.
#[derive(Debug, Clone, PartialEq, Eq)]
pub struct InteractionContext {
    pub device_type: Option<String>,
    pub app_state: Option<String>,
    pub user_active: bool,
    pub notification_position: Option<usize>,
    pub concurrent_notifications: u32,
    pub time_since_last_notification_millis: Option<u64>,
}

/// How deeply the user engaged, shallow to deep.
#[derive(Debug, Clone, Copy, PartialEq, Eq, PartialOrd, Ord, Structural)]
pub enum EngagementDepth {
    NoEngagement,
    Delivered,
    Viewed,
    Clicked,
    Interacted,
    Engaged,
    Advocated,
}

/// One user interaction with a notification.
#[derive(Debug, Clone, PartialEq, Eq)]
pub struct UserInteraction {
    pub interaction_type: InteractionType,
    pub timestamp: DefaultableInstant,
    pub platform: Platform,
    pub response_time_millis: u64,
    pub duration_millis: Option<u64>,
    pub context: Option<InteractionContext>,
    pub outcome: InteractionOutcome,
    pub metadata: Vec<(String, String)>,
}

impl Default for UserInteraction {
    /// A delivered interaction stamped now, with everything else empty.
    fn default() -> (r: UserInteraction)
        ensures
            r.interaction_type is Delivered,
            r.response_time_millis == 0,
            r.duration_millis is None,
            r.context is None,
            r.outcome is Success,
            r.metadata@.len() == 0,
    {
        UserInteraction {
            interaction_type: InteractionType::Delivered,
            timestamp: DefaultableInstant::now(),
            platform: Platform::MacOS,
            response_time_millis: 0,
            duration_millis: None,
            context: None,
            outcome: InteractionOutcome::Success,
            metadata: Vec::new(),
        }
    }
}

/// Kinds of experiments a notification can belong to.
#[derive(Debug, Clone, PartialEq, Eq)]
pub enum ExperimentType {
    ContentVariant,
    StyleVariant,
    TimingVariant,
    PlatformVariant,
    InteractionVariant,
    Custom(String),
}

/// An experiment assignment.
#[derive(Debug, Clone, PartialEq, Eq)]
pub struct ExperimentData {
    pub experiment_id: String,
    pub variant_id: String,
    pub experiment_type: ExperimentType,
    pub assignment_timestamp: u64,
    pub control_group: bool,
    pub experiment_metadata: Vec<(String, String)>,
}

/// One hop of a traced request through a service.
#[derive(Debug, Clone, PartialEq, Eq)]
pub struct ServiceHop {
    pub service_name: String,
    pub timestamp: DefaultableInstant,
    pub duration_millis: u64,
    pub success: bool,
    pub metadata: Vec<(String, String)>,
}

impl Default for ServiceHop {
    /// An anonymous successful hop stamped now.
    fn default() -> (r: ServiceHop)
        ensures
            r.success,
            r.duration_millis == 0,
            r.metadata@.len() == 0,
    {
        ServiceHop {
            service_name: String::new(),
            timestamp: DefaultableInstant::now(),
            duration_millis: 0,
            success: true,
            metadata: Vec::new(),
        }
    }
}

/// Kinds of trace events.
#[derive(Debug, Clone, Copy, PartialEq, Eq, Structural)]
pub enum TraceEventType {
    Creation,
    Validation,
    PlatformRouting,
    Delivery,
    Interaction,
    Error,
    Completion,
}

impl Default for TraceEventType {
    /// `Creation`.
    fn default() -> (r: TraceEventType)
        ensures
            r is Creation,
    {
        TraceEventType::Creation
    }
}

/// One event on a notification's trace.
#[derive(Debug, Clone, PartialEq, Eq)]
pub struct TraceEvent {
    pub timestamp: DefaultableInstant,
    pub event_type: TraceEventType,
    pub platform: Option<Platform>,
    pub latency_millis: Option<u64>,
    pub success: Option<bool>,
    pub metadata: Vec<(String, String)>,
}

impl Default for TraceEvent {
    /// A creation event stamped now.
    fn default() -> (r: TraceEvent)
        ensures
            r.event_type is Creation,
            r.platform is None,
            r.latency_millis is None,
            r.success is None,
            r.metadata@.len() == 0,
    {
        TraceEvent {
            timestamp: DefaultableInstant::now(),
            event_type: TraceEventType::Creation,
            platform: None,
            latency_millis: None,
            success: None,
            metadata: Vec::new(),
        }
    }
}

/// Distributed tracing data gathered for one notification.
#[derive(Debug, Clone, PartialEq, Eq)]
pub struct DistributedTraceData {
    pub correlation_id: CorrelationId,
    pub trace_id: TraceId,
    pub span_id: SpanId,
    pub parent_span_id: Option<SpanId>,
    pub service_hops: Vec<ServiceHop>,
    pub trace_events: Vec<TraceEvent>,
    pub trace_attributes: Vec<(String, String)>,
}

impl DistributedTraceData {
    /// Fresh trace data under a correlation id.
    pub fn new(correlation_id: CorrelationId) -> (r: DistributedTraceData)
        ensures
            r.correlation_id == correlation_id,
            r.parent_span_id is None,
            r.service_hops@.len() == 0,
            r.trace_events@.len() == 0,
    {
        DistributedTraceData {
            correlation_id,
            trace_id: TraceId::generate(),
            span_id: SpanId::generate(),
            parent_span_id: None,
            service_hops: Vec::new(),
            trace_events: Vec::new(),
            trace_attributes: Vec::new(),
        }
    }

    /// Record one delivery event.
    pub fn record_delivery_event(
        &mut self,
        platform: Platform,
        latency_millis: u64,
        success: bool,
    )
        ensures
            final(self).trace_events@.len() == old(self).trace_events@.len() + 1,
            final(self).trace_events@.last().event_type is Delivery,
            final(self).trace_events@.last().platform == Some(platform),
            final(self).trace_events@.last().latency_millis == Some(latency_millis),
            final(self).trace_events@.last().success == Some(success),
            final(self).correlation_id == old(self).correlation_id,
    {
        self.trace_events.push(
            TraceEvent {
                timestamp: DefaultableInstant::now(),
                event_type: TraceEventType::Delivery,
                platform: Some(platform),
                latency_millis: Some(latency_millis),
                success: Some(success),
                metadata: Vec::new(),
            },
        );
    }

    /// Record one error event.
    pub fn record_error(&mut self, message: &str)
        ensures
            final(self).trace_events@.len() == old(self).trace_events@.len() + 1,
            final(self).trace_events@.last().event_type is Error,
            final(self).trace_events@.last().success == Some(false),
            final(self).correlation_id == old(self).correlation_id,
    {
        let mut metadata: Vec<(String, String)> = Vec::new();
        metadata.push(("message".to_owned(), message.to_owned()));
        self.trace_events.push(
            TraceEvent {
                timestamp: DefaultableInstant::now(),
                event_type: TraceEventType::Error,
                platform: None,
                latency_millis: None,
                success: Some(false),
                metadata,
            },
        );
    }
}

/// Kinds of conversions a notification can drive.
#[derive(Debug, Clone, PartialEq, Eq)]
pub enum ConversionType {
    View,
    Click,
    Engagement,
    Purchase,
    Signup,
    Referral,
    Custom(String),
}

/// Stages of the user journey.
#[derive(Debug, Clone, Copy, PartialEq, Eq, Structural)]
pub enum JourneyStage {
    Awareness,
    Interest,
    Consideration,
    Intent,
    Evaluation,
    Purchase,
    Advocacy,
}

/// Kinds of user feedback.
#[derive(Debug, Clone, Copy, PartialEq, Eq, Structural)]
pub enum FeedbackType {
    Positive,
    Negative,
    Neutral,
    Engagement,
    Conversion,
}

/// One event in an interaction sequence.
#[derive(Debug, Clone, PartialEq, Eq)]
pub struct InteractionSequenceEvent {
    pub timestamp: DefaultableInstant,
    pub interaction_type: InteractionType,
    pub context: Option<InteractionContext>,
}

/// Inferred intents behind interactions.
#[derive(Debug, Clone, Copy, PartialEq, Eq, Structural)]
pub enum IntentType {
    Interested,
    Dismissive,
    Urgent,
    Informational,
    Actionable,
}

/// Who was interacting.
#[derive(Debug, Clone, PartialEq, Eq)]
pub struct UserContext {
    pub user_id: Option<String>,
    pub session_id: String,
    pub user_segment: Option<String>,
    pub preferences: Vec<(String, String)>,
}

/// The user's attention state.
#[derive(Debug, Clone, Copy, PartialEq, Eq, Structural)]
pub enum FocusState {
    Focused,
    Distracted,
    DoNotDisturb,
    Away,
    Unknown,
}

/// Kinds of preference signals.
#[derive(Debug, Clone, Copy, PartialEq, Eq, Structural)]
pub enum PreferenceType {
    ContentRelevance,
    TimingPreference,
    PlatformPreference,
    ActionPreference,
    StylePreference,
}

/// Kinds of behavior patterns.
#[derive(Debug, Clone, Copy, PartialEq, Eq, Structural)]
pub enum PatternType {
    TimeBasedEngagement,
    ContentTypePreference,
    InteractionStyle,
    ResponseLatency,
    PlatformUsage,
}

} // verus!
