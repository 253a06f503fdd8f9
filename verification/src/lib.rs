//! Cross-platform desktop notification dispatcher.
//!
//! Applications build structured notification requests, the library validates
//! them against per-platform limits, negotiates platform capabilities, tracks
//! a per-notification lifecycle state machine with retry and circuit-breaker
//! policy, models a TTL plus size-bounded image cache, and computes the
//! decisions of the delivery workers.  Platform I/O (D-Bus, toast display,
//! UserNotifications, HTTP) is performed by the surrounding application; this
//! crate holds the verified logic and the exact wire payloads.

pub mod analytics;
pub mod authorization;
pub mod backends;
pub mod builder;
pub mod cache;
pub mod category;
pub mod content;
pub mod errors;
pub mod html;
pub mod identity;
pub mod lifecycle;
pub mod manager;
pub mod markdown;
pub mod platform;
pub mod priority;
pub mod store;
pub mod text;
pub mod time_wrapper;

pub use analytics::{
    ConversionType, DistributedTraceData, EngagementDepth, ExperimentData, ExperimentType,
    FeedbackType, FocusState, IntentType, InteractionContext, InteractionOutcome,
    InteractionSequenceEvent, InteractionType, JourneyStage, PatternType, PreferenceType,
    ServiceHop, TraceEvent, TraceEventType, UserContext, UserInteraction,
};
pub use backends::{
    ActionChange, HintValue, MacosPresentation, MediaChange, NotificationRequest,
    NotificationUpdate, NotifyArgs, PlatformDeliveryReceipt,
};
pub use authorization::DefaultAuthorizationManager;
pub use builder::NotificationBuilder;
pub use cache::{CachedImage, ImageCache, ResolveAction, ResolvedImage};
pub use category::{ActionOptions, CategoryAction, CategoryOptions, NotificationCategory};
pub use content::{
    AccessibilityMetadata, ActionConfirmation, ActionIcon, ActionId, ActionPayload, ActionStyle,
    ActivationType, AudioSource, ContextMenuAction, ImageData, ImageFormat, ImagePlacement,
    InputId, InputValidation, InteractionSet, LocalizationData, MediaAttachment,
    NotificationAction, NotificationContent, NotificationInput, NotificationInteraction,
    PlatformLimits, QuickReply, RichText, SelectionOption, SystemSound, ValidationState,
};
pub use errors::{NotificationBuildError, NotificationError, NotificationResult};
pub use identity::{
    CorrelationId, CreatorContext, NotificationId, NotificationIdentity, SessionId, SpanId,
    TraceContext, TraceId, TraceSpan,
};
pub use lifecycle::{
    BackoffStrategy, CircuitBreakerState, DeliveryAttemptResult, DeliveryProgress, DeliveryReceipt,
    ErrorDetails as LifecycleErrorDetails, ErrorType as LifecycleErrorType, ExpirationPolicy,
    NotificationLifecycle, NotificationState, NotificationTiming,
    PerformanceMetrics as LifecyclePerformanceMetrics, PlatformDeliveryState,
    PlatformDeliveryStatus, PlatformError, RetryPolicy, StateTransition, TransitionReason,
};
pub use manager::{
    DeliveryJob, DeliveryResult, NotificationRecord, ShutdownCounts, ShutdownResult,
};
pub use platform::{
    ActionFallback, AuthorizationState, CompatibilityLevel, DegradationStrategy, DeliveryOptions,
    Feature, FeatureDegradation, FeatureMatrix, GlobalPreferences, MarkupFallback, MediaFallback,
    NativeHandleMetadata, PermissionLevel, Platform, PlatformCapabilities, PlatformConfig,
    PlatformIntegration, PlatformPreferences, PlatformUserSettings, RateLimit,
};
pub use priority::Priority;
pub use store::{Notification, NotificationStatus, NotificationStore};
pub use text::{html_escape, pango_escape, sanitize_string, xml_escape};
pub use time_wrapper::DefaultableInstant;
