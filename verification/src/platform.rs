//! Platforms, their capabilities, the feature matrix computed across them,
//! degradation strategies, and per-platform authorization state.

use vstd::prelude::*;

use crate::content::PlatformLimits;
use crate::text::str_eq;
use crate::time_wrapper::clock_now_millis;

verus! {

// ---------------------------------------------------------------------------
// Platforms
// ---------------------------------------------------------------------------

/// The platforms a notification can target.
#[derive(Debug, Clone, Copy, PartialEq, Eq, Hash, Structural)]
pub enum Platform {
    /// macOS with the UserNotifications framework.
    MacOS,
    /// Windows with toast notifications.
    Windows,
    /// Linux with D-Bus desktop notifications.
    Linux,
    /// Web with service workers.
    Web,
    /// iOS (future mobile support).
    IOs,
    /// Android (future mobile support).
    Android,
}

impl Default for Platform {
    /// `MacOS`.
    fn default() -> (r: Platform)
        ensures
            r is MacOS,
    {
        Platform::MacOS
    }
}

/// The display name of a platform.
pub open spec fn spec_platform_name(p: Platform) -> Seq<char> {
    match p {
        Platform::MacOS => "macOS"@,
        Platform::Windows => "Windows"@,
        Platform::Linux => "Linux"@,
        Platform::Web => "Web"@,
        Platform::IOs => "iOS"@,
        Platform::Android => "Android"@,
    }
}

impl Platform {
    /// The platform's display name.
    pub fn name(&self) -> (r: &'static str)
        ensures
            r@ == spec_platform_name(*self),
            *self is MacOS ==> r@ == "macOS"@,
            *self is Windows ==> r@ == "Windows"@,
            *self is Linux ==> r@ == "Linux"@,
            *self is Web ==> r@ == "Web"@,
            *self is IOs ==> r@ == "iOS"@,
            *self is Android ==> r@ == "Android"@,
    {
        match self {
            Platform::MacOS => "macOS",
            Platform::Windows => "Windows",
            Platform::Linux => "Linux",
            Platform::Web => "Web",
            Platform::IOs => "iOS",
            Platform::Android => "Android",
        }
    }

    /// Whether this is a desktop platform.
    pub fn is_desktop(&self) -> (r: bool)
        ensures
            r == (*self is MacOS || *self is Windows || *self is Linux),
    {
        match self {
            Platform::MacOS | Platform::Windows | Platform::Linux => true,
            _ => false,
        }
    }

    /// Whether this is a mobile platform.
    pub fn is_mobile(&self) -> (r: bool)
        ensures
            r == (*self is IOs || *self is Android),
    {
        match self {
            Platform::IOs | Platform::Android => true,
            _ => false,
        }
    }

    /// Whether this is the web platform.
    pub fn is_web(&self) -> (r: bool)
        ensures
            r == (*self is Web),
    {
        match self {
            Platform::Web => true,
            _ => false,
        }
    }
}

// ---------------------------------------------------------------------------
// Features
// ---------------------------------------------------------------------------

/// The fixed set of features the capability negotiation knows.
#[derive(Debug, Clone, Copy, PartialEq, Eq, Hash, Structural)]
pub enum Feature {
    Actions,
    RichMedia,
    Markup,
    Sound,
    Scheduling,
    Progress,
    Categories,
    Replies,
    CustomUi,
    BackgroundActivation,
    UpdateContent,
    Persistent,
    PriorityLevels,
    Grouping,
    Badges,
    Vibration,
}

/// All sixteen known features, in their canonical order.
pub open spec fn spec_all_features() -> Seq<Feature> {
    seq![
        Feature::Actions,
        Feature::RichMedia,
        Feature::Markup,
        Feature::Sound,
        Feature::Scheduling,
        Feature::Progress,
        Feature::Categories,
        Feature::Replies,
        Feature::CustomUi,
        Feature::BackgroundActivation,
        Feature::UpdateContent,
        Feature::Persistent,
        Feature::PriorityLevels,
        Feature::Grouping,
        Feature::Badges,
        Feature::Vibration,
    ]
}

/// All sixteen known features, in their canonical order.
pub fn all_features() -> (r: Vec<Feature>)
    ensures
        r@ == spec_all_features(),
{
    let mut v: Vec<Feature> = Vec::new();
    v.push(Feature::Actions);
    v.push(Feature::RichMedia);
    v.push(Feature::Markup);
    v.push(Feature::Sound);
    v.push(Feature::Scheduling);
    v.push(Feature::Progress);
    v.push(Feature::Categories);
    v.push(Feature::Replies);
    v.push(Feature::CustomUi);
    v.push(Feature::BackgroundActivation);
    v.push(Feature::UpdateContent);
    v.push(Feature::Persistent);
    v.push(Feature::PriorityLevels);
    v.push(Feature::Grouping);
    v.push(Feature::Badges);
    v.push(Feature::Vibration);
    proof {
        assert(v@ =~= spec_all_features());
    }
    v
}

/// The feature a name denotes, if any.
pub open spec fn spec_feature_of_name(n: Seq<char>) -> Option<Feature> {
    if n == "actions"@ {
        Some(Feature::Actions)
    } else if n == "rich_media"@ {
        Some(Feature::RichMedia)
    } else if n == "markup"@ {
        Some(Feature::Markup)
    } else if n == "sound"@ {
        Some(Feature::Sound)
    } else if n == "scheduling"@ {
        Some(Feature::Scheduling)
    } else if n == "progress"@ {
        Some(Feature::Progress)
    } else if n == "categories"@ {
        Some(Feature::Categories)
    } else if n == "replies"@ {
        Some(Feature::Replies)
    } else if n == "custom_ui"@ {
        Some(Feature::CustomUi)
    } else if n == "background_activation"@ {
        Some(Feature::BackgroundActivation)
    } else if n == "update_content"@ {
        Some(Feature::UpdateContent)
    } else if n == "persistent"@ {
        Some(Feature::Persistent)
    } else if n == "priority"@ {
        Some(Feature::PriorityLevels)
    } else if n == "grouping"@ {
        Some(Feature::Grouping)
    } else if n == "badges"@ {
        Some(Feature::Badges)
    } else if n == "vibration"@ {
        Some(Feature::Vibration)
    } else {
        None
    }
}

/// Parse a feature name.
pub fn feature_of_name(n: &str) -> (r: Option<Feature>)
    ensures
        r == spec_feature_of_name(n@),
{
    if str_eq(n, "actions") {
        Some(Feature::Actions)
    } else if str_eq(n, "rich_media") {
        Some(Feature::RichMedia)
    } else if str_eq(n, "markup") {
        Some(Feature::Markup)
    } else if str_eq(n, "sound") {
        Some(Feature::Sound)
    } else if str_eq(n, "scheduling") {
        Some(Feature::Scheduling)
    } else if str_eq(n, "progress") {
        Some(Feature::Progress)
    } else if str_eq(n, "categories") {
        Some(Feature::Categories)
    } else if str_eq(n, "replies") {
        Some(Feature::Replies)
    } else if str_eq(n, "custom_ui") {
        Some(Feature::CustomUi)
    } else if str_eq(n, "background_activation") {
        Some(Feature::BackgroundActivation)
    } else if str_eq(n, "update_content") {
        Some(Feature::UpdateContent)
    } else if str_eq(n, "persistent") {
        Some(Feature::Persistent)
    } else if str_eq(n, "priority") {
        Some(Feature::PriorityLevels)
    } else if str_eq(n, "grouping") {
        Some(Feature::Grouping)
    } else if str_eq(n, "badges") {
        Some(Feature::Badges)
    } else if str_eq(n, "vibration") {
        Some(Feature::Vibration)
    } else {
        None
    }
}

// ---------------------------------------------------------------------------
// Capabilities
// ---------------------------------------------------------------------------

/// How completely a platform backend supports the library's feature set.
#[derive(Debug, Clone, Copy, PartialEq, Eq, Structural)]
pub enum CompatibilityLevel {
    Full,
    High,
    Medium,
    Low,
    Unsupported,
}

/// Fine-grained permissions a platform may require.
#[derive(Debug, Clone, Copy, PartialEq, Eq, Hash, Structural)]
pub enum PermissionLevel {
    Display,
    Sound,
    Badge,
    Media,
    Actions,
    Background,
    Location,
    MediaCapture,
    Critical,
}

/// Rate limits a platform imposes.  The cooldown is in milliseconds.
#[derive(Debug, Clone, PartialEq, Eq, Structural)]
pub struct RateLimit {
    pub requests_per_minute: u32,
    pub burst_limit: u32,
    pub cooldown_millis: u64,
}

/// What a platform backend can do, with its content limits.  Durations are
/// in milliseconds.
#[derive(Debug, Clone)]
pub struct PlatformCapabilities {
    pub supports_actions: bool,
    pub supports_rich_media: bool,
    pub supports_markup: bool,
    pub supports_sound: bool,
    pub supports_scheduling: bool,
    pub supports_progress: bool,
    pub supports_categories: bool,
    pub supports_replies: bool,
    pub supports_custom_ui: bool,
    pub supports_background_activation: bool,
    pub supports_update_content: bool,
    pub supports_persistent: bool,
    pub supports_priority: bool,
    pub supports_grouping: bool,
    pub supports_badges: bool,
    pub supports_vibration: bool,
    pub max_actions: Option<usize>,
    pub max_title_length: Option<usize>,
    pub max_body_length: Option<usize>,
    pub max_image_size: Option<usize>,
    pub max_sound_duration_millis: Option<u64>,
    pub platform_features: Vec<(String, bool)>,
    pub platform_limits: Vec<(String, usize)>,
    pub authorization_required: bool,
    pub permission_levels: Vec<PermissionLevel>,
    pub platform_version: Option<String>,
    pub api_version: Option<String>,
    pub compatibility_level: CompatibilityLevel,
    pub delivery_latency_estimate_millis: Option<u64>,
    pub supports_batching: bool,
    pub rate_limits: Option<RateLimit>,
}

/// Whether a capability record supports a known feature.
pub open spec fn caps_supports(c: PlatformCapabilities, f: Feature) -> bool {
    match f {
        Feature::Actions => c.supports_actions,
        Feature::RichMedia => c.supports_rich_media,
        Feature::Markup => c.supports_markup,
        Feature::Sound => c.supports_sound,
        Feature::Scheduling => c.supports_scheduling,
        Feature::Progress => c.supports_progress,
        Feature::Categories => c.supports_categories,
        Feature::Replies => c.supports_replies,
        Feature::CustomUi => c.supports_custom_ui,
        Feature::BackgroundActivation => c.supports_background_activation,
        Feature::UpdateContent => c.supports_update_content,
        Feature::Persistent => c.supports_persistent,
        Feature::PriorityLevels => c.supports_priority,
        Feature::Grouping => c.supports_grouping,
        Feature::Badges => c.supports_badges,
        Feature::Vibration => c.supports_vibration,
    }
}

/// The first value under `key` in a string-keyed association list.
pub open spec fn spec_named_flag(m: Seq<(String, bool)>, key: Seq<char>) -> Option<bool>
    decreases m.len(),
{
    if m.len() == 0 {
        None
    } else if m[0].0@ == key {
        Some(m[0].1)
    } else {
        spec_named_flag(m.drop_first(), key)
    }
}

/// Whether a capability record supports the feature `name` names: the fixed
/// table for known names, the custom feature flags for anything else.
pub open spec fn caps_supports_named(c: PlatformCapabilities, name: Seq<char>) -> bool {
    match spec_feature_of_name(name) {
        Some(f) => caps_supports(c, f),
        None => spec_named_flag(c.platform_features@, name) == Some(true),
    }
}

/// The first value under `key` in a string-keyed size list.
pub open spec fn spec_named_size(m: Seq<(String, usize)>, key: Seq<char>) -> Option<usize>
    decreases m.len(),
{
    if m.len() == 0 {
        None
    } else if m[0].0@ == key {
        Some(m[0].1)
    } else {
        spec_named_size(m.drop_first(), key)
    }
}

/// The content limits of a capability record, as one value: each typed
/// field when set, else the custom `platform_limits` entry of the same
/// name; the file-size limit comes from the custom entries alone.
pub open spec fn spec_caps_limits(c: PlatformCapabilities) -> PlatformLimits {
    PlatformLimits {
        max_actions: match c.max_actions {
            Some(x) => Some(x),
            None => spec_named_size(c.platform_limits@, "max_actions"@),
        },
        max_title_length: match c.max_title_length {
            Some(x) => Some(x),
            None => spec_named_size(c.platform_limits@, "max_title_length"@),
        },
        max_body_length: match c.max_body_length {
            Some(x) => Some(x),
            None => spec_named_size(c.platform_limits@, "max_body_length"@),
        },
        max_image_size: match c.max_image_size {
            Some(x) => Some(x),
            None => spec_named_size(c.platform_limits@, "max_image_size"@),
        },
        max_file_size: spec_named_size(c.platform_limits@, "max_file_size"@),
    }
}

/// Look a key up in the custom size list.
fn named_size_lookup(m: &Vec<(String, usize)>, key: &str) -> (r: Option<usize>)
    ensures
        r == spec_named_size(m@, key@),
{
    let n: usize = m.len();
    let mut i: usize = 0;
    proof {
        assert(m@.skip(0) =~= m@);
    }
    while i < n
        invariant
            n == m@.len(),
            i <= n,
            spec_named_size(m@, key@) == spec_named_size(m@.skip(i as int), key@),
        decreases n - i,
    {
        proof {
            assert(m@.skip(i as int)[0] == m@[i as int]);
            assert(m@.skip(i as int).drop_first() =~= m@.skip(i as int + 1));
        }
        if str_eq(m[i].0.as_str(), key) {
            return Some(m[i].1);
        }
        i = i + 1;
    }
    None
}

impl PlatformCapabilities {
    /// A record that supports nothing and limits nothing.
    pub fn none() -> (r: PlatformCapabilities)
        ensures
            !r.supports_actions,
            !r.supports_rich_media,
            !r.supports_markup,
            !r.supports_sound,
            !r.supports_scheduling,
            !r.supports_progress,
            !r.supports_categories,
            !r.supports_replies,
            !r.supports_custom_ui,
            !r.supports_background_activation,
            !r.supports_update_content,
            !r.supports_persistent,
            !r.supports_priority,
            !r.supports_grouping,
            !r.supports_badges,
            !r.supports_vibration,
            forall|f: Feature| !(#[trigger] caps_supports(r, f)),
            r.max_actions is None,
            r.max_title_length is None,
            r.max_body_length is None,
            r.max_image_size is None,
            r.max_sound_duration_millis is None,
            !r.authorization_required,
            r.compatibility_level is Full,
            r.rate_limits is None,
            r.platform_features@.len() == 0,
            r.platform_limits@.len() == 0,
            r.permission_levels@.len() == 0,
            !r.supports_batching,
    {
        PlatformCapabilities {
            supports_actions: false,
            supports_rich_media: false,
            supports_markup: false,
            supports_sound: false,
            supports_scheduling: false,
            supports_progress: false,
            supports_categories: false,
            supports_replies: false,
            supports_custom_ui: false,
            supports_background_activation: false,
            supports_update_content: false,
            supports_persistent: false,
            supports_priority: false,
            supports_grouping: false,
            supports_badges: false,
            supports_vibration: false,
            max_actions: None,
            max_title_length: None,
            max_body_length: None,
            max_image_size: None,
            max_sound_duration_millis: None,
            platform_features: Vec::new(),
            platform_limits: Vec::new(),
            authorization_required: false,
            permission_levels: Vec::new(),
            platform_version: None,
            api_version: None,
            compatibility_level: CompatibilityLevel::Full,
            delivery_latency_estimate_millis: None,
            supports_batching: false,
            rate_limits: None,
        }
    }

    /// The content limits of this record, custom entries merged in.
    pub fn get_limits(&self) -> (r: PlatformLimits)
        ensures
            r == spec_caps_limits(*self),
    {
        PlatformLimits {
            max_actions: match self.max_actions {
                Some(x) => Some(x),
                None => named_size_lookup(&self.platform_limits, "max_actions"),
            },
            max_title_length: match self.max_title_length {
                Some(x) => Some(x),
                None => named_size_lookup(&self.platform_limits, "max_title_length"),
            },
            max_body_length: match self.max_body_length {
                Some(x) => Some(x),
                None => named_size_lookup(&self.platform_limits, "max_body_length"),
            },
            max_image_size: match self.max_image_size {
                Some(x) => Some(x),
                None => named_size_lookup(&self.platform_limits, "max_image_size"),
            },
            max_file_size: named_size_lookup(&self.platform_limits, "max_file_size"),
        }
    }

    /// Whether this record supports the feature `name` names.
    pub fn supports_feature(&self, name: &str) -> (r: bool)
        ensures
            r == caps_supports_named(*self, name@),
    {
        match feature_of_name(name) {
            Some(f) => self.supports(f),
            None => {
                let n: usize = self.platform_features.len();
                let mut i: usize = 0;
                proof {
                    assert(self.platform_features@.skip(0) =~= self.platform_features@);
                }
                while i < n
                    invariant
                        n == self.platform_features@.len(),
                        i <= n,
                        spec_feature_of_name(name@) is None,
                        spec_named_flag(self.platform_features@, name@) == spec_named_flag(
                            self.platform_features@.skip(i as int),
                            name@,
                        ),
                    decreases n - i,
                {
                    proof {
                        assert(self.platform_features@.skip(i as int)[0]
                            == self.platform_features@[i as int]);
                        assert(self.platform_features@.skip(i as int).drop_first()
                            =~= self.platform_features@.skip(i as int + 1));
                    }
                    if str_eq(self.platform_features[i].0.as_str(), name) {
                        proof {
                            assert(spec_named_flag(
                                self.platform_features@.skip(i as int),
                                name@,
                            ) == Some(self.platform_features@[i as int].1));
                        }
                        return self.platform_features[i].1;
                    }
                    i = i + 1;
                }
                proof {
                    assert(self.platform_features@.skip(n as int)
                        =~= Seq::<(String, bool)>::empty());
                }
                false
            },
        }
    }

    /// Whether this record supports a known feature.
    pub fn supports(&self, f: Feature) -> (r: bool)
        ensures
            r == caps_supports(*self, f),
    {
        match f {
            Feature::Actions => self.supports_actions,
            Feature::RichMedia => self.supports_rich_media,
            Feature::Markup => self.supports_markup,
            Feature::Sound => self.supports_sound,
            Feature::Scheduling => self.supports_scheduling,
            Feature::Progress => self.supports_progress,
            Feature::Categories => self.supports_categories,
            Feature::Replies => self.supports_replies,
            Feature::CustomUi => self.supports_custom_ui,
            Feature::BackgroundActivation => self.supports_background_activation,
            Feature::UpdateContent => self.supports_update_content,
            Feature::Persistent => self.supports_persistent,
            Feature::PriorityLevels => self.supports_priority,
            Feature::Grouping => self.supports_grouping,
            Feature::Badges => self.supports_badges,
            Feature::Vibration => self.supports_vibration,
        }
    }

    /// The score used to pick the best platform for a feature.
    pub fn feature_score(&self, f: Feature) -> (r: u32)
        ensures
            r == cap_score(*self, f),
    {
        let mut score: u32 = 0;
        if self.supports(f) {
            score = score + 10;
        }
        if self.supports_background_activation {
            score = score + 5;
        }
        if self.supports_custom_ui {
            score = score + 3;
        }
        match self.rate_limits {
            Option::None => {
                score = score + 2;
            },
            _ => {},
        }
        score
    }
}

/// The composite score of a capability record for a feature: supporting the
/// feature counts 10, background activation 5, custom UI 3, the absence of
/// rate limits 2.
pub open spec fn cap_score(c: PlatformCapabilities, f: Feature) -> int {
    (if caps_supports(c, f) {
        10int
    } else {
        0int
    }) + (if c.supports_background_activation {
        5int
    } else {
        0int
    }) + (if c.supports_custom_ui {
        3int
    } else {
        0int
    }) + (if c.rate_limits is None {
        2int
    } else {
        0int
    })
}

/// The built-in fallback capabilities of a known platform.
pub open spec fn spec_default_supports(p: Platform, f: Feature) -> bool {
    match p {
        Platform::MacOS => match f {
            Feature::Actions => true,
            Feature::RichMedia => true,
            Feature::Markup => false,
            Feature::Sound => true,
            Feature::Scheduling => true,
            Feature::Progress => false,
            Feature::Categories => true,
            Feature::Replies => true,
            _ => false,
        },
        Platform::Windows => match f {
            Feature::Actions => true,
            Feature::RichMedia => true,
            Feature::Markup => true,
            Feature::Sound => true,
            Feature::Scheduling => false,
            Feature::Progress => true,
            Feature::Categories => false,
            Feature::Replies => false,
            _ => false,
        },
        Platform::Linux => match f {
            Feature::Actions => true,
            Feature::RichMedia => true,
            Feature::Markup => false,
            Feature::Sound => true,
            Feature::Scheduling => false,
            Feature::Progress => false,
            Feature::Categories => false,
            Feature::Replies => false,
            _ => false,
        },
        Platform::Web => match f {
            Feature::Actions => true,
            Feature::RichMedia => true,
            Feature::Markup => false,
            Feature::Sound => false,
            Feature::Scheduling => false,
            Feature::Progress => false,
            Feature::Categories => false,
            Feature::Replies => false,
            _ => false,
        },
        _ => false,
    }
}

/// The built-in fallback limits of a known platform.
pub open spec fn spec_default_limits(p: Platform) -> PlatformLimits {
    match p {
        Platform::MacOS => PlatformLimits {
            max_actions: Some(4usize),
            max_title_length: Some(256usize),
            max_body_length: Some(2048usize),
            max_image_size: Some(10485760usize),
            max_file_size: None,
        },
        Platform::Windows => PlatformLimits {
            max_actions: Some(5usize),
            max_title_length: Some(128usize),
            max_body_length: Some(1024usize),
            max_image_size: Some(204800usize),
            max_file_size: None,
        },
        Platform::Linux => PlatformLimits {
            max_actions: None,
            max_title_length: Some(512usize),
            max_body_length: Some(4096usize),
            max_image_size: Some(1048576usize),
            max_file_size: None,
        },
        Platform::Web => PlatformLimits {
            max_actions: Some(2usize),
            max_title_length: Some(256usize),
            max_body_length: Some(2048usize),
            max_image_size: Some(512000usize),
            max_file_size: None,
        },
        _ => PlatformLimits {
            max_actions: None,
            max_title_length: None,
            max_body_length: None,
            max_image_size: None,
            max_file_size: None,
        },
    }
}


/// Field-by-field agreement with the default table lifts to all features.
proof fn lemma_supports_eq(c: PlatformCapabilities, p: Platform)
    requires
        c.supports_actions == spec_default_supports(p, Feature::Actions),
        c.supports_rich_media == spec_default_supports(p, Feature::RichMedia),
        c.supports_markup == spec_default_supports(p, Feature::Markup),
        c.supports_sound == spec_default_supports(p, Feature::Sound),
        c.supports_scheduling == spec_default_supports(p, Feature::Scheduling),
        c.supports_progress == spec_default_supports(p, Feature::Progress),
        c.supports_categories == spec_default_supports(p, Feature::Categories),
        c.supports_replies == spec_default_supports(p, Feature::Replies),
        c.supports_custom_ui == spec_default_supports(p, Feature::CustomUi),
        c.supports_background_activation == spec_default_supports(p, Feature::BackgroundActivation),
        c.supports_update_content == spec_default_supports(p, Feature::UpdateContent),
        c.supports_persistent == spec_default_supports(p, Feature::Persistent),
        c.supports_priority == spec_default_supports(p, Feature::PriorityLevels),
        c.supports_grouping == spec_default_supports(p, Feature::Grouping),
        c.supports_badges == spec_default_supports(p, Feature::Badges),
        c.supports_vibration == spec_default_supports(p, Feature::Vibration),
    ensures
        forall|f: Feature| #[trigger] caps_supports(c, f) == spec_default_supports(p, f),
{
    assert forall|f: Feature| #[trigger] caps_supports(c, f) == spec_default_supports(p, f)
        by {
        if f is Actions {
        } else if f is RichMedia {
        } else if f is Markup {
        } else if f is Sound {
        } else if f is Scheduling {
        } else if f is Progress {
        } else if f is Categories {
        } else if f is Replies {
        } else if f is CustomUi {
        } else if f is BackgroundActivation {
        } else if f is UpdateContent {
        } else if f is Persistent {
        } else if f is PriorityLevels {
        } else if f is Grouping {
        } else if f is Badges {
        } else if f is Vibration {
        } else {
        }
    }
}

impl Platform {
    /// The fallback capabilities assumed when no backend has negotiated:
    /// the documented feature table and limits of each desktop platform and
    /// the web, and an empty record for mobile platforms.
    pub fn default_capabilities(&self) -> (r: PlatformCapabilities)
        ensures
            forall|f: Feature| #[trigger] caps_supports(r, f) == spec_default_supports(*self, f),
            spec_caps_limits(r) == spec_default_limits(*self),
            r.authorization_required == (*self is MacOS || *self is Web),
            r.rate_limits is None,
            r.platform_features@.len() == 0,
    {
        let mut caps: PlatformCapabilities = PlatformCapabilities::none();
        match self {
            Platform::MacOS => {
                caps.supports_actions = true;
                caps.supports_rich_media = true;
                caps.supports_sound = true;
                caps.supports_scheduling = true;
                caps.supports_categories = true;
                caps.supports_replies = true;
                caps.max_actions = Some(4);
                caps.max_title_length = Some(256);
                caps.max_body_length = Some(2048);
                caps.max_image_size = Some(10485760);
                caps.authorization_required = true;
                proof {
                    lemma_supports_eq(caps, *self);
                }
            },
            Platform::Windows => {
                caps.supports_actions = true;
                caps.supports_rich_media = true;
                caps.supports_markup = true;
                caps.supports_sound = true;
                caps.supports_progress = true;
                caps.max_actions = Some(5);
                caps.max_title_length = Some(128);
                caps.max_body_length = Some(1024);
                caps.max_image_size = Some(204800);
                proof {
                    lemma_supports_eq(caps, *self);
                }
            },
            Platform::Linux => {
                caps.supports_actions = true;
                caps.supports_rich_media = true;
                caps.supports_sound = true;
                caps.max_title_length = Some(512);
                caps.max_body_length = Some(4096);
                caps.max_image_size = Some(1048576);
                proof {
                    lemma_supports_eq(caps, *self);
                }
            },
            Platform::Web => {
                caps.supports_actions = true;
                caps.supports_rich_media = true;
                caps.max_actions = Some(2);
                caps.max_title_length = Some(256);
                caps.max_body_length = Some(2048);
                caps.max_image_size = Some(512000);
                caps.authorization_required = true;
                proof {
                    lemma_supports_eq(caps, *self);
                }
            },
            _ => {
                proof {
                    lemma_supports_eq(caps, *self);
                }
            },
        }
        caps
    }
}

// ---------------------------------------------------------------------------
// Feature matrix
// ---------------------------------------------------------------------------

/// Every `Feature` value occurs in the canonical list.
pub proof fn lemma_all_features_complete(f: Feature)
    ensures
        spec_all_features().contains(f),
{
    let all = spec_all_features();
    if f is Actions {
        assert(all[0] == f);
    } else if f is RichMedia {
        assert(all[1] == f);
    } else if f is Markup {
        assert(all[2] == f);
    } else if f is Sound {
        assert(all[3] == f);
    } else if f is Scheduling {
        assert(all[4] == f);
    } else if f is Progress {
        assert(all[5] == f);
    } else if f is Categories {
        assert(all[6] == f);
    } else if f is Replies {
        assert(all[7] == f);
    } else if f is CustomUi {
        assert(all[8] == f);
    } else if f is BackgroundActivation {
        assert(all[9] == f);
    } else if f is UpdateContent {
        assert(all[10] == f);
    } else if f is Persistent {
        assert(all[11] == f);
    } else if f is PriorityLevels {
        assert(all[12] == f);
    } else if f is Grouping {
        assert(all[13] == f);
    } else if f is Badges {
        assert(all[14] == f);
    } else {
        assert(all[15] == f);
    }
}

/// Does any capability record in `caps` support `f`?
pub open spec fn supports_in(caps: Seq<(Platform, PlatformCapabilities)>, f: Feature) -> bool {
    exists|k: int| 0 <= k < caps.len() && caps_supports((#[trigger] caps[k]).1, f)
}

/// Do all capability records in `caps` support `f`?
pub open spec fn all_support(caps: Seq<(Platform, PlatformCapabilities)>, f: Feature) -> bool {
    forall|k: int| 0 <= k < caps.len() ==> caps_supports((#[trigger] caps[k]).1, f)
}

/// The platforms whose capabilities support `f`, in capability order.
pub open spec fn spec_supporters(
    caps: Seq<(Platform, PlatformCapabilities)>,
    f: Feature,
) -> Seq<Platform>
    decreases caps.len(),
{
    if caps.len() == 0 {
        Seq::<Platform>::empty()
    } else {
        (if caps_supports(caps[0].1, f) {
            seq![caps[0].0]
        } else {
            Seq::<Platform>::empty()
        }) + spec_supporters(caps.drop_first(), f)
    }
}

/// The known features a capability record supports, in canonical order.
pub open spec fn spec_feature_list(c: PlatformCapabilities) -> Seq<Feature> {
    spec_all_features().filter(|f: Feature| caps_supports(c, f))
}

/// The feature support matrix computed across a set of platforms.
#[derive(Debug, Clone)]
pub struct FeatureMatrix {
    /// The features each platform supports.
    pub platform_features: Vec<(Platform, Vec<Feature>)>,
    /// Features every platform supports.
    pub universal_features: Vec<Feature>,
    /// Features some but not all platforms support, with their supporters.
    pub partial_support: Vec<(Feature, Vec<Platform>)>,
    /// The highest-scoring platform for each supported feature.
    pub best_platform_per_feature: Vec<(Feature, Platform)>,
}

/// Whether the matrix lists `f` as supported: universally or partially.
pub open spec fn matrix_supported(m: FeatureMatrix, f: Feature) -> bool {
    m.universal_features@.contains(f) || (exists|k: int|
        0 <= k < m.partial_support@.len() && (#[trigger] m.partial_support@[k]).0 == f)
}

/// Whether the matrix lists the feature `name` names as supported; unknown
/// names are unsupported.
pub open spec fn matrix_supported_named(m: FeatureMatrix, name: Seq<char>) -> bool {
    match spec_feature_of_name(name) {
        Some(f) => matrix_supported(m, f),
        None => false,
    }
}

/// A best-platform entry is valid for `caps` when its platform appears in
/// `caps`, supports the feature, and no record scores higher.
pub open spec fn best_entry_valid(
    caps: Seq<(Platform, PlatformCapabilities)>,
    entry: (Feature, Platform),
) -> bool {
    exists|j: int|
        0 <= j < caps.len() && (#[trigger] caps[j]).0 == entry.1 && caps_supports(
            caps[j].1,
            entry.0,
        ) && (forall|j2: int|
            0 <= j2 < caps.len() && caps_supports((#[trigger] caps[j2]).1, entry.0)
                ==> cap_score(caps[j2].1, entry.0) <= cap_score(caps[j].1, entry.0))
}

impl Default for FeatureMatrix {
    /// An empty matrix: nothing supported anywhere.
    fn default() -> (r: FeatureMatrix)
        ensures
            r.platform_features@.len() == 0,
            r.universal_features@.len() == 0,
            r.partial_support@.len() == 0,
            r.best_platform_per_feature@.len() == 0,
    {
        FeatureMatrix {
            platform_features: Vec::new(),
            universal_features: Vec::new(),
            partial_support: Vec::new(),
            best_platform_per_feature: Vec::new(),
        }
    }
}

impl FeatureMatrix {
    /// Compute the matrix from negotiated capabilities.  The matrix supports
    /// a feature exactly when some platform's capabilities support it; an
    /// empty capability set therefore supports nothing.  Every best-platform
    /// entry names a supporting platform of maximal score, and every
    /// supported feature has one.
    #[verifier::rlimit(100)]
    pub fn from_capabilities(capabilities: &Vec<(Platform, PlatformCapabilities)>) -> (r:
        FeatureMatrix)
        ensures
            forall|f: Feature|
                #[trigger] matrix_supported(r, f) <==> supports_in(capabilities@, f),
            forall|k: int|
                0 <= k < r.best_platform_per_feature@.len() ==> best_entry_valid(
                    capabilities@,
                    #[trigger] r.best_platform_per_feature@[k],
                ),
            forall|f: Feature|
                #[trigger] supports_in(capabilities@, f) ==> exists|k: int|
                    0 <= k < r.best_platform_per_feature@.len() && (
                    #[trigger] r.best_platform_per_feature@[k]).0 == f,
            // The universal set holds exactly the features every platform
            // supports; the partial entries hold exactly the features some
            // but not all support, each with exactly its supporters.
            forall|f: Feature|
                #[trigger] r.universal_features@.contains(f) <==> (all_support(
                    capabilities@,
                    f,
                ) && capabilities@.len() > 0),
            forall|f: Feature|
                (exists|k: int|
                    0 <= k < r.partial_support@.len() && (#[trigger] r.partial_support@[k]).0
                        == f) <==> (#[trigger] supports_in(capabilities@, f) && !all_support(
                    capabilities@,
                    f,
                )),
            forall|k: int|
                0 <= k < r.partial_support@.len() ==> (#[trigger] r.partial_support@[k]).1@
                    == spec_supporters(capabilities@, r.partial_support@[k].0),
            r.platform_features@.len() == capabilities@.len(),
            forall|k: int|
                0 <= k < capabilities@.len() ==> (#[trigger] r.platform_features@[k]).0
                    == capabilities@[k].0 && r.platform_features@[k].1@ == spec_feature_list(
                    capabilities@[k].1,
                ),
    {
        let features: Vec<Feature> = all_features();
        let ghost caps = capabilities@;
        let ncaps: usize = capabilities.len();
        let mut universal: Vec<Feature> = Vec::new();
        let mut partial: Vec<(Feature, Vec<Platform>)> = Vec::new();
        let mut best: Vec<(Feature, Platform)> = Vec::new();
        let mut t: usize = 0;
        while t < 16
            invariant
                capabilities@ == caps,
                ncaps == caps.len(),
                features@ == spec_all_features(),
                t <= 16,
                forall|k: int|
                    0 <= k < universal@.len() ==> all_support(caps, #[trigger] universal@[k])
                        && caps.len() > 0,
                forall|k: int|
                    0 <= k < partial@.len() ==> supports_in(caps, (#[trigger] partial@[k]).0)
                        && !all_support(caps, partial@[k].0) && partial@[k].1@
                        == spec_supporters(caps, partial@[k].0),
                forall|k: int|
                    0 <= k < best@.len() ==> best_entry_valid(caps, #[trigger] best@[k]),
                forall|ti: int|
                    0 <= ti < t ==> ((all_support(caps, #[trigger] spec_all_features()[ti])
                        && caps.len() > 0) ==> universal@.contains(spec_all_features()[ti])),
                forall|ti: int|
                    0 <= ti < t ==> ((supports_in(caps, #[trigger] spec_all_features()[ti])
                        && !all_support(caps, spec_all_features()[ti])) ==> exists|k: int|
                        0 <= k < partial@.len() && (#[trigger] partial@[k]).0
                            == spec_all_features()[ti]),
                forall|ti: int|
                    0 <= ti < t ==> (supports_in(caps, #[trigger] spec_all_features()[ti])
                        ==> exists|k: int|
                        0 <= k < best@.len() && (#[trigger] best@[k]).0
                            == spec_all_features()[ti]),
                forall|k: int|
                    0 <= k < universal@.len() ==> spec_all_features().contains(
                        #[trigger] universal@[k],
                    ),
                forall|k: int|
                    0 <= k < partial@.len() ==> spec_all_features().contains(
                        (#[trigger] partial@[k]).0,
                    ),
            decreases 16 - t,
        {
            let f: Feature = features[t];
            // Which platforms support f?
            let mut supported: Vec<Platform> = Vec::new();
            let mut best_here: Option<(u32, Platform)> = None;
            let mut j: usize = 0;
            proof {
                assert(caps.skip(0) =~= caps);
                assert(supported@ + spec_supporters(caps, f) =~= spec_supporters(caps, f));
            }
            while j < ncaps
                invariant
                    capabilities@ == caps,
                    ncaps == caps.len(),
                    j <= ncaps,
                    supported@.len() <= j,
                    spec_supporters(caps, f) == supported@ + spec_supporters(
                        caps.skip(j as int),
                        f,
                    ),
                    (supported@.len() == j) <==> (forall|j2: int|
                        0 <= j2 < j ==> caps_supports((#[trigger] caps[j2]).1, f)),
                    (supported@.len() > 0) <==> (exists|j2: int|
                        0 <= j2 < j && caps_supports((#[trigger] caps[j2]).1, f)),
                    forall|k: int|
                        0 <= k < supported@.len() ==> exists|j2: int|
                            0 <= j2 < j && (#[trigger] caps[j2]).0 == #[trigger] supported@[k]
                                && caps_supports(caps[j2].1, f),
                    match best_here {
                        Some(b) => exists|j2: int|
                            0 <= j2 < j && (#[trigger] caps[j2]).0 == b.1 && caps_supports(
                                caps[j2].1,
                                f,
                            ) && cap_score(caps[j2].1, f) == b.0 as int && (forall|j3: int|
                                0 <= j3 < j && caps_supports((#[trigger] caps[j3]).1, f)
                                    ==> cap_score(caps[j3].1, f) <= b.0 as int),
                        None => forall|j3: int|
                            0 <= j3 < j ==> !caps_supports((#[trigger] caps[j3]).1, f),
                    },
                decreases ncaps - j,
            {
                proof {
                    assert(caps.skip(j as int)[0] == caps[j as int]);
                    assert(caps.skip(j as int).drop_first() =~= caps.skip(j as int + 1));
                }
                let entry: &(Platform, PlatformCapabilities) = &capabilities[j];
                if entry.1.supports(f) {
                    let ghost supported0 = supported@;
                    supported.push(entry.0);
                    proof {
                        assert(supported@ =~= supported0 + seq![caps[j as int].0]);
                    }
                    let score: u32 = entry.1.feature_score(f);
                    let replace: bool = match best_here {
                        Some(b) => score >= b.0,
                        None => true,
                    };
                    if replace {
                        best_here = Some((score, entry.0));
                    }
                }
                j = j + 1;
            }
            proof {
                assert(caps.skip(ncaps as int) =~= Seq::<(
                    Platform,
                    PlatformCapabilities,
                )>::empty());
                assert(supported@ + Seq::<Platform>::empty() =~= supported@);
                assert(supported@ == spec_supporters(caps, f));
            }
            // Classify the feature.
            let ghost old_universal = universal@;
            let ghost old_partial = partial@;
            let ghost old_best = best@;
            proof {
                assert((supported@.len() == ncaps) <==> all_support(caps, f));
                assert((supported@.len() > 0) <==> supports_in(caps, f));
            }
            if ncaps > 0 && supported.len() == ncaps {
                universal.push(f);
            } else if supported.len() > 0 {
                partial.push((f, supported));
            }
            match best_here {
                Some(b) => {
                    best.push((f, b.1));
                },
                None => {},
            }
            t = t + 1;
            proof {
                lemma_all_features_complete(f);
                // Old entries keep their indices; the new feature has its
                // entry at the end where one was pushed.
                assert forall|x: Feature| old_universal.contains(x) implies universal@.contains(
                    x,
                ) by {
                    let k = choose|k: int| 0 <= k < old_universal.len() && old_universal[k] == x;
                    assert(universal@[k] == x);
                }
                if all_support(caps, f) && caps.len() > 0 {
                    assert(universal@.last() == f);
                    assert(universal@.contains(f));
                }
                assert forall|ti: int|
                    0 <= ti < t && supports_in(caps, #[trigger] spec_all_features()[ti])
                        && !all_support(caps, spec_all_features()[ti]) implies exists|k: int|
                    0 <= k < partial@.len() && (#[trigger] partial@[k]).0
                        == spec_all_features()[ti] by {
                    if spec_all_features()[ti] == f {
                        assert((partial@.last()).0 == f);
                        assert((partial@[partial@.len() - 1]).0 == spec_all_features()[ti]);
                    } else {
                        assert(ti < t - 1 || spec_all_features()[ti] == f || ti == t - 1);
                        if ti == t - 1 {
                            assert(spec_all_features()[ti] == f);
                        }
                        let k = choose|k: int|
                            0 <= k < old_partial.len() && (#[trigger] old_partial[k]).0
                                == spec_all_features()[ti];
                        assert((partial@[k]).0 == spec_all_features()[ti]);
                    }
                }
                assert forall|ti: int|
                    0 <= ti < t && supports_in(caps, #[trigger] spec_all_features()[ti])
                        implies exists|k: int|
                    0 <= k < best@.len() && (#[trigger] best@[k]).0 == spec_all_features()[ti]
                    by {
                    if spec_all_features()[ti] == f {
                        assert(best_here is Some) by {
                            if best_here is None {
                                let j2 = choose|j2: int|
                                    0 <= j2 < caps.len() && caps_supports(
                                        (#[trigger] caps[j2]).1,
                                        f,
                                    );
                                assert(!caps_supports(caps[j2].1, f));
                            }
                        }
                        assert((best@.last()).0 == f);
                        assert((best@[best@.len() - 1]).0 == spec_all_features()[ti]);
                    } else {
                        if ti == t - 1 {
                            assert(spec_all_features()[ti] == f);
                        }
                        let k = choose|k: int|
                            0 <= k < old_best.len() && (#[trigger] old_best[k]).0
                                == spec_all_features()[ti];
                        assert((best@[k]).0 == spec_all_features()[ti]);
                    }
                }
            }
        }
        // Per-platform feature lists.
        let mut platform_features: Vec<(Platform, Vec<Feature>)> = Vec::new();
        let mut j: usize = 0;
        while j < ncaps
            invariant
                capabilities@ == caps,
                ncaps == caps.len(),
                j <= ncaps,
                platform_features@.len() == j,
                forall|k: int|
                    0 <= k < j ==> (#[trigger] platform_features@[k]).0 == caps[k].0 && (
                    #[trigger] platform_features@[k]).1@ == spec_feature_list(caps[k].1),
            decreases ncaps - j,
        {
            let ghost here_pred = |f: Feature| caps_supports(caps[j as int].1, f);
            let features_all: Vec<Feature> = all_features();
            let mut supported_features: Vec<Feature> = Vec::new();
            let mut t2: usize = 0;
            proof {
                reveal(Seq::filter);
                assert(spec_all_features().subrange(0, 0) =~= Seq::<Feature>::empty());
                assert(spec_all_features().subrange(0, 0).filter(here_pred) =~= Seq::<
                    Feature,
                >::empty());
            }
            while t2 < 16
                invariant
                    capabilities@ == caps,
                    ncaps == caps.len(),
                    j < ncaps,
                    features_all@ == spec_all_features(),
                    t2 <= 16,
                    here_pred == (|f: Feature| caps_supports(caps[j as int].1, f)),
                    supported_features@ == spec_all_features().subrange(0, t2 as int).filter(
                        here_pred,
                    ),
                decreases 16 - t2,
            {
                proof {
                    reveal(Seq::filter);
                    assert(spec_all_features().subrange(0, t2 as int + 1).drop_last()
                        =~= spec_all_features().subrange(0, t2 as int));
                    assert(spec_all_features().subrange(0, t2 as int + 1).last()
                        == spec_all_features()[t2 as int]);
                }
                if capabilities[j].1.supports(features_all[t2]) {
                    supported_features.push(features_all[t2]);
                    proof {
                        assert(supported_features@ =~= spec_all_features().subrange(
                            0,
                            t2 as int + 1,
                        ).filter(here_pred));
                    }
                }
                t2 = t2 + 1;
            }
            proof {
                assert(spec_all_features().subrange(0, 16) =~= spec_all_features());
                assert(supported_features@ == spec_feature_list(caps[j as int].1));
            }
            platform_features.push((capabilities[j].0, supported_features));
            j = j + 1;
        }
        let ghost g_univ = universal@;
        let ghost g_partial = partial@;
        let ghost g_best = best@;
        let result: FeatureMatrix = FeatureMatrix {
            platform_features,
            universal_features: universal,
            partial_support: partial,
            best_platform_per_feature: best,
        };
        proof {
            assert(result.universal_features@ == g_univ);
            assert(result.partial_support@ == g_partial);
            assert(result.best_platform_per_feature@ == g_best);
            assert forall|f: Feature| #[trigger] supports_in(caps, f) implies exists|k: int|
                0 <= k < result.best_platform_per_feature@.len() && (
                #[trigger] result.best_platform_per_feature@[k]).0 == f by {
                lemma_all_features_complete(f);
                let ti = choose|ti: int|
                    0 <= ti < spec_all_features().len() && spec_all_features()[ti] == f;
                assert(supports_in(caps, spec_all_features()[ti]));
                let k = choose|k: int| 0 <= k < g_best.len() && (#[trigger] g_best[k]).0 == f;
                assert((result.best_platform_per_feature@[k]).0 == f);
            }
            assert forall|f: Feature| #[trigger] matrix_supported(result, f) <==> supports_in(
                caps,
                f,
            ) by {
                lemma_all_features_complete(f);
                let ti = choose|ti: int|
                    0 <= ti < spec_all_features().len() && spec_all_features()[ti] == f;
                assert(spec_all_features()[ti] == f);
                if matrix_supported(result, f) {
                    if result.universal_features@.contains(f) {
                        let k = choose|k: int| 0 <= k < g_univ.len() && g_univ[k] == f;
                        assert(all_support(caps, g_univ[k]) && caps.len() > 0);
                        assert(caps_supports(caps[0].1, f));
                        assert(supports_in(caps, f));
                    } else {
                        let k = choose|k: int|
                            0 <= k < result.partial_support@.len() && (
                            #[trigger] result.partial_support@[k]).0 == f;
                        assert(supports_in(caps, (g_partial[k]).0));
                    }
                } else {
                    if supports_in(caps, f) {
                        assert(supports_in(caps, spec_all_features()[ti]));
                        if all_support(caps, f) {
                            assert(result.universal_features@.contains(f));
                            assert(matrix_supported(result, f));
                        } else {
                            let k = choose|k: int|
                                0 <= k < g_partial.len() && (#[trigger] g_partial[k]).0 == f;
                            assert((result.partial_support@[k]).0 == f);
                            assert(matrix_supported(result, f));
                        }
                    }
                }
            }
        }
        result
    }

    /// Whether the matrix lists the feature `name` names as supported.
    pub fn is_supported(&self, name: &str) -> (r: bool)
        ensures
            r == matrix_supported_named(*self, name@),
    {
        match feature_of_name(name) {
            Some(f) => {
                let n: usize = self.universal_features.len();
                let mut i: usize = 0;
                while i < n
                    invariant
                        spec_feature_of_name(name@) == Some(f),
                        n == self.universal_features@.len(),
                        i <= n,
                        forall|k: int| 0 <= k < i ==> self.universal_features@[k] != f,
                    decreases n - i,
                {
                    if self.universal_features[i] == f {
                        proof {
                            assert(self.universal_features@.contains(f));
                        }
                        return true;
                    }
                    i = i + 1;
                }
                let m: usize = self.partial_support.len();
                let mut j: usize = 0;
                while j < m
                    invariant
                        spec_feature_of_name(name@) == Some(f),
                        n == self.universal_features@.len(),
                        forall|k: int| 0 <= k < n ==> self.universal_features@[k] != f,
                        m == self.partial_support@.len(),
                        j <= m,
                        forall|k: int|
                            0 <= k < j ==> (#[trigger] self.partial_support@[k]).0 != f,
                    decreases m - j,
                {
                    if self.partial_support[j].0 == f {
                        return true;
                    }
                    j = j + 1;
                }
                proof {
                    if self.universal_features@.contains(f) {
                        let k = choose|k: int|
                            0 <= k < self.universal_features@.len()
                                && self.universal_features@[k] == f;
                        assert(self.universal_features@[k] != f);
                    }
                }
                false
            },
            None => false,
        }
    }

    /// The best platform recorded for the feature `name` names.
    pub fn best_platform_for_feature(&self, name: &str) -> (r: Option<Platform>)
        ensures
            match spec_feature_of_name(name@) {
                Some(f) => match r {
                    Some(p) => exists|k: int|
                        0 <= k < self.best_platform_per_feature@.len() && (
                        #[trigger] self.best_platform_per_feature@[k]) == (f, p),
                    None => forall|k: int|
                        0 <= k < self.best_platform_per_feature@.len() ==> (
                        #[trigger] self.best_platform_per_feature@[k]).0 != f,
                },
                None => r is None,
            },
    {
        match feature_of_name(name) {
            Some(f) => {
                let n: usize = self.best_platform_per_feature.len();
                let mut i: usize = 0;
                while i < n
                    invariant
                        spec_feature_of_name(name@) == Some(f),
                        n == self.best_platform_per_feature@.len(),
                        i <= n,
                        forall|k: int|
                            0 <= k < i ==> (#[trigger] self.best_platform_per_feature@[k]).0
                                != f,
                    decreases n - i,
                {
                    if self.best_platform_per_feature[i].0 == f {
                        return Some(self.best_platform_per_feature[i].1);
                    }
                    i = i + 1;
                }
                None
            },
            None => None,
        }
    }

    /// The platforms that support the feature `name` names: every platform
    /// in the matrix for a universal feature, exactly the recorded
    /// supporters for a partial one, none otherwise or for an unknown
    /// name.
    pub fn supported_platforms_for_feature(&self, name: &str) -> (r: Vec<Platform>)
        ensures
            (match spec_feature_of_name(name@) {
                Some(f) => {
                    if self.universal_features@.contains(f) {
                        r@ == Seq::new(
                            self.platform_features@.len(),
                            |k: int| self.platform_features@[k].0,
                        )
                    } else if exists|k: int|
                        0 <= k < self.partial_support@.len() && (
                        #[trigger] self.partial_support@[k]).0 == f {
                        r@ == spec_partial_entry(self.partial_support@, f)
                    } else {
                        r@.len() == 0
                    }
                },
                None => r@.len() == 0,
            }),
            !matrix_supported_named(*self, name@) ==> r@.len() == 0,
    {
        match feature_of_name(name) {
            Some(f) => {
                let n: usize = self.universal_features.len();
                let mut i: usize = 0;
                while i < n
                    invariant
                        spec_feature_of_name(name@) == Some(f),
                        n == self.universal_features@.len(),
                        i <= n,
                        forall|k: int| 0 <= k < i ==> self.universal_features@[k] != f,
                    decreases n - i,
                {
                    if self.universal_features[i] == f {
                        proof {
                            assert(self.universal_features@.contains(f));
                        }
                        // Universal: all platform keys.
                        let mut out: Vec<Platform> = Vec::new();
                        let m: usize = self.platform_features.len();
                        let mut j: usize = 0;
                        while j < m
                            invariant
                                m == self.platform_features@.len(),
                                j <= m,
                                out@.len() == j,
                                forall|k: int|
                                    0 <= k < j ==> #[trigger] out@[k]
                                        == self.platform_features@[k].0,
                            decreases m - j,
                        {
                            out.push(self.platform_features[j].0);
                            j = j + 1;
                        }
                        proof {
                            assert(out@ =~= Seq::new(
                                self.platform_features@.len(),
                                |k: int| self.platform_features@[k].0,
                            ));
                        }
                        return out;
                    }
                    i = i + 1;
                }
                proof {
                    if self.universal_features@.contains(f) {
                        let k = choose|k: int|
                            0 <= k < self.universal_features@.len()
                                && self.universal_features@[k] == f;
                        assert(self.universal_features@[k] != f);
                    }
                }
                let m: usize = self.partial_support.len();
                let mut j: usize = 0;
                while j < m
                    invariant
                        spec_feature_of_name(name@) == Some(f),
                        n == self.universal_features@.len(),
                        forall|k: int| 0 <= k < n ==> self.universal_features@[k] != f,
                        m == self.partial_support@.len(),
                        j <= m,
                        forall|k: int|
                            0 <= k < j ==> (#[trigger] self.partial_support@[k]).0 != f,
                    decreases m - j,
                {
                    if self.partial_support[j].0 == f {
                        // Copy the recorded supporters.
                        let source: &Vec<Platform> = &self.partial_support[j].1;
                        let mut out: Vec<Platform> = Vec::new();
                        let c: usize = source.len();
                        let mut k2: usize = 0;
                        while k2 < c
                            invariant
                                c == source@.len(),
                                k2 <= c,
                                out@ == source@.subrange(0, k2 as int),
                            decreases c - k2,
                        {
                            out.push(source[k2]);
                            k2 = k2 + 1;
                            proof {
                                assert(out@ =~= source@.subrange(0, k2 as int));
                            }
                        }
                        proof {
                            assert(out@ =~= self.partial_support@[j as int].1@);
                            lemma_partial_entry_is(self.partial_support@, f, j as int);
                        }
                        return out;
                    }
                    j = j + 1;
                }
                proof {
                    if exists|k: int|
                        0 <= k < self.partial_support@.len() && (
                        #[trigger] self.partial_support@[k]).0 == f {
                        let k = choose|k: int|
                            0 <= k < self.partial_support@.len() && (
                            #[trigger] self.partial_support@[k]).0 == f;
                        assert(self.partial_support@[k].0 != f);
                    }
                }
                Vec::new()
            },
            None => Vec::new(),
        }
    }
}

/// The supporter list of the first partial entry for `f`.
pub open spec fn spec_partial_entry(
    partial: Seq<(Feature, Vec<Platform>)>,
    f: Feature,
) -> Seq<Platform>
    decreases partial.len(),
{
    if partial.len() == 0 {
        Seq::<Platform>::empty()
    } else if partial[0].0 == f {
        partial[0].1@
    } else {
        spec_partial_entry(partial.drop_first(), f)
    }
}

proof fn lemma_partial_entry_is(partial: Seq<(Feature, Vec<Platform>)>, f: Feature, m: int)
    requires
        0 <= m < partial.len(),
        partial[m].0 == f,
        forall|k: int| 0 <= k < m ==> (#[trigger] partial[k]).0 != f,
    ensures
        spec_partial_entry(partial, f) == partial[m].1@,
    decreases partial.len(),
{
    if m > 0 {
        assert(partial[0].0 != f);
        assert(partial.drop_first()[m - 1] == partial[m]);
        assert(forall|k: int|
            0 <= k < m - 1 ==> (#[trigger] partial.drop_first()[k]).0 != f);
        lemma_partial_entry_is(partial.drop_first(), f, m - 1);
    }
}

// ---------------------------------------------------------------------------
// Degradation
// ---------------------------------------------------------------------------

/// What to do with actions a platform cannot show.
#[derive(Debug, Clone, Copy, PartialEq, Eq, Structural)]
pub enum ActionFallback {
    RemoveActions,
    SimplifyActions,
    ConvertToUrls,
    BatchIntoMenu,
}

/// What to do with media a platform cannot show.
#[derive(Debug, Clone, Copy, PartialEq, Eq, Structural)]
pub enum MediaFallback {
    RemoveMedia,
    SimplifyMedia,
    TextDescription,
    UsePlaceholder,
}

/// What to do with markup a platform cannot render.
#[derive(Debug, Clone, Copy, PartialEq, Eq, Structural)]
pub enum MarkupFallback {
    StripMarkup,
    ConvertMarkup,
    FormattingHints,
}

/// The outcome of degrading one requested feature.
#[derive(Debug, Clone, PartialEq, Eq)]
pub enum FeatureDegradation {
    ActionFallback(ActionFallback),
    MediaFallback(MediaFallback),
    MarkupFallback(MarkupFallback),
    FeatureSubstitution { original: String, substitute: String },
    FeatureRemoved(String),
    CriticalUnsupported { feature: String, should_fail: bool },
}

/// How unsupported features are rewritten.
#[derive(Debug, Clone, PartialEq, Eq)]
pub struct DegradationStrategy {
    pub action_fallback: ActionFallback,
    pub media_fallback: MediaFallback,
    pub markup_fallback: MarkupFallback,
    pub feature_substitutions: Vec<(String, String)>,
    pub fail_on_critical_unsupported: bool,
    pub critical_features: Vec<String>,
}

impl Default for DegradationStrategy {
    /// Remove actions, describe media as text, strip markup.
    fn default() -> (r: DegradationStrategy)
        ensures
            r.action_fallback is RemoveActions,
            r.media_fallback is TextDescription,
            r.markup_fallback is StripMarkup,
            r.feature_substitutions@.len() == 0,
            !r.fail_on_critical_unsupported,
            r.critical_features@.len() == 0,
    {
        DegradationStrategy {
            action_fallback: ActionFallback::RemoveActions,
            media_fallback: MediaFallback::TextDescription,
            markup_fallback: MarkupFallback::StripMarkup,
            feature_substitutions: Vec::new(),
            fail_on_critical_unsupported: false,
            critical_features: Vec::new(),
        }
    }
}

/// The first substitute recorded for `name`.
pub open spec fn spec_substitution(m: Seq<(String, String)>, name: Seq<char>) -> Option<String>
    decreases m.len(),
{
    if m.len() == 0 {
        None
    } else if m[0].0@ == name {
        Some(m[0].1)
    } else {
        spec_substitution(m.drop_first(), name)
    }
}

/// Is `name` listed as critical?
pub open spec fn spec_is_critical(critical: Seq<String>, name: Seq<char>) -> bool {
    exists|k: int| 0 <= k < critical.len() && (#[trigger] critical[k])@ == name
}

/// The degradation applied to one unsupported feature name.
pub open spec fn spec_degradation_of(s: DegradationStrategy, name: String) -> FeatureDegradation {
    if spec_is_critical(s.critical_features@, name@) && s.fail_on_critical_unsupported {
        FeatureDegradation::CriticalUnsupported { feature: name, should_fail: true }
    } else if name@ == "actions"@ {
        FeatureDegradation::ActionFallback(s.action_fallback)
    } else if name@ == "rich_media"@ {
        FeatureDegradation::MediaFallback(s.media_fallback)
    } else if name@ == "markup"@ {
        FeatureDegradation::MarkupFallback(s.markup_fallback)
    } else {
        match spec_substitution(s.feature_substitutions@, name@) {
            Some(sub) => FeatureDegradation::FeatureSubstitution {
                original: name,
                substitute: sub,
            },
            None => FeatureDegradation::FeatureRemoved(name),
        }
    }
}

/// The degradations for a list of requested feature names: one entry per
/// requested feature the matrix does not support.
pub open spec fn spec_degradations(
    s: DegradationStrategy,
    m: FeatureMatrix,
    reqs: Seq<String>,
) -> Seq<FeatureDegradation>
    decreases reqs.len(),
{
    if reqs.len() == 0 {
        Seq::<FeatureDegradation>::empty()
    } else if matrix_supported_named(m, reqs[0]@) {
        spec_degradations(s, m, reqs.drop_first())
    } else {
        seq![spec_degradation_of(s, reqs[0])] + spec_degradations(s, m, reqs.drop_first())
    }
}

impl DegradationStrategy {
    /// The strategy suited to a feature matrix: simplify what is partially
    /// supported, remove or strip what is not supported at all.
    pub fn calculate_optimal_strategy(feature_matrix: &FeatureMatrix) -> (r: DegradationStrategy)
        ensures
            r.action_fallback == (if matrix_supported(*feature_matrix, Feature::Actions) {
                ActionFallback::SimplifyActions
            } else {
                ActionFallback::RemoveActions
            }),
            r.media_fallback == (if matrix_supported(*feature_matrix, Feature::RichMedia) {
                MediaFallback::SimplifyMedia
            } else {
                MediaFallback::TextDescription
            }),
            r.markup_fallback == (if matrix_supported(*feature_matrix, Feature::Markup) {
                MarkupFallback::ConvertMarkup
            } else {
                MarkupFallback::StripMarkup
            }),
            r.feature_substitutions@.len() == 0,
            !r.fail_on_critical_unsupported,
            r.critical_features@.len() == 0,
    {
        proof {
            reveal_strlit("actions");
            reveal_strlit("rich_media");
            reveal_strlit("markup");
            assert("actions"@.len() == 7);
            assert("rich_media"@.len() == 10);
            assert("rich_media"@ != "actions"@) by {
                if "rich_media"@ == "actions"@ {
                    assert("rich_media"@.len() == "actions"@.len());
                }
            }
            assert(spec_feature_of_name("rich_media"@) == Some(Feature::RichMedia));
            assert(spec_feature_of_name("markup"@) == Some(Feature::Markup));
        }
        let mut strategy: DegradationStrategy = DegradationStrategy::default();
        if feature_matrix.is_supported("actions") {
            strategy.action_fallback = ActionFallback::SimplifyActions;
        } else {
            strategy.action_fallback = ActionFallback::RemoveActions;
        }
        if feature_matrix.is_supported("rich_media") {
            strategy.media_fallback = MediaFallback::SimplifyMedia;
        } else {
            strategy.media_fallback = MediaFallback::TextDescription;
        }
        if feature_matrix.is_supported("markup") {
            strategy.markup_fallback = MarkupFallback::ConvertMarkup;
        } else {
            strategy.markup_fallback = MarkupFallback::StripMarkup;
        }
        strategy
    }

    /// Degrade each requested feature the matrix does not support: a
    /// critical feature fails when so configured, the three known categories
    /// fall back per the strategy, anything else is substituted when a
    /// substitution is recorded and removed otherwise.
    pub fn apply_degradations(
        &self,
        requested_features: &Vec<String>,
        feature_matrix: &FeatureMatrix,
    ) -> (r: Vec<FeatureDegradation>)
        ensures
            r@ == spec_degradations(*self, *feature_matrix, requested_features@),
    {
        let n: usize = requested_features.len();
        let mut out: Vec<FeatureDegradation> = Vec::new();
        let mut i: usize = 0;
        proof {
            assert(requested_features@.skip(0) =~= requested_features@);
        }
        while i < n
            invariant
                n == requested_features@.len(),
                i <= n,
                spec_degradations(*self, *feature_matrix, requested_features@) == out@
                    + spec_degradations(
                    *self,
                    *feature_matrix,
                    requested_features@.skip(i as int),
                ),
            decreases n - i,
        {
            proof {
                assert(requested_features@.skip(i as int)[0]
                    == requested_features@[i as int]);
                assert(requested_features@.skip(i as int).drop_first()
                    =~= requested_features@.skip(i as int + 1));
            }
            let feature: &String = &requested_features[i];
            if !feature_matrix.is_supported(feature.as_str()) {
                let item: FeatureDegradation = self.degradation_of(feature);
                out.push(item);
            }
            i = i + 1;
        }
        proof {
            assert(requested_features@.skip(n as int) =~= Seq::<String>::empty());
            assert(out@ + Seq::<FeatureDegradation>::empty() =~= out@);
        }
        out
    }

    /// The degradation for one unsupported feature name.
    fn degradation_of(&self, feature: &String) -> (r: FeatureDegradation)
        ensures
            r == spec_degradation_of(*self, *feature),
    {
        let critical: bool = {
            let n: usize = self.critical_features.len();
            let mut i: usize = 0;
            let mut found: bool = false;
            while i < n
                invariant
                    n == self.critical_features@.len(),
                    i <= n,
                    found == exists|k: int|
                        0 <= k < i && (#[trigger] self.critical_features@[k])@ == feature@,
                decreases n - i,
            {
                if !found && str_eq(self.critical_features[i].as_str(), feature.as_str()) {
                    found = true;
                }
                i = i + 1;
            }
            found
        };
        proof {
            assert(critical == spec_is_critical(self.critical_features@, feature@));
        }
        if critical && self.fail_on_critical_unsupported {
            return FeatureDegradation::CriticalUnsupported {
                feature: feature.clone(),
                should_fail: true,
            };
        }
        if str_eq(feature.as_str(), "actions") {
            FeatureDegradation::ActionFallback(self.action_fallback)
        } else if str_eq(feature.as_str(), "rich_media") {
            FeatureDegradation::MediaFallback(self.media_fallback)
        } else if str_eq(feature.as_str(), "markup") {
            FeatureDegradation::MarkupFallback(self.markup_fallback)
        } else {
            let n: usize = self.feature_substitutions.len();
            let mut i: usize = 0;
            proof {
                assert(self.feature_substitutions@.skip(0) =~= self.feature_substitutions@);
            }
            while i < n
                invariant
                    n == self.feature_substitutions@.len(),
                    i <= n,
                    !(spec_is_critical(self.critical_features@, feature@)
                        && self.fail_on_critical_unsupported),
                    feature@ != "actions"@,
                    feature@ != "rich_media"@,
                    feature@ != "markup"@,
                    spec_substitution(self.feature_substitutions@, feature@)
                        == spec_substitution(
                        self.feature_substitutions@.skip(i as int),
                        feature@,
                    ),
                decreases n - i,
            {
                proof {
                    assert(self.feature_substitutions@.skip(i as int)[0]
                        == self.feature_substitutions@[i as int]);
                    assert(self.feature_substitutions@.skip(i as int).drop_first()
                        =~= self.feature_substitutions@.skip(i as int + 1));
                }
                if str_eq(self.feature_substitutions[i].0.as_str(), feature.as_str()) {
                    proof {
                        assert(spec_substitution(
                            self.feature_substitutions@.skip(i as int),
                            feature@,
                        ) == Some(self.feature_substitutions@[i as int].1));
                    }
                    return FeatureDegradation::FeatureSubstitution {
                        original: feature.clone(),
                        substitute: self.feature_substitutions[i].1.clone(),
                    };
                }
                i = i + 1;
            }
            proof {
                assert(self.feature_substitutions@.skip(n as int) =~= Seq::<(
                    String,
                    String,
                )>::empty());
            }
            FeatureDegradation::FeatureRemoved(feature.clone())
        }
    }
}

// ---------------------------------------------------------------------------
// Authorization
// ---------------------------------------------------------------------------

/// Per-platform authorization state.  Timestamps are milliseconds since the
/// Unix epoch.
#[derive(Debug, Clone, PartialEq, Eq)]
pub enum AuthorizationState {
    /// Not yet requested.
    NotRequested,
    /// A request is in progress.
    Requesting,
    /// A request awaits user action.
    Pending,
    /// The user granted permission.
    Authorized { granted_at: u64, permissions: Vec<PermissionLevel> },
    /// The user denied permission.
    Denied { denied_at: u64, can_retry: bool },
    /// Permission was revoked.
    Revoked { revoked_at: u64, reason: String },
    /// Provisional authorization, possibly with an expiry.
    Provisional { granted_at: u64, expires_at: Option<u64> },
}

impl AuthorizationState {
    /// Whether delivery may proceed: authorized, or provisionally authorized
    /// and not expired.  `Authorized` always counts; every state other than
    /// `Authorized` and `Provisional` never does.
    pub fn is_authorized(&self) -> (r: bool)
        ensures
            *self is Authorized ==> r,
            (self matches AuthorizationState::Provisional { expires_at: None, .. }) ==> r,
            !(*self is Authorized || *self is Provisional) ==> !r,
    {
        match self {
            AuthorizationState::Authorized { .. } => true,
            AuthorizationState::Provisional { expires_at, .. } => {
                match expires_at {
                    Some(expires) => clock_now_millis() <= *expires,
                    None => true,
                }
            },
            _ => false,
        }
    }

    /// Whether a new request may be made: never requested, denied but
    /// retryable, or revoked.
    pub fn can_request(&self) -> (r: bool)
        ensures
            r == (*self is NotRequested || (self matches AuthorizationState::Denied {
                can_retry: true,
                ..
            }) || *self is Revoked),
    {
        match self {
            AuthorizationState::NotRequested => true,
            AuthorizationState::Denied { can_retry, .. } => *can_retry,
            AuthorizationState::Revoked { .. } => true,
            _ => false,
        }
    }

    /// Whether the state is expired at time `now`: only a provisional
    /// authorization with an expiry can be, once `now` passes it.
    pub open spec fn spec_expired_at(self, now: u64) -> bool {
        match self {
            AuthorizationState::Provisional { expires_at: Some(expires), .. } => now > expires,
            _ => false,
        }
    }

    /// Whether the state is expired at the clock reading `now`.
    pub fn is_expired_at(&self, now: u64) -> (r: bool)
        ensures
            r == self.spec_expired_at(now),
    {
        match self {
            AuthorizationState::Provisional { expires_at: Some(expires), .. } => now > *expires,
            _ => false,
        }
    }

    /// Whether a provisional authorization has passed its expiry now.
    /// Every other state never expires.
    pub fn is_expired(&self) -> (r: bool)
        ensures
            exists|now: u64| r == self.spec_expired_at(now),
            !(self matches AuthorizationState::Provisional { expires_at: Some(_), .. }) ==> !r,
    {
        let now: u64 = clock_now_millis();
        let r: bool = self.is_expired_at(now);
        proof {
            assert(r == self.spec_expired_at(now));
        }
        r
    }
}

// ---------------------------------------------------------------------------
// Configuration and preferences
// ---------------------------------------------------------------------------

/// Per-platform configuration.
#[derive(Debug, Clone, PartialEq, Eq)]
pub struct PlatformConfig {
    pub app_identifier: Option<String>,
    pub settings: Vec<(String, String)>,
    pub enabled_features: Vec<String>,
    pub custom_limits: Vec<(String, usize)>,
}

impl Default for PlatformConfig {
    /// No identifier, no settings, no toggles, no overrides.
    fn default() -> (r: PlatformConfig)
        ensures
            r.app_identifier is None,
            r.settings@.len() == 0,
            r.enabled_features@.len() == 0,
            r.custom_limits@.len() == 0,
    {
        PlatformConfig {
            app_identifier: None,
            settings: Vec::new(),
            enabled_features: Vec::new(),
            custom_limits: Vec::new(),
        }
    }
}

/// Metadata about a native handle a backend registered.
#[derive(Debug, Clone, PartialEq, Eq)]
pub struct NativeHandleMetadata {
    pub handle_type: String,
    pub handle_id: Option<String>,
    pub created_at: u64,
    pub last_used: Option<u64>,
    pub usage_count: u64,
    pub metadata: Vec<(String, String)>,
}

/// Per-platform user settings.
#[derive(Debug, Clone, PartialEq, Eq)]
pub struct PlatformUserSettings {
    pub enabled: bool,
    pub preferred_style: Option<String>,
    pub custom_sound: Option<String>,
    pub do_not_disturb_override: bool,
    pub settings: Vec<(String, String)>,
}

impl Default for PlatformUserSettings {
    /// Disabled, with nothing configured.
    fn default() -> (r: PlatformUserSettings)
        ensures
            !r.enabled,
            r.preferred_style is None,
            r.custom_sound is None,
            !r.do_not_disturb_override,
            r.settings@.len() == 0,
    {
        PlatformUserSettings {
            enabled: false,
            preferred_style: None,
            custom_sound: None,
            do_not_disturb_override: false,
            settings: Vec::new(),
        }
    }
}

/// Global user preferences.
#[derive(Debug, Clone, PartialEq, Eq, Structural)]
pub struct GlobalPreferences {
    pub fallback_to_other_platforms: bool,
    pub prefer_native_ui: bool,
    pub respect_system_settings: bool,
    pub analytics_enabled: bool,
}

impl Default for GlobalPreferences {
    /// Everything off.
    fn default() -> (r: GlobalPreferences)
        ensures
            !r.fallback_to_other_platforms,
            !r.prefer_native_ui,
            !r.respect_system_settings,
            !r.analytics_enabled,
    {
        GlobalPreferences {
            fallback_to_other_platforms: false,
            prefer_native_ui: false,
            respect_system_settings: false,
            analytics_enabled: false,
        }
    }
}

/// User preferences for platform behavior.
#[derive(Debug, Clone, PartialEq, Eq)]
pub struct PlatformPreferences {
    pub platform_priority: Vec<Platform>,
    pub platform_settings: Vec<(Platform, PlatformUserSettings)>,
    pub global_preferences: GlobalPreferences,
}

impl Default for PlatformPreferences {
    /// No priorities, no settings, default globals.
    fn default() -> (r: PlatformPreferences)
        ensures
            r.platform_priority@.len() == 0,
            r.platform_settings@.len() == 0,
    {
        PlatformPreferences {
            platform_priority: Vec::new(),
            platform_settings: Vec::new(),
            global_preferences: GlobalPreferences::default(),
        }
    }
}

/// Options controlling one delivery.  Durations are in milliseconds.
#[derive(Debug, Clone, PartialEq, Eq)]
pub struct DeliveryOptions {
    pub priority: Option<i32>,
    pub ttl_millis: Option<u64>,
    pub replace_id: Option<String>,
    pub platform_specific: Vec<(String, String)>,
    pub delivery_timeout_millis: u64,
}

impl Default for DeliveryOptions {
    /// No overrides; the delivery timeout is 30 seconds.
    fn default() -> (r: DeliveryOptions)
        ensures
            r.priority is None,
            r.ttl_millis is None,
            r.replace_id is None,
            r.platform_specific@.len() == 0,
            r.delivery_timeout_millis == 30000,
    {
        DeliveryOptions {
            priority: None,
            ttl_millis: None,
            replace_id: None,
            platform_specific: Vec::new(),
            delivery_timeout_millis: 30000,
        }
    }
}

// ---------------------------------------------------------------------------
// Association lists keyed by platform
// ---------------------------------------------------------------------------

/// The first value under `k` in a platform-keyed association list.
pub open spec fn plat_get<V>(m: Seq<(Platform, V)>, k: Platform) -> Option<V>
    decreases m.len(),
{
    if m.len() == 0 {
        None
    } else if m[0].0 == k {
        Some(m[0].1)
    } else {
        plat_get(m.drop_first(), k)
    }
}

/// Look a platform up in an association list.
pub fn plat_lookup<'a, V>(m: &'a Vec<(Platform, V)>, k: Platform) -> (r: Option<&'a V>)
    ensures
        match r {
            Some(v) => plat_get(m@, k) == Some(*v),
            None => plat_get(m@, k) is None,
        },
{
    let n: usize = m.len();
    let mut i: usize = 0;
    proof {
        assert(m@.skip(0) =~= m@);
    }
    while i < n
        invariant
            n == m@.len(),
            i <= n,
            plat_get(m@, k) == plat_get(m@.skip(i as int), k),
        decreases n - i,
    {
        proof {
            assert(m@.skip(i as int)[0] == m@[i as int]);
            assert(m@.skip(i as int).drop_first() =~= m@.skip(i as int + 1));
        }
        if m[i].0 == k {
            return Some(&m[i].1);
        }
        i = i + 1;
    }
    None
}

/// Insert or replace the value under `k`.
pub fn plat_upsert<V>(m: &mut Vec<(Platform, V)>, k: Platform, v: V)
    ensures
        plat_get(final(m)@, k) == Some(v),
        forall|k2: Platform| k2 != k ==> plat_get(final(m)@, k2) == plat_get(old(m)@, k2),
{
    let n: usize = m.len();
    let mut i: usize = 0;
    while i < n
        invariant
            n == m@.len(),
            i <= n,
            m@ == old(m)@,
            forall|j: int| 0 <= j < i ==> (#[trigger] m@[j]).0 != k,
        decreases n - i,
    {
        if m[i].0 == k {
            let ghost before = m@;
            m.set(i, (k, v));
            proof {
                assert forall|k2: Platform| #[trigger] plat_get(m@, k2) == (if k2 == k {
                    Some(m@[i as int].1)
                } else {
                    plat_get(before, k2)
                }) by {
                    lemma_plat_get_set(before, m@, i as int, k, k2);
                }
            }
            return;
        }
        i = i + 1;
    }
    let ghost before = m@;
    m.push((k, v));
    proof {
        assert forall|k2: Platform| #[trigger] plat_get(m@, k2) == (if k2 == k
            && plat_get(before, k2) is None {
            Some(v)
        } else {
            plat_get(before, k2)
        }) by {
            lemma_plat_get_push(before, k, v, k2);
        }
        assert(plat_get(before, k) is None) by {
            lemma_plat_get_none(before, k);
        }
    }
}

/// A list with no entry for `k` among its items yields `None`.
proof fn lemma_plat_get_none<V>(m: Seq<(Platform, V)>, k: Platform)
    requires
        forall|j: int| 0 <= j < m.len() ==> (#[trigger] m[j]).0 != k,
    ensures
        plat_get(m, k) is None,
    decreases m.len(),
{
    if m.len() > 0 {
        assert(m[0].0 != k);
        assert(forall|j: int|
            0 <= j < m.drop_first().len() ==> (#[trigger] m.drop_first()[j]).0 != k);
        lemma_plat_get_none(m.drop_first(), k);
    }
}

/// Appending an entry only affects lookups of its key, and only when the
/// key was absent.
proof fn lemma_plat_get_push<V>(m: Seq<(Platform, V)>, k: Platform, v: V, k2: Platform)
    ensures
        plat_get(m.push((k, v)), k2) == (if k2 == k && plat_get(m, k2) is None {
            Some(v)
        } else {
            plat_get(m, k2)
        }),
    decreases m.len(),
{
    if m.len() == 0 {
        assert(m.push((k, v))[0] == (k, v));
        assert(m.push((k, v)).drop_first() =~= Seq::<(Platform, V)>::empty());
    } else {
        assert(m.push((k, v))[0] == m[0]);
        assert(m.push((k, v)).drop_first() =~= m.drop_first().push((k, v)));
        lemma_plat_get_push(m.drop_first(), k, v, k2);
    }
}

/// Replacing the first entry whose key is `k` updates that key's lookup and
/// no other, provided nothing before index `i` has key `k`.
proof fn lemma_plat_get_set<V>(
    before: Seq<(Platform, V)>,
    after: Seq<(Platform, V)>,
    i: int,
    k: Platform,
    k2: Platform,
)
    requires
        0 <= i < before.len(),
        after =~= before.update(i, (k, after[i].1)),
        before[i].0 == k,
        after[i].0 == k,
        forall|j: int| 0 <= j < i ==> (#[trigger] before[j]).0 != k,
    ensures
        plat_get(after, k2) == (if k2 == k {
            Some(after[i].1)
        } else {
            plat_get(before, k2)
        }),
    decreases i,
{
    if i == 0 {
        assert(after[0] == (k, after[0].1));
        assert(after.drop_first() =~= before.drop_first());
    } else {
        assert(after[0] == before[0]);
        assert(before[0].0 != k);
        assert(after.drop_first() =~= before.drop_first().update(i - 1, (k, after[i].1)));
        assert(forall|j: int|
            0 <= j < i - 1 ==> (#[trigger] before.drop_first()[j]).0 != k);
        assert(before.drop_first()[i - 1].0 == k);
        lemma_plat_get_set(before.drop_first(), after.drop_first(), i - 1, k, k2);
    }
}

// ---------------------------------------------------------------------------
// Platform integration
// ---------------------------------------------------------------------------

/// Everything a notification knows about its target platforms: the targets,
/// negotiated capabilities, the feature matrix, the degradation strategy,
/// authorization states, and user preferences.
#[derive(Debug, Clone)]
pub struct PlatformIntegration {
    /// The platforms to deliver to; never empty.
    pub target_platforms: Vec<Platform>,
    /// Negotiated capabilities per platform.
    pub platform_capabilities: Vec<(Platform, PlatformCapabilities)>,
    /// Native handle metadata per platform.
    pub native_handles: Vec<(Platform, NativeHandleMetadata)>,
    /// The feature matrix over the negotiated capabilities.
    pub feature_matrix: FeatureMatrix,
    /// How unsupported features are degraded.
    pub degradation_strategy: DegradationStrategy,
    /// Per-platform configuration.
    pub platform_configs: Vec<(Platform, PlatformConfig)>,
    /// Authorization state per platform.
    pub authorization_states: Vec<(Platform, AuthorizationState)>,
    /// User preferences.
    pub user_preferences: PlatformPreferences,
}

impl PlatformIntegration {
    /// Well-formedness: every notification targets at least one platform.
    pub open spec fn wf(self) -> bool {
        self.target_platforms@.len() >= 1
    }

    /// Integration data for the given non-empty target list: nothing
    /// negotiated yet, everything else empty or default.
    pub fn new(target_platforms: Vec<Platform>) -> (r: PlatformIntegration)
        requires
            target_platforms@.len() >= 1,
        ensures
            r.target_platforms == target_platforms,
            r.wf(),
            r.platform_capabilities@.len() == 0,
            r.authorization_states@.len() == 0,
            r.native_handles@.len() == 0,
            r.platform_configs@.len() == 0,
            r.feature_matrix.platform_features@.len() == 0,
            r.feature_matrix.universal_features@.len() == 0,
            r.feature_matrix.partial_support@.len() == 0,
            r.feature_matrix.best_platform_per_feature@.len() == 0,
            r.degradation_strategy.action_fallback is RemoveActions,
            r.degradation_strategy.media_fallback is TextDescription,
            r.degradation_strategy.markup_fallback is StripMarkup,
            r.degradation_strategy.feature_substitutions@.len() == 0,
            !r.degradation_strategy.fail_on_critical_unsupported,
            r.degradation_strategy.critical_features@.len() == 0,
            r.user_preferences.platform_priority@.len() == 0,
            r.user_preferences.platform_settings@.len() == 0,
    {
        PlatformIntegration {
            target_platforms,
            platform_capabilities: Vec::new(),
            native_handles: Vec::new(),
            feature_matrix: FeatureMatrix::default(),
            degradation_strategy: DegradationStrategy::default(),
            platform_configs: Vec::new(),
            authorization_states: Vec::new(),
            user_preferences: PlatformPreferences::default(),
        }
    }

    /// Install negotiated capabilities and recompute the feature matrix and
    /// the degradation strategy from them.
    pub fn install_capabilities(&mut self, capabilities: Vec<(Platform, PlatformCapabilities)>)
        ensures
            final(self).platform_capabilities == capabilities,
            final(self).target_platforms == old(self).target_platforms,
            final(self).authorization_states == old(self).authorization_states,
            forall|f: Feature|
                #[trigger] matrix_supported(final(self).feature_matrix, f) <==> supports_in(
                    capabilities@,
                    f,
                ),
    {
        let matrix: FeatureMatrix = FeatureMatrix::from_capabilities(&capabilities);
        let strategy: DegradationStrategy = DegradationStrategy::calculate_optimal_strategy(
            &matrix,
        );
        self.platform_capabilities = capabilities;
        self.feature_matrix = matrix;
        self.degradation_strategy = strategy;
    }

    /// Whether any target platform's negotiated capabilities support the
    /// feature `name` names.
    pub fn supports_feature(&self, name: &str) -> (r: bool)
        ensures
            r == matrix_supported_named(self.feature_matrix, name@),
    {
        self.feature_matrix.is_supported(name)
    }

    /// The best platform recorded for the feature `name` names.
    pub fn best_platform_for_feature(&self, name: &str) -> (r: Option<Platform>)
        ensures
            spec_feature_of_name(name@) is None ==> r is None,
    {
        self.feature_matrix.best_platform_for_feature(name)
    }

    /// Degrade each requested feature the matrix does not support.
    pub fn apply_degradation(&mut self, requested_features: &Vec<String>) -> (r: Vec<
        FeatureDegradation,
    >)
        ensures
            r@ == spec_degradations(
                old(self).degradation_strategy,
                old(self).feature_matrix,
                requested_features@,
            ),
            *final(self) == *old(self),
    {
        self.degradation_strategy.apply_degradations(requested_features, &self.feature_matrix)
    }

    /// Record the authorization state of a platform.
    pub fn update_authorization(&mut self, platform: Platform, state: AuthorizationState)
        ensures
            plat_get(final(self).authorization_states@, platform) == Some(state),
            forall|p2: Platform|
                p2 != platform ==> plat_get(final(self).authorization_states@, p2) == plat_get(
                    old(self).authorization_states@,
                    p2,
                ),
            final(self).target_platforms == old(self).target_platforms,
            final(self).platform_capabilities == old(self).platform_capabilities,
            final(self).native_handles == old(self).native_handles,
            final(self).feature_matrix == old(self).feature_matrix,
            final(self).degradation_strategy == old(self).degradation_strategy,
            final(self).platform_configs == old(self).platform_configs,
            final(self).user_preferences == old(self).user_preferences,
    {
        plat_upsert(&mut self.authorization_states, platform, state);
    }

    /// Whether delivery to `platform` is authorized: a state is recorded
    /// and it reports authorized.  A recorded `Authorized` always answers
    /// yes; nothing recorded, or a recorded state that is neither
    /// `Authorized` nor `Provisional`, always answers no; so a yes always
    /// rests on a recorded `Authorized` or `Provisional` state.
    pub fn is_authorized(&self, platform: Platform) -> (r: bool)
        ensures
            plat_get(self.authorization_states@, platform) is None ==> !r,
            (match plat_get(self.authorization_states@, platform) {
                Some(s) => s is Authorized,
                None => false,
            }) ==> r,
            (match plat_get(self.authorization_states@, platform) {
                Some(s) => !(s is Authorized || s is Provisional),
                None => false,
            }) ==> !r,
            r ==> (match plat_get(self.authorization_states@, platform) {
                Some(s) => s is Authorized || s is Provisional,
                None => false,
            }),
            (match plat_get(self.authorization_states@, platform) {
                Some(s) => s matches AuthorizationState::Provisional { expires_at: None, .. },
                None => false,
            }) ==> r,
    {
        match plat_lookup(&self.authorization_states, platform) {
            Some(state) => state.is_authorized(),
            None => false,
        }
    }

    /// Mark every configured platform's capability data as refreshed now.
    pub fn refresh_capabilities(&mut self)
        ensures
            final(self).target_platforms == old(self).target_platforms,
            final(self).platform_capabilities == old(self).platform_capabilities,
            final(self).authorization_states == old(self).authorization_states,
            final(self).platform_configs@.len() == old(self).platform_configs@.len(),
    {
        let now: u64 = clock_now_millis();
        let stamp: String = crate::text::to_decimal_u64(now);
        let n: usize = self.platform_configs.len();
        let mut i: usize = 0;
        while i < n
            invariant
                n == self.platform_configs@.len(),
                i <= n,
                self.target_platforms == old(self).target_platforms,
                self.platform_capabilities == old(self).platform_capabilities,
                self.authorization_states == old(self).authorization_states,
                self.native_handles == old(self).native_handles,
                self.feature_matrix == old(self).feature_matrix,
                self.degradation_strategy == old(self).degradation_strategy,
                self.user_preferences == old(self).user_preferences,
            decreases n - i,
        {
            let mut entry: (Platform, PlatformConfig) = (
                self.platform_configs[i].0,
                PlatformConfig {
                    app_identifier: self.platform_configs[i].1.app_identifier.clone(),
                    settings: self.platform_configs[i].1.settings.clone(),
                    enabled_features: self.platform_configs[i].1.enabled_features.clone(),
                    custom_limits: self.platform_configs[i].1.custom_limits.clone(),
                },
            );
            entry.1.settings.push(("last_refresh".to_owned(), stamp.clone()));
            self.platform_configs.set(i, entry);
            i = i + 1;
        }
    }

    /// The content limits of a platform: its negotiated capabilities'
    /// limits, or no limits when none were negotiated.
    pub fn get_platform_limits(&self, platform: Platform) -> (r: PlatformLimits)
        ensures
            r == (match plat_get(self.platform_capabilities@, platform) {
                Some(c) => spec_caps_limits(c),
                None => PlatformLimits {
                    max_actions: None,
                    max_title_length: None,
                    max_body_length: None,
                    max_image_size: None,
                    max_file_size: None,
                },
            }),
    {
        match plat_lookup(&self.platform_capabilities, platform) {
            Some(caps) => caps.get_limits(),
            None => PlatformLimits {
                max_actions: None,
                max_title_length: None,
                max_body_length: None,
                max_image_size: None,
                max_file_size: None,
            },
        }
    }

    /// Record native handle metadata for a platform.
    pub fn update_native_handle(&mut self, platform: Platform, metadata: NativeHandleMetadata)
        ensures
            plat_get(final(self).native_handles@, platform) == Some(metadata),
            final(self).target_platforms == old(self).target_platforms,
            final(self).authorization_states == old(self).authorization_states,
    {
        plat_upsert(&mut self.native_handles, platform, metadata);
    }
}

impl Default for PlatformIntegration {
    /// Integration targeting macOS alone.
    fn default() -> (r: PlatformIntegration)
        ensures
            r.wf(),
    {
        let mut platforms: Vec<Platform> = Vec::new();
        platforms.push(Platform::MacOS);
        PlatformIntegration::new(platforms)
    }
}

} // verus!
