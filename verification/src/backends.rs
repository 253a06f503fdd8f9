//! What the platform backends compute: the exact toast XML document, the
//! D-Bus `Notify` argument list, urgency and expiry tables, Windows file
//! times, the macOS presentation, and the capability records the backends
//! report.  The native API calls themselves are made by the surrounding
//! application, which hands these values across unchanged.

use vstd::prelude::*;

use crate::content::{spec_map_get, NotificationContent};
use crate::platform::{
    CompatibilityLevel, DeliveryOptions, PermissionLevel, Platform, PlatformCapabilities,
};
use crate::priority::Priority;
use crate::errors::NotificationError;
use crate::text::{
    append_str, dec_num, dec_of, is_dec_text, parse_u32_decimal, str_eq, to_decimal_u64,
    xml_escape, xml_escaped,
};
use crate::time_wrapper::clock_now_millis;

verus! {

// ---------------------------------------------------------------------------
// Receipts and requests
// ---------------------------------------------------------------------------

/// A backend's receipt of one successful native delivery.  Times in
/// milliseconds since the Unix epoch.
#[derive(Debug, Clone)]
pub struct PlatformDeliveryReceipt {
    pub platform: Platform,
    pub native_id: String,
    pub delivered_at: u64,
    pub delivery_latency_millis: u64,
    pub metadata: Vec<(String, String)>,
}

impl PlatformDeliveryReceipt {
    /// A receipt for a delivery on `platform` under `native_id`, stamped
    /// now, with no metadata yet.
    pub fn new(platform: Platform, native_id: String) -> (r: PlatformDeliveryReceipt)
        ensures
            r.platform == platform,
            r.native_id == native_id,
            r.delivery_latency_millis == 0,
            r.metadata@.len() == 0,
    {
        PlatformDeliveryReceipt {
            platform,
            native_id,
            delivered_at: clock_now_millis(),
            delivery_latency_millis: 0,
            metadata: Vec::new(),
        }
    }

    /// The same receipt with the measured latency.
    pub fn with_latency(self, delivery_latency_millis: u64) -> (r: PlatformDeliveryReceipt)
        ensures
            r.delivery_latency_millis == delivery_latency_millis,
            r.platform == self.platform,
            r.native_id == self.native_id,
            r.metadata == self.metadata,
    {
        PlatformDeliveryReceipt { delivery_latency_millis, ..self }
    }

    /// The same receipt with one more metadata pair appended.
    pub fn with_metadata(self, key: &str, value: &str) -> (r: PlatformDeliveryReceipt)
        ensures
            r.metadata@.len() == self.metadata@.len() + 1,
            r.metadata@.last().0@ == key@,
            r.metadata@.last().1@ == value@,
            r.metadata@.subrange(0, self.metadata@.len() as int) == self.metadata@,
            r.platform == self.platform,
            r.native_id == self.native_id,
    {
        let ghost orig = self.metadata@;
        let mut metadata: Vec<(String, String)> = self.metadata;
        metadata.push((key.to_owned(), value.to_owned()));
        proof {
            assert(metadata@.subrange(0, metadata@.len() - 1) =~= orig);
        }
        PlatformDeliveryReceipt { metadata, ..self }
    }
}

/// One delivery request handed to a backend.
#[derive(Debug, Clone)]
pub struct NotificationRequest {
    pub notification_id: String,
    pub content: NotificationContent,
    pub options: DeliveryOptions,
    pub correlation_id: String,
}

/// A content update handed to a backend.
#[derive(Debug, Clone)]
pub struct NotificationUpdate {
    pub content_changes: Vec<(String, String)>,
    pub media_changes: Vec<MediaChange>,
    pub action_changes: Vec<ActionChange>,
    pub options: Option<DeliveryOptions>,
}

/// A media change in an update.
#[derive(Debug, Clone)]
pub enum MediaChange {
    Add(crate::content::MediaAttachment),
    Remove(String),
    Update { id: String, new_data: crate::content::MediaAttachment },
}

/// An action change in an update.
#[derive(Debug, Clone)]
pub enum ActionChange {
    Add(crate::content::NotificationAction),
    Remove(String),
    Update { id: String, new_action: crate::content::NotificationAction },
}

// ---------------------------------------------------------------------------
// Linux: urgency, expiry, and the Notify argument list
// ---------------------------------------------------------------------------

/// The D-Bus urgency byte for a priority: low is 0, normal 1, everything
/// higher 2.
pub fn urgency_of(priority: &Priority) -> (r: u8)
    ensures
        *priority is Low ==> r == 0,
        *priority is Normal ==> r == 1,
        (priority.rank() >= Priority::High.rank()) ==> r == 2,
{
    match priority {
        Priority::Low => 0,
        Priority::Normal => 1,
        Priority::High => 2,
        Priority::Critical => 2,
        Priority::Urgent => 2,
    }
}

/// The `expire_timeout` milliseconds for a delivery: the option's time to
/// live when set, else by priority — the two highest levels never expire
/// (zero), high 10 s, normal 5 s, low 3 s.
pub fn expire_timeout_of(ttl_millis: Option<u64>, priority: &Priority) -> (r: i32)
    ensures
        (match ttl_millis {
            Some(ttl) => r == (if ttl > i32::MAX as u64 {
                i32::MAX as int
            } else {
                ttl as int
            }),
            None => r == (match *priority {
                Priority::Critical => 0int,
                Priority::Urgent => 0int,
                Priority::High => 10000int,
                Priority::Normal => 5000int,
                Priority::Low => 3000int,
            }),
        }),
{
    match ttl_millis {
        Some(ttl) => {
            if ttl > i32::MAX as u64 {
                i32::MAX
            } else {
                ttl as i32
            }
        },
        None => match priority {
            Priority::Critical | Priority::Urgent => 0,
            Priority::High => 10000,
            Priority::Normal => 5000,
            Priority::Low => 3000,
        },
    }
}

/// A value in the D-Bus hints dictionary.
#[derive(Debug, Clone, PartialEq, Eq)]
pub enum HintValue {
    /// A byte variant (the urgency level).
    Byte(u8),
    /// A string variant.
    Text(String),
}

/// The argument list of one D-Bus `Notify` call, in wire order.
#[derive(Debug, Clone)]
pub struct NotifyArgs {
    pub app_name: String,
    pub replaces_id: u32,
    pub app_icon: String,
    pub summary: String,
    pub body: String,
    /// Flattened pairs: action id, then its label.
    pub actions: Vec<String>,
    pub hints: Vec<(String, HintValue)>,
    pub expire_timeout: i32,
}

/// Build the `Notify` arguments for a request: the urgency hint from the
/// priority, the category hint when a category is set, the desktop entry,
/// the action id/label pairs in order, the Pango body when the server
/// listed markup support and the structured plain body otherwise, and the
/// expiry from the options or the priority.
pub fn build_notify_args(
    request: &NotificationRequest,
    app_icon_path: &str,
    server_supports_markup: bool,
) -> (r: NotifyArgs)
    ensures
        r.replaces_id == 0,
        r.summary == request.content.title,
        r.app_icon@ == app_icon_path@,
        server_supports_markup ==> r.body@ == crate::content::spec_pango_text(
            request.content.body,
        ),
        !server_supports_markup ==> r.body@ == crate::content::spec_structured_plain(
            request.content.body,
        ),
        r.actions@.len() == 2 * request.content.interactions.actions@.len(),
        forall|k: int|
            0 <= k < request.content.interactions.actions@.len() ==> (#[trigger] r.actions@[2
                * k])@ == request.content.interactions.actions@[k].id.text@ && r.actions@[2 * k
                + 1]@ == request.content.interactions.actions@[k].label@,
        r.hints@.len() >= 2,
        r.hints@[0].0@ == "urgency"@,
        r.hints@[0].1 == (HintValue::Byte(
            if request.content.priority is Low {
                0u8
            } else if request.content.priority is Normal {
                1u8
            } else {
                2u8
            },
        )),
        (match request.options.ttl_millis {
            Some(ttl) => r.expire_timeout == (if ttl > i32::MAX as u64 {
                i32::MAX as int
            } else {
                ttl as int
            }),
            None => r.expire_timeout == (match request.content.priority {
                Priority::Critical => 0int,
                Priority::Urgent => 0int,
                Priority::High => 10000int,
                Priority::Normal => 5000int,
                Priority::Low => 3000int,
            }),
        }),
{
    let mut hints: Vec<(String, HintValue)> = Vec::new();
    hints.push(("urgency".to_owned(), HintValue::Byte(urgency_of(&request.content.priority))));
    match &request.content.category {
        Some(category) => {
            hints.push(("category".to_owned(), HintValue::Text(category.identifier.clone())));
        },
        None => {},
    }
    hints.push(("desktop-entry".to_owned(), HintValue::Text("native-notify".to_owned())));
    let mut actions: Vec<String> = Vec::new();
    let n: usize = request.content.interactions.actions.len();
    let mut i: usize = 0;
    while i < n
        invariant
            n == request.content.interactions.actions@.len(),
            i <= n,
            actions@.len() == 2 * i,
            forall|k: int|
                0 <= k < i ==> (#[trigger] actions@[2 * k])@
                    == request.content.interactions.actions@[k].id.text@ && actions@[2 * k
                    + 1]@ == request.content.interactions.actions@[k].label@,
        decreases n - i,
    {
        actions.push(request.content.interactions.actions[i].id.text.clone());
        actions.push(request.content.interactions.actions[i].label.clone());
        i = i + 1;
        proof {
            assert forall|k: int|
                0 <= k < i implies (#[trigger] actions@[2 * k])@
                == request.content.interactions.actions@[k].id.text@ && actions@[2 * k + 1]@
                == request.content.interactions.actions@[k].label@ by {}
        }
    }
    let body: String = if server_supports_markup {
        request.content.body.to_pango_markup()
    } else {
        request.content.body.to_structured_plain_text()
    };
    NotifyArgs {
        app_name: "native-notify".to_owned(),
        replaces_id: 0,
        app_icon: app_icon_path.to_owned(),
        summary: request.content.title.clone(),
        body,
        actions,
        hints,
        expire_timeout: expire_timeout_of(request.options.ttl_millis, &request.content.priority),
    }
}

/// The capability record the Linux backend reports, given the capability
/// strings the notification server listed.
pub fn linux_capabilities(server_caps: &Vec<String>, connected: bool) -> (r: PlatformCapabilities)
    ensures
        !connected ==> r.compatibility_level is Unsupported,
        connected ==> {
            &&& r.supports_actions == contains_string(server_caps@, "actions"@)
            &&& r.supports_markup == (contains_string(server_caps@, "body-markup"@)
                || contains_string(server_caps@, "markup"@))
            &&& r.supports_rich_media == contains_string(server_caps@, "body-images"@)
            &&& r.supports_sound == contains_string(server_caps@, "sound"@)
            &&& r.supports_persistent == contains_string(server_caps@, "persistence"@)
            &&& !r.authorization_required
            &&& r.max_title_length == Some(512usize)
            &&& r.max_body_length == Some(4096usize)
            &&& r.max_image_size == Some(1048576usize)
        },
{
    if !connected {
        let mut caps: PlatformCapabilities = PlatformCapabilities::none();
        caps.compatibility_level = CompatibilityLevel::Unsupported;
        return caps;
    }
    let supports_actions: bool = has_string(server_caps, "actions");
    let supports_markup: bool = has_string(server_caps, "body-markup") || has_string(
        server_caps,
        "markup",
    );
    let supports_images: bool = has_string(server_caps, "body-images");
    let supports_sound: bool = has_string(server_caps, "sound");
    let supports_persistence: bool = has_string(server_caps, "persistence");
    let mut caps: PlatformCapabilities = PlatformCapabilities::none();
    caps.supports_actions = supports_actions;
    caps.supports_rich_media = supports_images;
    caps.supports_markup = supports_markup;
    caps.supports_sound = supports_sound;
    caps.supports_categories = true;
    caps.supports_background_activation = supports_actions;
    caps.supports_update_content = true;
    caps.supports_persistent = supports_persistence;
    caps.supports_priority = true;
    caps.max_title_length = Some(512);
    caps.max_body_length = Some(4096);
    caps.max_image_size = Some(1048576);
    let mut permission_levels: Vec<PermissionLevel> = Vec::new();
    permission_levels.push(PermissionLevel::Display);
    caps.permission_levels = permission_levels;
    caps.compatibility_level = if supports_actions {
        CompatibilityLevel::High
    } else {
        CompatibilityLevel::Medium
    };
    caps.delivery_latency_estimate_millis = Some(20);
    caps
}

/// Is `needle` among the strings of `hay`?
pub open spec fn contains_string(hay: Seq<String>, needle: Seq<char>) -> bool {
    exists|k: int| 0 <= k < hay.len() && (#[trigger] hay[k])@ == needle
}

/// Membership test over a string list.
pub fn has_string(hay: &Vec<String>, needle: &str) -> (r: bool)
    ensures
        r == contains_string(hay@, needle@),
{
    let n: usize = hay.len();
    let mut i: usize = 0;
    while i < n
        invariant
            n == hay@.len(),
            i <= n,
            forall|k: int| 0 <= k < i ==> (#[trigger] hay@[k])@ != needle@,
        decreases n - i,
    {
        if str_eq(hay[i].as_str(), needle) {
            return true;
        }
        i = i + 1;
    }
    false
}

// ---------------------------------------------------------------------------
// Windows: toast XML and file times
// ---------------------------------------------------------------------------

/// The toast document for the given pieces, every injected string
/// XML-escaped: optional hero image, optional circle-cropped logo, the
/// title, an optional subtitle, the body, and the default audio.
pub open spec fn spec_toast_xml(
    title: Seq<char>,
    subtitle: Option<Seq<char>>,
    body: Seq<char>,
    hero_url: Option<Seq<char>>,
    logo_url: Option<Seq<char>>,
) -> Seq<char> {
    "<toast><visual><binding template=\"ToastGeneric\">"@ + (match hero_url {
        Some(u) => "<image placement=\"hero\" src=\""@ + xml_escaped(u) + "\"/>"@,
        None => Seq::<char>::empty(),
    }) + (match logo_url {
        Some(u) => "<image placement=\"appLogoOverride\" hint-crop=\"circle\" src=\""@
            + xml_escaped(u) + "\"/>"@,
        None => Seq::<char>::empty(),
    }) + "<text hint-style=\"title\">"@ + xml_escaped(title) + "</text>"@ + (match subtitle {
        Some(st) => "<text hint-style=\"captionSubtle\">"@ + xml_escaped(st) + "</text>"@,
        None => Seq::<char>::empty(),
    }) + "<text hint-style=\"body\">"@ + xml_escaped(body) + "</text>"@
        + "</binding></visual><audio src=\"ms-winsoundevent:Notification.Default\"/></toast>"@
}

/// Render the toast XML document.
pub fn create_toast_xml(
    title: &str,
    subtitle: Option<&str>,
    body: &str,
    hero_url: Option<&str>,
    logo_url: Option<&str>,
) -> (r: String)
    ensures
        r@ == spec_toast_xml(
            title@,
            match subtitle {
                Some(st) => Some(st@),
                None => None,
            },
            body@,
            match hero_url {
                Some(u) => Some(u@),
                None => None,
            },
            match logo_url {
                Some(u) => Some(u@),
                None => None,
            },
        ),
{
    let mut out: String = String::new();
    append_str(&mut out, "<toast><visual><binding template=\"ToastGeneric\">");
    match hero_url {
        Some(u) => {
            append_str(&mut out, "<image placement=\"hero\" src=\"");
            let escaped: String = xml_escape(u);
            append_str(&mut out, escaped.as_str());
            append_str(&mut out, "\"/>");
        },
        None => {},
    }
    match logo_url {
        Some(u) => {
            append_str(
                &mut out,
                "<image placement=\"appLogoOverride\" hint-crop=\"circle\" src=\"",
            );
            let escaped: String = xml_escape(u);
            append_str(&mut out, escaped.as_str());
            append_str(&mut out, "\"/>");
        },
        None => {},
    }
    append_str(&mut out, "<text hint-style=\"title\">");
    let escaped_title: String = xml_escape(title);
    append_str(&mut out, escaped_title.as_str());
    append_str(&mut out, "</text>");
    match subtitle {
        Some(st) => {
            append_str(&mut out, "<text hint-style=\"captionSubtle\">");
            let escaped_subtitle: String = xml_escape(st);
            append_str(&mut out, escaped_subtitle.as_str());
            append_str(&mut out, "</text>");
        },
        None => {},
    }
    append_str(&mut out, "<text hint-style=\"body\">");
    let escaped_body: String = xml_escape(body);
    append_str(&mut out, escaped_body.as_str());
    append_str(&mut out, "</text>");
    append_str(
        &mut out,
        "</binding></visual><audio src=\"ms-winsoundevent:Notification.Default\"/></toast>",
    );
    proof {
        assert(out@ =~= spec_toast_xml(
            title@,
            match subtitle {
                Some(st) => Some(st@),
                None => None::<Seq<char>>,
            },
            body@,
            match hero_url {
                Some(u) => Some(u@),
                None => None::<Seq<char>>,
            },
            match logo_url {
                Some(u) => Some(u@),
                None => None::<Seq<char>>,
            },
        ));
    }
    out
}

/// The offset from the Windows epoch (1601) to the Unix epoch (1970), in
/// seconds.
pub const WINDOWS_EPOCH_OFFSET_SECS: u64 = 11644473600;

/// A Unix time in milliseconds as Windows file time: 100-nanosecond ticks
/// since 1601.  `None` when the arithmetic would not fit 64 bits.
pub fn windows_ticks_of_unix_millis(unix_millis: u64) -> (r: Option<u64>)
    ensures
        match r {
            Some(ticks) => ticks as int == (unix_millis as int + WINDOWS_EPOCH_OFFSET_SECS as int
                * 1000) * 10000,
            None => (unix_millis as int + WINDOWS_EPOCH_OFFSET_SECS as int * 1000) * 10000
                > u64::MAX,
        },
{
    let offset_millis: u64 = WINDOWS_EPOCH_OFFSET_SECS * 1000;
    let total_millis: u64 = match unix_millis.checked_add(offset_millis) {
        Some(x) => x,
        None => {
            proof {
                assert((unix_millis as int + WINDOWS_EPOCH_OFFSET_SECS as int * 1000) * 10000
                    > u64::MAX) by (nonlinear_arith)
                    requires
                        unix_millis as int + WINDOWS_EPOCH_OFFSET_SECS as int * 1000
                            > u64::MAX,
                ;
            }
            return None;
        },
    };
    match total_millis.checked_mul(10000) {
        Some(ticks) => Some(ticks),
        None => None,
    }
}

/// The capability record the Windows backend reports.
pub fn windows_capabilities(supports_toasts: bool) -> (r: PlatformCapabilities)
    ensures
        r.supports_actions == supports_toasts,
        r.supports_markup,
        r.supports_progress,
        r.max_actions == Some(5usize),
        r.max_title_length == Some(128usize),
        r.max_body_length == Some(1024usize),
        r.max_image_size == Some(204800usize),
        !r.authorization_required,
        supports_toasts ==> r.compatibility_level is Full,
        !supports_toasts ==> r.compatibility_level is Unsupported,
{
    let mut caps: PlatformCapabilities = PlatformCapabilities::none();
    caps.supports_actions = supports_toasts;
    caps.supports_rich_media = supports_toasts;
    caps.supports_markup = true;
    caps.supports_sound = supports_toasts;
    caps.supports_progress = true;
    caps.supports_replies = supports_toasts;
    caps.supports_custom_ui = true;
    caps.supports_background_activation = supports_toasts;
    caps.supports_update_content = true;
    caps.supports_persistent = true;
    caps.supports_grouping = true;
    caps.max_actions = Some(5);
    caps.max_title_length = Some(128);
    caps.max_body_length = Some(1024);
    caps.max_image_size = Some(204800);
    caps.max_sound_duration_millis = Some(10000);
    let mut permission_levels: Vec<PermissionLevel> = Vec::new();
    permission_levels.push(PermissionLevel::Display);
    permission_levels.push(PermissionLevel::Actions);
    permission_levels.push(PermissionLevel::Media);
    caps.permission_levels = permission_levels;
    caps.compatibility_level = if supports_toasts {
        CompatibilityLevel::Full
    } else {
        CompatibilityLevel::Unsupported
    };
    caps.delivery_latency_estimate_millis = Some(50);
    caps
}

// ---------------------------------------------------------------------------
// macOS: the presentation handed to the notification center
// ---------------------------------------------------------------------------

/// What the macOS backend shows: the title, the supplied subtitle or a
/// summary extracted from the body, and the structured plain body.
#[derive(Debug, Clone)]
pub struct MacosPresentation {
    pub title: String,
    pub subtitle: Option<String>,
    pub body: String,
}

/// Build the macOS presentation for a request.
pub fn macos_presentation(content: &NotificationContent) -> (r: MacosPresentation)
    ensures
        r.title == content.title,
        r.body@ == crate::content::spec_structured_plain(content.body),
        content.subtitle is Some ==> r.subtitle == content.subtitle,
        content.subtitle is None ==> (match crate::content::spec_extract_subtitle(
            crate::content::spec_plain_text(content.body),
        ) {
            Some(st) => r.subtitle matches Some(v) && v@ == st,
            None => r.subtitle is None,
        }),
{
    let subtitle: Option<String> = match &content.subtitle {
        Some(st) => Some(st.clone()),
        None => content.body.extract_subtitle(),
    };
    MacosPresentation {
        title: content.title.clone(),
        subtitle,
        body: content.body.to_structured_plain_text(),
    }
}

/// The capability record the macOS backend reports; authorization is
/// required exactly when the authorization check did not come back granted.
pub fn macos_capabilities(is_authorized: bool) -> (r: PlatformCapabilities)
    ensures
        r.supports_actions,
        r.supports_rich_media,
        !r.supports_markup,
        r.max_actions == Some(4usize),
        r.max_title_length == Some(256usize),
        r.max_body_length == Some(2048usize),
        r.max_image_size == Some(10485760usize),
        r.authorization_required == !is_authorized,
        r.compatibility_level is Full,
{
    let mut caps: PlatformCapabilities = PlatformCapabilities::none();
    caps.supports_actions = true;
    caps.supports_rich_media = true;
    caps.supports_sound = true;
    caps.supports_scheduling = true;
    caps.supports_categories = true;
    caps.supports_replies = true;
    caps.supports_background_activation = true;
    caps.supports_update_content = true;
    caps.supports_persistent = true;
    caps.supports_priority = true;
    caps.supports_grouping = true;
    caps.supports_badges = true;
    caps.max_actions = Some(4);
    caps.max_title_length = Some(256);
    caps.max_body_length = Some(2048);
    caps.max_image_size = Some(10485760);
    caps.max_sound_duration_millis = Some(30000);
    caps.authorization_required = !is_authorized;
    let mut permission_levels: Vec<PermissionLevel> = Vec::new();
    permission_levels.push(PermissionLevel::Display);
    permission_levels.push(PermissionLevel::Sound);
    permission_levels.push(PermissionLevel::Badge);
    permission_levels.push(PermissionLevel::Actions);
    permission_levels.push(PermissionLevel::Critical);
    caps.permission_levels = permission_levels;
    caps.delivery_latency_estimate_millis = Some(100);
    caps
}

/// A native identifier for the D-Bus wire: the decimal text of the integer
/// the server returned.
pub fn native_id_text(server_id: u32) -> (r: String)
    ensures
        r@ == dec_of(server_id as nat),
{
    to_decimal_u64(server_id as u64)
}

// ---------------------------------------------------------------------------
// Updates and cancellation on the D-Bus wire
// ---------------------------------------------------------------------------

/// The first value under `key` among an update's content changes.
pub fn content_change<'a>(update: &'a NotificationUpdate, key: &str) -> (r: Option<&'a String>)
    ensures
        match r {
            Some(v) => spec_map_get(update.content_changes@, key@) == Some(v@),
            None => spec_map_get(update.content_changes@, key@) is None,
        },
{
    crate::content::map_get(&update.content_changes, key)
}

/// Parse a notification id for the D-Bus wire, where ids are the decimal
/// text of the server's 32-bit handle.  Rejects anything else as a
/// validation error, exactly when the text is not a decimal number within
/// 32 bits.
pub fn parse_native_id(id: &str) -> (r: Result<u32, NotificationError>)
    ensures
        r matches Ok(v) ==> is_dec_text(id@) && v as int == dec_num(id@),
        r is Err ==> (!is_dec_text(id@) || dec_num(id@) > u32::MAX) && (r matches Err(
            NotificationError::ValidationError { field, .. },
        ) && field@ == "notification_id"@),
{
    match parse_u32_decimal(id) {
        Some(v) => Ok(v),
        None => Err(
            NotificationError::ValidationError {
                field: "notification_id".to_owned(),
                message: "Invalid notification ID format".to_owned(),
            },
        ),
    }
}

/// Build the `Notify` arguments that replace an existing notification: the
/// parsed id as `replaces_id`, the changed title (or a placeholder) as the
/// summary, the changed body (or empty) as the body, no icon, and default
/// hints and expiry.  Fails exactly when the id is not a 32-bit decimal.
pub fn build_update_args(id: &str, update: &NotificationUpdate) -> (r: Result<
    NotifyArgs,
    NotificationError,
>)
    ensures
        r is Ok <==> (is_dec_text(id@) && dec_num(id@) <= u32::MAX),
        r matches Ok(args) ==> {
            &&& args.replaces_id as int == dec_num(id@)
            &&& args.summary@ == (match spec_map_get(update.content_changes@, "title"@) {
                Some(t) => t,
                None => "Updated Notification"@,
            })
            &&& args.body@ == (match spec_map_get(update.content_changes@, "body"@) {
                Some(b) => b,
                None => Seq::<char>::empty(),
            })
            &&& args.app_icon@.len() == 0
        },
{
    let replaces_id: u32 = match parse_native_id(id) {
        Ok(v) => v,
        Err(e) => {
            return Err(e);
        },
    };
    let summary: String = match content_change(update, "title") {
        Some(t) => t.clone(),
        None => "Updated Notification".to_owned(),
    };
    let body: String = match content_change(update, "body") {
        Some(b) => b.clone(),
        None => String::new(),
    };
    let mut hints: Vec<(String, HintValue)> = Vec::new();
    hints.push(("urgency".to_owned(), HintValue::Byte(1)));
    hints.push(("desktop-entry".to_owned(), HintValue::Text("native-notify".to_owned())));
    let ttl: Option<u64> = match &update.options {
        Some(options) => options.ttl_millis,
        None => None,
    };
    Ok(
        NotifyArgs {
            app_name: "native-notify".to_owned(),
            replaces_id,
            app_icon: String::new(),
            summary,
            body,
            actions: Vec::new(),
            hints,
            expire_timeout: expire_timeout_of(ttl, &Priority::Normal),
        },
    )
}

/// The first resolved image with the given placement, if any.
pub open spec fn spec_first_placement(
    resolved: Seq<(crate::content::ImagePlacement, String)>,
    placement: crate::content::ImagePlacement,
) -> Option<String>
    decreases resolved.len(),
{
    if resolved.len() == 0 {
        None
    } else if resolved[0].0 == placement {
        Some(resolved[0].1)
    } else {
        spec_first_placement(resolved.drop_first(), placement)
    }
}

/// Find the first resolved image with the given placement.
fn first_placement(
    resolved: &Vec<(crate::content::ImagePlacement, String)>,
    placement: crate::content::ImagePlacement,
) -> (r: Option<String>)
    ensures
        r == spec_first_placement(resolved@, placement),
{
    let n: usize = resolved.len();
    let mut i: usize = 0;
    proof {
        assert(resolved@.skip(0) =~= resolved@);
    }
    while i < n
        invariant
            n == resolved@.len(),
            i <= n,
            spec_first_placement(resolved@, placement) == spec_first_placement(
                resolved@.skip(i as int),
                placement,
            ),
        decreases n - i,
    {
        proof {
            assert(resolved@.skip(i as int)[0] == resolved@[i as int]);
            assert(resolved@.skip(i as int).drop_first() =~= resolved@.skip(i as int + 1));
        }
        if resolved[i].0 == placement {
            return Some(resolved[i].1.clone());
        }
        i = i + 1;
    }
    None
}

/// What the Windows backend shows: the title, the supplied subtitle or a
/// summary extracted from the body, the structured plain body, and the
/// first resolved hero and app-icon images.
#[derive(Debug, Clone)]
pub struct WindowsPresentation {
    pub title: String,
    pub subtitle: Option<String>,
    pub body: String,
    pub hero_path: Option<String>,
    pub logo_path: Option<String>,
}

/// Build the Windows presentation for a request from its content and the
/// media the cache resolved, each with its placement.
pub fn windows_presentation(
    content: &NotificationContent,
    resolved: &Vec<(crate::content::ImagePlacement, String)>,
) -> (r: WindowsPresentation)
    ensures
        r.title == content.title,
        r.body@ == crate::content::spec_structured_plain(content.body),
        content.subtitle is Some ==> r.subtitle == content.subtitle,
        content.subtitle is None ==> (match crate::content::spec_extract_subtitle(
            crate::content::spec_plain_text(content.body),
        ) {
            Some(st) => r.subtitle matches Some(v) && v@ == st,
            None => r.subtitle is None,
        }),
        r.hero_path == spec_first_placement(resolved@, crate::content::ImagePlacement::Hero),
        r.logo_path == spec_first_placement(resolved@, crate::content::ImagePlacement::AppIcon),
{
    let subtitle: Option<String> = match &content.subtitle {
        Some(st) => Some(st.clone()),
        None => content.body.extract_subtitle(),
    };
    WindowsPresentation {
        title: content.title.clone(),
        subtitle,
        body: content.body.to_structured_plain_text(),
        hero_path: first_placement(resolved, crate::content::ImagePlacement::Hero),
        logo_path: first_placement(resolved, crate::content::ImagePlacement::AppIcon),
    }
}

/// What the Windows backend shows for an update: toasts cannot change in
/// place, so the old one is removed and a minimal toast with the changed
/// title (or a placeholder) and body (or empty) is shown in its place.
pub fn windows_update_toast(update: &NotificationUpdate) -> (r: String)
    ensures
        r@ == spec_toast_xml(
            (match spec_map_get(update.content_changes@, "title"@) {
                Some(t) => t,
                None => "Updated Notification"@,
            }),
            None,
            (match spec_map_get(update.content_changes@, "body"@) {
                Some(b) => b,
                None => Seq::<char>::empty(),
            }),
            None,
            None,
        ),
{
    let title: String = match content_change(update, "title") {
        Some(t) => t.clone(),
        None => "Updated Notification".to_owned(),
    };
    let body: String = match content_change(update, "body") {
        Some(b) => b.clone(),
        None => String::new(),
    };
    let r: String = create_toast_xml(title.as_str(), None, body.as_str(), None, None);
    proof {
        assert(r@ =~= spec_toast_xml(
            title@,
            None,
            body@,
            None,
            None,
        ));
    }
    r
}

/// Whether a macOS update re-adds a notification after removing the old
/// one: only when the update carries content changes.
pub fn macos_update_readds(update: &NotificationUpdate) -> (r: bool)
    ensures
        r == (update.content_changes@.len() > 0),
{
    update.content_changes.len() > 0
}

} // verus!
