use native_notify::backends::{
    build_notify_args, build_update_args, create_toast_xml, expire_timeout_of,
    linux_capabilities, macos_presentation, macos_update_readds, native_id_text, parse_native_id,
    urgency_of, windows_ticks_of_unix_millis, windows_update_toast, HintValue,
    NotificationRequest, NotificationUpdate,
};
use native_notify::cache::{check_download, resolve_plan, CachedImage, ImageCache, ResolveAction};
use native_notify::manager::{
    apply_delivery_result, begin_delivery, cancel_plan, classify_join_outcome, collect_jobs_for,
    tally_states, DeliveryResult, NotificationRecord, ShutdownResult,
};
use native_notify::store::{send_to_store, NotificationStore};
use native_notify::{
    AuthorizationState, DefaultAuthorizationManager, DeliveryOptions, ImageData, ImageFormat,
    InputValidation, NotificationBuilder, NotificationError, NotificationId, PermissionLevel,
    Platform, PlatformDeliveryReceipt, Priority, RichText,
};
use native_notify::backends::windows_presentation;
use native_notify::lifecycle::CircuitBreakerState;
use native_notify::{
    ImagePlacement, LifecycleErrorDetails, LifecycleErrorType, NotificationLifecycle,
    TransitionReason,
};

fn sample_record(platforms: Vec<Platform>) -> (native_notify::NotificationId, NotificationRecord) {
    let notification = NotificationBuilder::new()
        .with_title("T")
        .with_body(RichText::plain("B"))
        .with_platforms(platforms)
        .build()
        .unwrap();
    let id = notification.identity.id;
    let mut store = NotificationStore::new();
    send_to_store(&mut store, notification).unwrap();
    let record = store.get(id).unwrap().clone();
    (id, record)
}

#[test]
fn cache_ttl_eviction_removes_old_entries() {
    let mut cache = ImageCache::new();
    cache.insert("http://example.com/a.png", "/tmp/a.png".to_string(), 0);
    cache.insert("http://example.com/b.png", "/tmp/b.png".to_string(), 100);
    // One hour after the later entry: both are stale.
    let removed = cache.evict_stale(3_600_100);
    assert_eq!(removed.len(), 2);
    assert_eq!(cache.entries.len(), 0);
}

#[test]
fn cache_size_bound_holds_after_eviction() {
    let mut cache = ImageCache::new();
    for i in 0..105u64 {
        cache.insert(&format!("http://example.com/{i}.png"), format!("/tmp/{i}.png"), i);
    }
    let removed = cache.evict_stale(200);
    assert_eq!(cache.entries.len(), 100);
    assert_eq!(removed.len(), 5);
    // The oldest entries went first.
    assert!(cache.lookup("http://example.com/0.png").is_none());
    assert!(cache.lookup("http://example.com/104.png").is_some());
}

#[test]
fn cache_lookup_returns_inserted_entry() {
    let mut cache = ImageCache::new();
    cache.insert("http://example.com/x.png", "/tmp/x.png".to_string(), 42);
    let entry: &CachedImage = cache.lookup("http://example.com/x.png").unwrap();
    assert_eq!(entry.path, "/tmp/x.png");
    assert_eq!(entry.cached_at, 42);
    assert!(cache.lookup("http://example.com/missing.png").is_none());
}

#[test]
fn resolve_plan_dispatches_by_source() {
    match resolve_plan(&ImageData::Url("http://host/pic.png".to_string())) {
        ResolveAction::Download { url } => assert_eq!(url, "http://host/pic.png"),
        _ => panic!("http URLs are downloads"),
    }
    match resolve_plan(&ImageData::Url("file:///tmp/p.png".to_string())) {
        ResolveAction::UseLocalFile { path, .. } => assert_eq!(path, "/tmp/p.png"),
        _ => panic!("file URLs are local"),
    }
    assert!(matches!(
        resolve_plan(&ImageData::Url("ftp://host/p".to_string())),
        ResolveAction::NoImage
    ));
    assert!(matches!(
        resolve_plan(&ImageData::SystemIcon("gear".to_string())),
        ResolveAction::NoImage
    ));
    assert!(matches!(
        resolve_plan(&ImageData::Embedded {
            data: vec![],
            format: ImageFormat::Png
        }),
        ResolveAction::Invalid { .. }
    ));
    assert!(matches!(
        resolve_plan(&ImageData::Embedded {
            data: vec![1, 2, 3],
            format: ImageFormat::Svg
        }),
        ResolveAction::Invalid { .. }
    ));
    match resolve_plan(&ImageData::Embedded {
        data: vec![1, 2, 3],
        format: ImageFormat::WebP,
    }) {
        ResolveAction::WriteEmbedded { extension } => assert_eq!(extension, "webp"),
        _ => panic!("embedded bytes are written out"),
    }
}

#[test]
fn download_checks_reject_bad_responses() {
    assert!(matches!(
        check_download(false, None, 100),
        Err(NotificationError::ResourceError { .. })
    ));
    assert!(matches!(
        check_download(true, Some(10_485_761), 100),
        Err(NotificationError::ResourceError { .. })
    ));
    assert!(matches!(
        check_download(true, Some(4096), 7),
        Err(NotificationError::ResourceError { .. })
    ));
    assert!(check_download(true, Some(4096), 4096).is_ok());
    assert!(check_download(true, None, 8).is_ok());
}

#[test]
fn toast_xml_matches_schema() {
    let xml = create_toast_xml("Title & more", None, "Body<b>", None, None);
    assert_eq!(
        xml,
        "<toast><visual><binding template=\"ToastGeneric\">\
         <text hint-style=\"title\">Title &amp; more</text>\
         <text hint-style=\"body\">Body&lt;b&gt;</text>\
         </binding></visual><audio src=\"ms-winsoundevent:Notification.Default\"/></toast>"
    );
    let with_images = create_toast_xml(
        "T",
        Some("S"),
        "B",
        Some("/tmp/hero.png"),
        Some("/tmp/logo.png"),
    );
    assert!(with_images.contains("<image placement=\"hero\" src=\"/tmp/hero.png\"/>"));
    assert!(with_images
        .contains("<image placement=\"appLogoOverride\" hint-crop=\"circle\" src=\"/tmp/logo.png\"/>"));
    assert!(with_images.contains("<text hint-style=\"captionSubtle\">S</text>"));
}

#[test]
fn windows_ticks_count_from_1601() {
    let ticks = windows_ticks_of_unix_millis(0).unwrap();
    assert_eq!(ticks, 11_644_473_600_000 * 10_000);
    let later = windows_ticks_of_unix_millis(1_000).unwrap();
    assert_eq!(later - ticks, 10_000_000);
}

#[test]
fn urgency_and_expiry_follow_priority() {
    assert_eq!(urgency_of(&Priority::Low), 0);
    assert_eq!(urgency_of(&Priority::Normal), 1);
    assert_eq!(urgency_of(&Priority::High), 2);
    assert_eq!(urgency_of(&Priority::Critical), 2);
    assert_eq!(urgency_of(&Priority::Urgent), 2);

    assert_eq!(expire_timeout_of(None, &Priority::Critical), 0);
    assert_eq!(expire_timeout_of(None, &Priority::Urgent), 0);
    assert_eq!(expire_timeout_of(None, &Priority::High), 10_000);
    assert_eq!(expire_timeout_of(None, &Priority::Normal), 5_000);
    assert_eq!(expire_timeout_of(None, &Priority::Low), 3_000);
    assert_eq!(expire_timeout_of(Some(1_500), &Priority::Low), 1_500);
}

#[test]
fn notify_args_carry_request_fields() {
    let content = native_notify::NotificationContent::new("Hello", RichText::plain("World"));
    let request = NotificationRequest {
        notification_id: "1".to_string(),
        content,
        options: DeliveryOptions::default(),
        correlation_id: "c".to_string(),
    };
    let args = build_notify_args(&request, "/tmp/icon.png", false);
    assert_eq!(args.replaces_id, 0);
    assert_eq!(args.summary, "Hello");
    assert_eq!(args.body, "World");
    assert_eq!(args.app_icon, "/tmp/icon.png");
    assert_eq!(args.expire_timeout, 5_000);
    assert_eq!(args.hints[0].0, "urgency");
    assert_eq!(args.hints[0].1, HintValue::Byte(1));
    assert_eq!(native_id_text(42), "42");
}

#[test]
fn linux_capability_mapping_reads_server_strings() {
    let server = vec!["actions".to_string(), "body-markup".to_string()];
    let caps = linux_capabilities(&server, true);
    assert!(caps.supports_actions);
    assert!(caps.supports_markup);
    assert!(!caps.supports_rich_media);

    let offline = linux_capabilities(&server, false);
    assert!(matches!(
        offline.compatibility_level,
        native_notify::CompatibilityLevel::Unsupported
    ));
}

#[test]
fn macos_presentation_extracts_subtitle() {
    let content = native_notify::NotificationContent::new(
        "Title",
        RichText::plain("First sentence. Second sentence."),
    );
    let shown = macos_presentation(&content);
    assert_eq!(shown.title, "Title");
    assert_eq!(shown.subtitle, Some("First sentence.".to_string()));
    assert_eq!(shown.body, "First sentence. Second sentence.");
}

#[test]
fn send_stores_two_records_under_distinct_ids() {
    let mut store = NotificationStore::new();
    let n1 = NotificationBuilder::new()
        .with_title("One")
        .with_body(RichText::plain("x"))
        .build()
        .unwrap();
    let n2 = NotificationBuilder::new()
        .with_title("Two")
        .with_body(RichText::plain("y"))
        .build()
        .unwrap();
    let id1 = send_to_store(&mut store, n1).unwrap();
    let id2 = send_to_store(&mut store, n2).unwrap();
    assert_ne!(id1, id2);
    assert!(store.get(id1).is_some());
    assert!(store.get(id2).is_some());
    assert_eq!(store.len(), 2);
    // A queued record is what the delivery worker picks up.
    assert!(matches!(
        store.get(id1).unwrap().lifecycle.state,
        native_notify::lifecycle::NotificationState::Queued
    ));
}

#[test]
fn delivery_failure_aggregates_into_failed() {
    let (id, mut record) = sample_record(vec![Platform::MacOS, Platform::Windows]);
    let jobs = collect_jobs_for(id, &record);
    assert_eq!(jobs.len(), 2);

    begin_delivery(&mut record, None);
    assert!(matches!(
        record.lifecycle.state,
        native_notify::lifecycle::NotificationState::Delivering
    ));

    let receipt = PlatformDeliveryReceipt::new(Platform::MacOS, "7".to_string());
    let correlation = record.identity.correlation_id.clone();
    apply_delivery_result(
        &mut record,
        DeliveryResult::Success {
            notification_id: id,
            platform: Platform::MacOS,
            receipt,
            correlation_id: correlation.clone(),
        },
    );
    // One platform still pending: state unchanged.
    assert!(matches!(
        record.lifecycle.state,
        native_notify::lifecycle::NotificationState::Delivering
    ));

    apply_delivery_result(
        &mut record,
        DeliveryResult::Failure {
            notification_id: id,
            platform: Platform::Windows,
            error: "toast refused".to_string(),
            correlation_id: correlation,
            retry_count: 0,
        },
    );
    match &record.lifecycle.state {
        native_notify::lifecycle::NotificationState::Failed(details) => {
            assert_eq!(details.platform_errors.len(), 1);
            assert_eq!(details.platform_errors[0].0, Platform::Windows);
        }
        other => panic!("expected Failed, got {other:?}"),
    }
    assert!(matches!(
        record.lifecycle.state_history.last().unwrap().reason,
        TransitionReason::DeliveryFailed
    ));
}

#[test]
fn delivery_success_on_all_platforms_settles_delivered() {
    let (id, mut record) = sample_record(vec![Platform::Linux]);
    let correlation = record.identity.correlation_id.clone();
    begin_delivery(&mut record, None);
    apply_delivery_result(
        &mut record,
        DeliveryResult::Success {
            notification_id: id,
            platform: Platform::Linux,
            receipt: PlatformDeliveryReceipt::new(Platform::Linux, "31".to_string()),
            correlation_id: correlation,
        },
    );
    assert!(matches!(
        record.lifecycle.state,
        native_notify::lifecycle::NotificationState::Delivered
    ));
    assert!(matches!(
        record.lifecycle.state_history.last().unwrap().reason,
        TransitionReason::DeliveryCompleted
    ));
}

#[test]
fn shutdown_counts_and_cancel_plan() {
    let mut records = Vec::new();
    for _ in 0..3 {
        let (id, mut record) = sample_record(vec![Platform::Linux]);
        begin_delivery(&mut record, None);
        records.push((id, record));
    }
    let (queued_id, queued_record) = sample_record(vec![Platform::Linux]);
    records.push((queued_id, queued_record));

    let counts = tally_states(&records);
    assert_eq!(counts.delivering, 3);
    assert_eq!(counts.queued, 1);
    assert_eq!(
        counts.queued + counts.delivering + counts.delivered + counts.failed + counts.other,
        4
    );

    // One cancellation per delivering record per target platform.
    let plan = cancel_plan(&records);
    assert_eq!(plan.len(), 3);

    assert_eq!(classify_join_outcome(true, 0), ShutdownResult::Clean);
    assert_eq!(
        classify_join_outcome(true, 2),
        ShutdownResult::WorkersPanicked(2)
    );
    assert_eq!(classify_join_outcome(false, 0), ShutdownResult::TimedOut);
}

#[test]
fn input_validation_checks_pattern_and_lengths() {
    let rules = InputValidation {
        required: true,
        pattern: Some("^a+$".to_string()),
        min_length: Some(2),
        max_length: Some(4),
        error_message: None,
    };
    assert!(rules.validate("aaa").is_ok());
    assert!(rules.validate("   ").is_err());
    assert!(rules.validate("a").is_err());
    assert!(rules.validate("aaaaa").is_err());
    assert!(rules.validate("bbb").is_err());
}

#[test]
fn error_messages_name_the_failure() {
    let e = NotificationError::TimeoutError {
        operation: "deliver".to_string(),
        timeout_millis: 30_000,
    };
    assert_eq!(e.message(), "Timeout error in deliver after 30000ms");

    let v = NotificationError::ValidationError {
        field: "title".to_string(),
        message: "Title cannot be empty".to_string(),
    };
    assert_eq!(v.message(), "Validation error in title: Title cannot be empty");
}

#[test]
fn update_args_reuse_the_native_id() {
    let update = NotificationUpdate {
        content_changes: vec![
            ("title".to_string(), "New title".to_string()),
            ("body".to_string(), "New body".to_string()),
        ],
        media_changes: vec![],
        action_changes: vec![],
        options: None,
    };
    let args = build_update_args("31", &update).unwrap();
    assert_eq!(args.replaces_id, 31);
    assert_eq!(args.summary, "New title");
    assert_eq!(args.body, "New body");
    assert!(build_update_args("not-a-number", &update).is_err());
    assert!(parse_native_id("4294967296").is_err());
    assert_eq!(parse_native_id("4294967295").unwrap(), u32::MAX);

    let toast = windows_update_toast(&update);
    assert!(toast.contains("<text hint-style=\"title\">New title</text>"));
    assert!(macos_update_readds(&update));
    let empty = NotificationUpdate {
        content_changes: vec![],
        media_changes: vec![],
        action_changes: vec![],
        options: None,
    };
    assert!(!macos_update_readds(&empty));
}

#[test]
fn authorization_manager_caches_grants() {
    let mut manager = DefaultAuthorizationManager::new();
    assert!(manager.get_authorization_state(Platform::Linux).is_none());

    let denied = manager.apply_authorization_check(Platform::Linux, Some(false), vec![]);
    assert!(matches!(
        denied,
        AuthorizationState::Denied { can_retry: true, .. }
    ));

    let granted = manager.apply_authorization_check(
        Platform::Linux,
        Some(true),
        vec![PermissionLevel::Display],
    );
    assert!(granted.is_authorized());

    // A granted permission is never re-requested: a later refusal does not
    // overwrite the cached authorization.
    let kept = manager.apply_authorization_check(Platform::Linux, Some(false), vec![]);
    assert!(kept.is_authorized());

    let pending = manager.apply_authorization_check(Platform::Web, None, vec![]);
    assert!(matches!(pending, AuthorizationState::Pending));

    manager.revoke_authorization(Platform::Linux);
    let after = manager.get_authorization_state(Platform::Linux).unwrap();
    assert!(!after.is_authorized());
    assert!(after.can_request());
}

#[test]
fn uuid_text_roundtrip() {
    let id = NotificationId::from_uuid(0x0123_4567_89ab_cdef_0123_4567_89ab_cdef);
    let text = id.to_text();
    assert_eq!(text.len(), 36);
    assert_eq!(NotificationId::parse(&text), Some(id));
    assert_eq!(NotificationId::parse("not-a-uuid"), None);
}

#[test]
fn retry_is_due_with_half_open_breaker() {
    let mut lifecycle = NotificationLifecycle::new();
    let _ = lifecycle.transition_to(
        native_notify::lifecycle::NotificationState::Validating,
        TransitionReason::Initial,
        None,
    );
    let _ = lifecycle.transition_to(
        native_notify::lifecycle::NotificationState::Failed(LifecycleErrorDetails {
            error_type: LifecycleErrorType::NetworkError,
            message: "down".to_string(),
            retry_count: 0,
            last_attempt: None,
            platform_errors: Vec::new(),
        }),
        TransitionReason::ValidationFailed,
        None,
    );
    lifecycle.retry_policy.circuit_breaker_state = CircuitBreakerState::HalfOpen;
    assert!(lifecycle.should_retry());
    lifecycle.retry_policy.circuit_breaker_state = CircuitBreakerState::Open;
    assert!(!lifecycle.should_retry());
}

#[test]
fn collect_marks_authorized_platforms() {
    let (id, mut record) = sample_record(vec![Platform::Linux, Platform::Windows]);
    record.platform_integration.update_authorization(
        Platform::Linux,
        AuthorizationState::Authorized {
            granted_at: 1,
            permissions: vec![PermissionLevel::Display],
        },
    );
    let jobs = collect_jobs_for(id, &record);
    assert_eq!(jobs.len(), 2);
    let linux_job = jobs.iter().find(|j| j.platform == Platform::Linux).unwrap();
    assert!(linux_job.is_authorized);
    assert!(linux_job.request.is_some());
    let windows_job = jobs.iter().find(|j| j.platform == Platform::Windows).unwrap();
    assert!(!windows_job.is_authorized);
    assert!(windows_job.request.is_none());
}

#[test]
fn windows_presentation_composes_content_and_media() {
    let content = native_notify::NotificationContent::new(
        "Title",
        RichText::plain("First line. Rest."),
    );
    let resolved = vec![
        (ImagePlacement::Inline, "/tmp/inline.png".to_string()),
        (ImagePlacement::Hero, "/tmp/hero.png".to_string()),
        (ImagePlacement::AppIcon, "/tmp/logo.png".to_string()),
    ];
    let shown = windows_presentation(&content, &resolved);
    assert_eq!(shown.title, "Title");
    assert_eq!(shown.subtitle, Some("First line.".to_string()));
    assert_eq!(shown.body, "First line. Rest.");
    assert_eq!(shown.hero_path, Some("/tmp/hero.png".to_string()));
    assert_eq!(shown.logo_path, Some("/tmp/logo.png".to_string()));
}

#[test]
fn cache_clear_returns_every_cached_path() {
    let mut cache = ImageCache::new();
    cache.insert("http://example.com/a.png", "/tmp/a.png".to_string(), 1);
    cache.insert("http://example.com/b.png", "/tmp/b.png".to_string(), 2);
    let paths = cache.clear_all();
    assert_eq!(paths, vec!["/tmp/a.png".to_string(), "/tmp/b.png".to_string()]);
    assert_eq!(cache.entries.len(), 0);
}

#[test]
fn evicted_paths_are_file_paths() {
    let mut cache = ImageCache::new();
    cache.insert("http://example.com/a.png", "/tmp/file-a.png".to_string(), 0);
    let removed = cache.evict_stale(3_600_000);
    assert_eq!(removed, vec!["/tmp/file-a.png".to_string()]);
}
