use native_notify::lifecycle::NotificationState;
use native_notify::{
    FeatureMatrix, NotificationBuildError, NotificationBuilder, NotificationLifecycle, Platform,
    Priority, RichText, TransitionReason,
};

#[test]
fn test_enterprise_notification_system_integration() {
    let notification = NotificationBuilder::new()
        .with_title("Test Notification")
        .with_body(RichText::plain(
            "This is a test notification from the ECS system",
        ))
        .with_priority(Priority::High)
        .with_platforms(vec![Platform::MacOS, Platform::Windows, Platform::Linux])
        .build()
        .expect("Valid notification should build successfully");

    assert_eq!(notification.content.title, "Test Notification");
    assert_eq!(notification.content.priority, Priority::High);
    assert_eq!(notification.platform_integration.target_platforms.len(), 3);
    assert!(
        notification
            .platform_integration
            .target_platforms
            .contains(&Platform::MacOS)
    );
    assert!(
        notification
            .platform_integration
            .target_platforms
            .contains(&Platform::Windows)
    );
    assert!(
        notification
            .platform_integration
            .target_platforms
            .contains(&Platform::Linux)
    );

    assert_eq!(notification.lifecycle.state, NotificationState::Created);

    let macos_caps = Platform::MacOS.default_capabilities();
    assert!(macos_caps.supports_actions);
    assert!(macos_caps.supports_rich_media);
    assert!(macos_caps.authorization_required);

    let windows_caps = Platform::Windows.default_capabilities();
    assert!(windows_caps.supports_markup);
    assert!(windows_caps.supports_progress);
}

#[test]
fn test_notification_lifecycle_state_machine() {
    let mut lifecycle = NotificationLifecycle::new();

    assert_eq!(lifecycle.state, NotificationState::Created);

    let result = lifecycle.transition_to(
        NotificationState::Validating,
        TransitionReason::Initial,
        None,
    );
    assert!(result.is_ok());
    assert_eq!(lifecycle.state, NotificationState::Validating);

    let invalid_result = lifecycle.transition_to(
        NotificationState::Completed,
        TransitionReason::SystemEvent,
        None,
    );
    assert!(invalid_result.is_err());

    assert_eq!(lifecycle.state_history.len(), 2);
}

#[test]
fn test_platform_feature_matrix() {
    let mut capabilities = Vec::new();
    capabilities.push((Platform::MacOS, Platform::MacOS.default_capabilities()));
    capabilities.push((Platform::Windows, Platform::Windows.default_capabilities()));
    capabilities.push((Platform::Linux, Platform::Linux.default_capabilities()));

    let feature_matrix = FeatureMatrix::from_capabilities(&capabilities);

    assert!(feature_matrix.is_supported("actions"));
    assert!(feature_matrix.is_supported("rich_media"));

    assert!(
        feature_matrix
            .best_platform_for_feature("actions")
            .is_some()
    );
}

#[test]
fn test_builder_validation_missing_content() {
    let result = NotificationBuilder::new().build();
    assert!(result.is_err());
    assert!(matches!(
        result.unwrap_err(),
        NotificationBuildError::MissingContent
    ));
}

#[test]
fn test_builder_validation_empty_title() {
    let result = NotificationBuilder::new()
        .with_title("")
        .with_body(RichText::plain("Body"))
        .build();

    assert!(result.is_err());
    assert!(matches!(
        result.unwrap_err(),
        NotificationBuildError::MissingTitle
    ));
}

#[test]
fn test_builder_validation_valid_content() {
    let result = NotificationBuilder::new()
        .with_title("Test")
        .with_body(RichText::plain("Body"))
        .build();

    assert!(result.is_ok());
    let notification = result.unwrap();
    assert_eq!(notification.content.title, "Test");
}

#[test]
fn test_builder_validation_title_too_long() {
    let long_title = "x".repeat(500);
    let result = NotificationBuilder::new()
        .with_title(&long_title)
        .with_body(RichText::plain("Body"))
        .with_platforms(vec![Platform::Windows])
        .build();

    assert!(result.is_err());
    match result.unwrap_err() {
        NotificationBuildError::TitleTooLong {
            platform,
            length,
            max,
        } => {
            assert_eq!(platform, "Windows");
            assert_eq!(length, 500);
            assert_eq!(max, 128);
        }
        _ => panic!("Expected TitleTooLong error"),
    }
}

#[test]
fn test_builder_validation_no_platforms() {
    let result = NotificationBuilder::new()
        .with_title("Test")
        .with_body(RichText::plain("Body"))
        .with_platforms(vec![])
        .build();

    assert!(result.is_err());
    assert!(matches!(
        result.unwrap_err(),
        NotificationBuildError::NoPlatforms
    ));
}

#[test]
fn test_builder_validation_platform_limits() {
    let title_256 = "x".repeat(256);

    let result = NotificationBuilder::new()
        .with_title(&title_256)
        .with_body(RichText::plain("Body"))
        .with_platforms(vec![Platform::MacOS])
        .build();
    assert!(result.is_ok());

    let result = NotificationBuilder::new()
        .with_title(&title_256)
        .with_body(RichText::plain("Body"))
        .with_platforms(vec![Platform::Windows])
        .build();
    assert!(result.is_err());
}
