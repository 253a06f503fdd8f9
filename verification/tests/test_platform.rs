use native_notify::{
    ActionFallback, AuthorizationState, DegradationStrategy, Feature, FeatureDegradation,
    FeatureMatrix, PermissionLevel, Platform,
};

#[test]
fn test_platform_capabilities() {
    let macos_caps = Platform::MacOS.default_capabilities();
    assert!(macos_caps.supports_actions);
    assert!(macos_caps.supports_rich_media);
    assert!(!macos_caps.supports_markup);

    let windows_caps = Platform::Windows.default_capabilities();
    assert!(windows_caps.supports_actions);
    assert!(windows_caps.supports_markup);
    assert!(windows_caps.supports_progress);
}

#[test]
fn test_feature_matrix() {
    let mut capabilities = Vec::new();
    capabilities.push((Platform::MacOS, Platform::MacOS.default_capabilities()));
    capabilities.push((Platform::Windows, Platform::Windows.default_capabilities()));

    let matrix = FeatureMatrix::from_capabilities(&capabilities);

    assert!(matrix.is_supported("actions"));
    assert!(matrix.is_supported("rich_media"));

    // Both platforms support actions, so it should be universal
    assert!(matrix.universal_features.contains(&Feature::Actions));
}

#[test]
fn test_authorization_state() {
    let auth = AuthorizationState::Authorized {
        granted_at: 0,
        permissions: vec![PermissionLevel::Display, PermissionLevel::Sound],
    };

    assert!(auth.is_authorized());
    assert!(!auth.can_request());

    let denied = AuthorizationState::Denied {
        denied_at: 0,
        can_retry: true,
    };

    assert!(!denied.is_authorized());
    assert!(denied.can_request());
}

#[test]
fn test_degradation_strategy() {
    let mut feature_matrix = FeatureMatrix::default();
    feature_matrix.universal_features.push(Feature::Actions);

    let strategy = DegradationStrategy::calculate_optimal_strategy(&feature_matrix);
    assert_eq!(strategy.action_fallback, ActionFallback::SimplifyActions);

    let requested_features = vec!["unsupported_feature".to_string()];
    let degradations = strategy.apply_degradations(&requested_features, &feature_matrix);

    assert_eq!(degradations.len(), 1);
    match &degradations[0] {
        FeatureDegradation::FeatureRemoved(feature) => {
            assert_eq!(feature, "unsupported_feature");
        }
        _ => panic!("Expected FeatureRemoved degradation"),
    }
}
