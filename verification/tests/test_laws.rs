use native_notify::{
    html_escape, pango_escape, sanitize_string, xml_escape, AuthorizationState, Feature,
    FeatureMatrix, Platform, Priority, RichText,
};

#[test]
fn xml_escape_escapes_all_five() {
    assert_eq!(xml_escape("a&b<c>d\"e'f"), "a&amp;b&lt;c&gt;d&quot;e&apos;f");
    assert_eq!(xml_escape("plain"), "plain");
}

#[test]
fn html_escape_uses_numeric_apostrophe() {
    assert_eq!(html_escape("it's <b>"), "it&#x27;s &lt;b&gt;");
}

#[test]
fn pango_escape_escapes_three() {
    assert_eq!(pango_escape("a&b<c>d\"e"), "a&amp;b&lt;c&gt;d\"e");
}

#[test]
fn sanitize_string_removes_brackets_and_quotes() {
    assert_eq!(sanitize_string("a<b>c\"d'e"), "abcde");
}

#[test]
fn entity_decoding_decodes_amp_last() {
    // &amp;lt; must yield the literal text &lt;, not <
    assert_eq!(native_notify::text::decode_html_entities("&amp;lt;"), "&lt;");
    assert_eq!(native_notify::text::decode_html_entities("&lt;"), "<");
}

#[test]
fn priority_dnd_iff_critical_or_urgent() {
    for p in [
        Priority::Low,
        Priority::Normal,
        Priority::High,
        Priority::Critical,
        Priority::Urgent,
    ] {
        let bypasses = p.bypasses_dnd();
        let is_top = matches!(p, Priority::Critical | Priority::Urgent);
        assert_eq!(bypasses, is_top);
    }
}

#[test]
fn priority_timeouts_grow_and_vanish() {
    assert_eq!(Priority::Low.default_timeout(), Some(3000));
    assert_eq!(Priority::Normal.default_timeout(), Some(5000));
    assert_eq!(Priority::High.default_timeout(), Some(10000));
    assert_eq!(Priority::Critical.default_timeout(), None);
    assert_eq!(Priority::Urgent.default_timeout(), None);
    assert!(Priority::High.default_timeout().unwrap() > Priority::Low.default_timeout().unwrap());
}

#[test]
fn feature_matrix_supported_iff_some_platform_supports() {
    let caps = vec![
        (Platform::MacOS, Platform::MacOS.default_capabilities()),
        (Platform::Windows, Platform::Windows.default_capabilities()),
    ];
    let matrix = FeatureMatrix::from_capabilities(&caps);
    // Windows alone supports markup among the two.
    assert!(matrix.is_supported("markup"));
    // Neither platform supports vibration.
    assert!(!matrix.is_supported("vibration"));
    // Scheduling is supported by macOS alone: partial, not universal.
    assert!(matrix.is_supported("scheduling"));
    assert!(!matrix.universal_features.contains(&Feature::Scheduling));
    // Unknown feature names are never supported.
    assert!(!matrix.is_supported("made_up_feature"));
}

#[test]
fn plain_projection_of_plain_is_identity() {
    let text = "line one\nline two with  spaces";
    assert_eq!(RichText::plain(text).to_plain_text(), text);
}

#[test]
fn markdown_structured_plain_keeps_lists_and_code() {
    let md = "- first\n- second";
    let structured = RichText::markdown(md).to_structured_plain_text();
    assert!(structured.contains("\u{2022} first"));
    assert!(structured.contains("\u{2022} second"));

    let code = RichText::markdown("para\n\n    let x = 1;\n").to_structured_plain_text();
    assert!(code.contains("  let x = 1;"));
}

#[test]
fn markdown_pango_marks_up_inline_styles() {
    let pango = RichText::markdown("**bold** and *soft*").to_pango_markup();
    assert_eq!(pango, "<b>bold</b> and <i>soft</i>");
}

#[test]
fn markdown_html_renders_and_sanitizes() {
    let html = RichText::markdown("**bold**").to_html();
    assert!(html.contains("<strong>bold</strong>"));

    // Raw HTML in markdown is dropped before rendering.
    let cleaned = RichText::markdown("<script>alert(1)</script>plain").to_html();
    assert!(!cleaned.contains("script"));
}

#[test]
fn html_body_is_sanitized_by_validate() {
    let mut content = native_notify::NotificationContent::new(
        "T",
        RichText::html("<script>alert(1)</script><b>keep</b>"),
    );
    let limits = native_notify::PlatformLimits::default();
    assert!(content.validate(&limits).is_ok());
    match &content.body {
        RichText::Html(h) => {
            assert!(!h.contains("script"));
            assert!(h.contains("<b>keep</b>"));
        }
        _ => panic!("body should stay HTML"),
    }
}

#[test]
fn extract_subtitle_takes_first_sentence() {
    let body = RichText::plain("Hello there. The rest is long.");
    assert_eq!(body.extract_subtitle(), Some("Hello there.".to_string()));

    let empty = RichText::plain("");
    assert_eq!(empty.extract_subtitle(), None);

    let long = RichText::plain(&"x".repeat(150));
    let subtitle = long.extract_subtitle().unwrap();
    assert_eq!(subtitle.len(), 100);
    assert!(subtitle.ends_with("..."));
}

#[test]
fn authorization_states_answer_consistently() {
    let authorized = AuthorizationState::Authorized {
        granted_at: 7,
        permissions: vec![],
    };
    assert!(authorized.is_authorized());
    assert!(!authorized.can_request());

    let provisional = AuthorizationState::Provisional {
        granted_at: 7,
        expires_at: None,
    };
    assert!(provisional.is_authorized());
    assert!(!provisional.can_request());

    let revoked = AuthorizationState::Revoked {
        revoked_at: 7,
        reason: "policy".to_string(),
    };
    assert!(!revoked.is_authorized());
    assert!(revoked.can_request());

    assert!(AuthorizationState::NotRequested.can_request());
    assert!(!AuthorizationState::Pending.can_request());
}

#[test]
fn html_pango_maps_tags_and_links() {
    let pango = RichText::html("<strong>B</strong> <em>I</em> <span>plain</span>").to_pango_markup();
    assert_eq!(pango, "<b>B</b> <i>I</i> plain");

    let link = RichText::html("<a class=\"x\" href=\"https://example.com\">here</a>").to_pango_markup();
    assert_eq!(link, "<a href=\"https://example.com\">here</a>");

    let blocks = RichText::html("<p>one</p><p>two</p>").to_pango_markup();
    assert_eq!(blocks, "one\n\ntwo");

    let code = RichText::html("<code>x&amp;y</code>").to_pango_markup();
    assert_eq!(code, "<tt>x&y</tt>");
}

#[test]
fn html_structured_plain_keeps_structure() {
    let bullets = RichText::html("<ul><li>a</li><li>b</li></ul>").to_structured_plain_text();
    assert_eq!(bullets, "\u{2022} a\n\u{2022} b");

    let link = RichText::html("see <a href=\"https://example.com\">docs</a> now")
        .to_structured_plain_text();
    assert_eq!(link, "see docs (https://example.com) now");

    let code = RichText::html("<pre>let x = 1;\nlet y = 2;</pre>").to_structured_plain_text();
    assert_eq!(code, "let x = 1;\n  let y = 2;");
}

#[test]
fn feature_matrix_empty_capabilities_support_nothing() {
    let caps: Vec<(Platform, native_notify::PlatformCapabilities)> = Vec::new();
    let matrix = FeatureMatrix::from_capabilities(&caps);
    assert!(matrix.universal_features.is_empty());
    assert!(matrix.partial_support.is_empty());
    assert!(!matrix.is_supported("markup"));
    assert!(!matrix.is_supported("actions"));
    assert!(!matrix.is_supported("rich_media"));
}
