//! The fluent notification builder: collects content and targets and
//! validates them against each target platform's limits before anything
//! enters the system.

use vstd::prelude::*;

use crate::content::{
    content_checks, MediaAttachment, NotificationContent, PlatformLimits, RichText,
};
use crate::errors::NotificationBuildError;
use crate::identity::{CreatorContext, NotificationIdentity, SessionId};
use crate::lifecycle::NotificationLifecycle;
use crate::platform::{spec_default_limits, Platform, PlatformIntegration};
use crate::priority::Priority;
use crate::store::Notification;

verus! {

/// The default target platforms when none are chosen: the three desktops.
pub open spec fn spec_default_platforms() -> Seq<Platform> {
    seq![Platform::MacOS, Platform::Windows, Platform::Linux]
}

/// Whether a title fits a limit record.
pub open spec fn title_fits(content: NotificationContent, l: PlatformLimits) -> bool {
    match l.max_title_length {
        Some(max) => content.title@.len() <= max,
        None => true,
    }
}

/// The index of the first platform whose built-in limits the content
/// breaks; the list's length when none does.
pub open spec fn first_failing_platform(
    content: NotificationContent,
    platforms: Seq<Platform>,
) -> int
    decreases platforms.len(),
{
    if platforms.len() == 0 {
        0
    } else if !content_checks(content, spec_default_limits(platforms[0])) {
        0
    } else {
        1 + first_failing_platform(content, platforms.drop_first())
    }
}

proof fn lemma_first_failing_is(
    content: NotificationContent,
    platforms: Seq<Platform>,
    m: int,
)
    requires
        0 <= m < platforms.len(),
        !content_checks(content, spec_default_limits(platforms[m])),
        forall|k: int|
            0 <= k < m ==> content_checks(content, spec_default_limits(#[trigger] platforms[k])),
    ensures
        first_failing_platform(content, platforms) == m,
    decreases platforms.len(),
{
    if content_checks(content, spec_default_limits(platforms[0])) {
        assert(m > 0);
        assert(forall|k: int|
            0 <= k < m - 1 ==> content_checks(
                content,
                spec_default_limits(#[trigger] platforms.drop_first()[k]),
            ));
        assert(platforms.drop_first()[m - 1] == platforms[m]);
        lemma_first_failing_is(content, platforms.drop_first(), m - 1);
    }
}

/// The parts of fresh builder content that no setter has touched yet:
/// no media, no interactions, no custom data, no category, and the
/// default priority.
pub open spec fn spec_untouched_extras(c: NotificationContent) -> bool {
    &&& c.media@.len() == 0
    &&& c.interactions.actions@.len() == 0
    &&& c.interactions.inputs@.len() == 0
    &&& c.custom_data@.len() == 0
    &&& c.category is None
    &&& c.priority is Normal
}

/// Whether content passes every chosen platform's built-in limits.
pub open spec fn build_valid(content: NotificationContent, platforms: Seq<Platform>) -> bool {
    &&& content.title@.len() > 0
    &&& platforms.len() > 0
    &&& (forall|k: int|
        0 <= k < platforms.len() ==> content_checks(
            content,
            spec_default_limits(#[trigger] platforms[k]),
        ))
}

/// Which error `build` returns when the content breaks a platform's
/// limits: the first failing platform decides, and within it the title
/// limit is checked first — an over-long title yields `TitleTooLong` with
/// that platform's name and the two lengths, anything else the wrapped
/// validation error.
pub open spec fn spec_build_error_shape(
    r: Result<crate::store::Notification, NotificationBuildError>,
    content: NotificationContent,
    platforms: Seq<Platform>,
) -> bool {
    (content.title@.len() > 0 && platforms.len() > 0 && !build_valid(content, platforms)) ==> {
        let k = first_failing_platform(content, platforms);
        if !title_fits(content, spec_default_limits(platforms[k])) {
            r matches Err(NotificationBuildError::TitleTooLong { platform, length, max })
                && length == content.title@.len() && Some(max) == spec_default_limits(
                platforms[k],
            ).max_title_length && platform@ == crate::platform::spec_platform_name(
                platforms[k],
            )
        } else {
            r matches Err(NotificationBuildError::ValidationError(_))
        }
    }
}

/// Builds notifications with a fluent interface, validating on `build`.
#[derive(Debug)]
pub struct NotificationBuilder {
    pub identity: Option<NotificationIdentity>,
    pub content: Option<NotificationContent>,
    pub platforms: Option<Vec<Platform>>,
}

impl NotificationBuilder {
    /// An empty builder.
    pub fn new() -> (r: NotificationBuilder)
        ensures
            r.identity is None,
            r.content is None,
            r.platforms is None,
    {
        NotificationBuilder { identity: None, content: None, platforms: None }
    }

    /// Set the title, creating content with an empty plain body when none
    /// exists yet.
    pub fn with_title(self, title: &str) -> (r: NotificationBuilder)
        ensures
            r.content matches Some(c) && c.title@ == title@,
            (match (self.content, r.content) {
                (Some(before), Some(after)) => after.body == before.body && after.subtitle
                    == before.subtitle && after.priority == before.priority && after.media
                    == before.media && after.interactions == before.interactions
                    && after.custom_data == before.custom_data && after.category
                    == before.category,
                (None, Some(after)) => spec_untouched_extras(after) && after.subtitle is None
                    && (after.body matches RichText::Plain(b) && b@.len() == 0),
                _ => true,
            }),
            r.platforms == self.platforms,
    {
        match self.content {
            Some(content) => {
                let updated: NotificationContent = NotificationContent {
                    title: title.to_owned(),
                    ..content
                };
                NotificationBuilder { content: Some(updated), ..self }
            },
            None => {
                NotificationBuilder {
                    content: Some(NotificationContent::new(title, RichText::Plain(String::new()))),
                    ..self
                }
            },
        }
    }

    /// Set the body, creating content with an empty title when none exists
    /// yet.
    pub fn with_body(self, body: RichText) -> (r: NotificationBuilder)
        ensures
            r.content matches Some(c) && c.body == body,
            (match (self.content, r.content) {
                (Some(before), Some(after)) => after.title == before.title && after.subtitle
                    == before.subtitle && after.priority == before.priority && after.media
                    == before.media && after.interactions == before.interactions
                    && after.custom_data == before.custom_data && after.category
                    == before.category,
                (None, Some(after)) => after.title@.len() == 0 && spec_untouched_extras(after)
                    && after.subtitle is None,
                _ => true,
            }),
            r.platforms == self.platforms,
    {
        match self.content {
            Some(content) => {
                let updated: NotificationContent = NotificationContent { body, ..content };
                NotificationBuilder { content: Some(updated), ..self }
            },
            None => {
                proof {
                    reveal_strlit("");
                }
                NotificationBuilder {
                    content: Some(NotificationContent::new("", body)),
                    ..self
                }
            },
        }
    }

    /// Set the priority; without content yet, this is a no-op.
    pub fn with_priority(self, priority: Priority) -> (r: NotificationBuilder)
        ensures
            (match (self.content, r.content) {
                (Some(before), Some(after)) => after.priority == priority && after.title
                    == before.title && after.body == before.body,
                (None, None) => true,
                _ => false,
            }),
            r.platforms == self.platforms,
    {
        match self.content {
            Some(content) => {
                let updated: NotificationContent = NotificationContent { priority, ..content };
                NotificationBuilder { content: Some(updated), ..self }
            },
            None => NotificationBuilder { content: None, ..self },
        }
    }

    /// Choose the target platforms.
    pub fn with_platforms(self, platforms: Vec<Platform>) -> (r: NotificationBuilder)
        ensures
            r.platforms == Some(platforms),
            r.content == self.content,
    {
        NotificationBuilder { platforms: Some(platforms), ..self }
    }

    /// Set the subtitle, creating content with an empty title and body when
    /// none exists yet.
    pub fn with_subtitle(self, subtitle: &str) -> (r: NotificationBuilder)
        ensures
            r.content matches Some(c) && (c.subtitle matches Some(st) && st@ == subtitle@),
            (match (self.content, r.content) {
                (Some(before), Some(after)) => after.title == before.title && after.body
                    == before.body && after.priority == before.priority && after.media
                    == before.media && after.interactions == before.interactions
                    && after.custom_data == before.custom_data && after.category
                    == before.category,
                (None, Some(after)) => after.title@.len() == 0 && spec_untouched_extras(after)
                    && (after.body matches RichText::Plain(b) && b@.len() == 0),
                _ => true,
            }),
            r.platforms == self.platforms,
    {
        match self.content {
            Some(content) => {
                let updated: NotificationContent = NotificationContent {
                    subtitle: Some(subtitle.to_owned()),
                    ..content
                };
                NotificationBuilder { content: Some(updated), ..self }
            },
            None => {
                proof {
                    reveal_strlit("");
                }
                let mut content: NotificationContent = NotificationContent::new(
                    "",
                    RichText::Plain(String::new()),
                );
                content.subtitle = Some(subtitle.to_owned());
                NotificationBuilder { content: Some(content), ..self }
            },
        }
    }

    /// Append a media attachment, creating content with an empty title and
    /// body when none exists yet.
    pub fn with_media(self, media: MediaAttachment) -> (r: NotificationBuilder)
        ensures
            r.content matches Some(c) && c.media@.len() > 0 && c.media@.last() == media,
            (match (self.content, r.content) {
                (Some(before), Some(after)) => after.title == before.title && after.body
                    == before.body && after.subtitle == before.subtitle && after.priority
                    == before.priority && after.interactions == before.interactions
                    && after.custom_data == before.custom_data && after.category
                    == before.category && after.media@ == before.media@.push(media),
                (None, Some(after)) => after.title@.len() == 0 && (
                after.body matches RichText::Plain(b) && b@.len() == 0) && after.subtitle is None
                    && after.media@.len() == 1 && after.interactions.actions@.len() == 0
                    && after.interactions.inputs@.len() == 0 && after.custom_data@.len() == 0
                    && after.category is None && after.priority is Normal,
                _ => true,
            }),
            r.platforms == self.platforms,
    {
        match self.content {
            Some(content) => {
                let mut updated: NotificationContent = content;
                updated.media.push(media);
                NotificationBuilder { content: Some(updated), ..self }
            },
            None => {
                proof {
                    reveal_strlit("");
                }
                let mut content: NotificationContent = NotificationContent::new(
                    "",
                    RichText::Plain(String::new()),
                );
                content.media.push(media);
                NotificationBuilder { content: Some(content), ..self }
            },
        }
    }

    /// Build the notification: requires content with a non-empty title, at
    /// least one target platform (the three desktops when none were
    /// chosen), and content within every chosen platform's built-in limits.
    /// The resulting notification carries validated content, a fresh
    /// lifecycle and the chosen targets; the errors say exactly which rule
    /// broke first.
    pub fn build(self) -> (r: Result<Notification, NotificationBuildError>)
        ensures
            (match (self.content, self.platforms) {
                (Some(content), Some(platforms)) => (r is Ok <==> build_valid(
                    content,
                    platforms@,
                )),
                (Some(content), None) => (r is Ok <==> build_valid(
                    content,
                    spec_default_platforms(),
                )),
                (None, _) => r matches Err(NotificationBuildError::MissingContent),
            }),
            // The error names the first rule broken: an empty title, an
            // empty platform choice, the first platform whose title limit
            // the title exceeds (with its name and the two lengths), or
            // the first other content rule.
            (self.content matches Some(content) && content.title@.len() == 0) ==> (
            r matches Err(NotificationBuildError::MissingTitle)),
            ((self.content matches Some(content) && content.title@.len() > 0) && (
            self.platforms matches Some(chosen) && chosen@.len() == 0)) ==> (r matches Err(
                NotificationBuildError::NoPlatforms,
            )),
            (match (self.content, self.platforms) {
                (Some(content), Some(chosen)) => spec_build_error_shape(r, content, chosen@),
                (Some(content), None) => spec_build_error_shape(
                    r,
                    content,
                    spec_default_platforms(),
                ),
                (None, _) => true,
            }),
            // The built notification carries the builder's content whole.
            r matches Ok(n) ==> Some(n.content) == self.content,
            r matches Ok(n) ==> {
                &&& n.content.title@.len() > 0
                &&& n.platform_integration.target_platforms@.len() > 0
                &&& n.platform_integration.wf()
                &&& n.lifecycle.state is Created
                &&& n.lifecycle.wf()
                &&& (match self.platforms {
                    Some(platforms) => n.platform_integration.target_platforms == platforms,
                    None => n.platform_integration.target_platforms@
                        == spec_default_platforms(),
                })
                &&& (forall|k: int|
                    0 <= k < n.platform_integration.target_platforms@.len() ==> title_fits(
                        n.content,
                        spec_default_limits(
                            #[trigger] n.platform_integration.target_platforms@[k],
                        ),
                    ))
            },
    {
        let content: NotificationContent = match self.content {
            Some(content) => content,
            None => {
                return Err(NotificationBuildError::MissingContent);
            },
        };
        if content.title.as_str().unicode_len() == 0 {
            return Err(NotificationBuildError::MissingTitle);
        }
        let platforms: Vec<Platform> = match self.platforms {
            Some(platforms) => platforms,
            None => {
                let mut defaults: Vec<Platform> = Vec::new();
                defaults.push(Platform::MacOS);
                defaults.push(Platform::Windows);
                defaults.push(Platform::Linux);
                proof {
                    assert(defaults@ =~= spec_default_platforms());
                }
                defaults
            },
        };
        if platforms.len() == 0 {
            return Err(NotificationBuildError::NoPlatforms);
        }
        let n: usize = platforms.len();
        let mut i: usize = 0;
        let ghost content0 = content;
        while i < n
            invariant
                n == platforms@.len(),
                n > 0,
                i <= n,
                content == content0,
                self.content == Some(content0),
                (match self.platforms {
                    Some(chosen) => platforms@ == chosen@,
                    None => platforms@ == spec_default_platforms(),
                }),
                content0.title@.len() > 0,
                forall|k: int|
                    0 <= k < i ==> content_checks(
                        content0,
                        spec_default_limits(#[trigger] platforms@[k]),
                    ),
            decreases n - i,
        {
            let platform: Platform = platforms[i];
            let limits: PlatformLimits = platform.default_capabilities().get_limits();
            // Report an over-long title as its own error, with the platform
            // name and the two lengths.
            match limits.max_title_length {
                Some(max_title) => {
                    let title_len: usize = content.title.as_str().unicode_len();
                    if title_len > max_title {
                        proof {
                            lemma_first_failing_is(content0, platforms@, i as int);
                        }
                        return Err(
                            NotificationBuildError::TitleTooLong {
                                platform: platform.name().to_owned(),
                                length: title_len,
                                max: max_title,
                            },
                        );
                    }
                },
                None => {},
            }
            let outcome = content.check(&limits);
            match outcome {
                Ok(()) => {},
                Err(e) => {
                    proof {
                        lemma_first_failing_is(content0, platforms@, i as int);
                    }
                    return Err(NotificationBuildError::ValidationError(e));
                },
            }
            proof {
                assert(content_checks(content0, spec_default_limits(platform)));
            }
            i = i + 1;
        }
        proof {
            assert(build_valid(content0, platforms@));
        }
        let identity: NotificationIdentity = match self.identity {
            Some(identity) => identity,
            None => NotificationIdentity::new(
                SessionId::generate(),
                CreatorContext::new("native-notify"),
            ),
        };
        Ok(
            Notification {
                identity,
                content,
                platform_integration: PlatformIntegration::new(platforms),
                lifecycle: NotificationLifecycle::new(),
            },
        )
    }
}

impl Default for NotificationBuilder {
    /// An empty builder.
    fn default() -> (r: NotificationBuilder)
        ensures
            r.content is None,
            r.platforms is None,
    {
        NotificationBuilder::new()
    }
}


} // verus!
