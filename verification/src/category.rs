//! Notification categories: named templates with predefined actions.

use vstd::prelude::*;

use crate::content::ActionIcon;

verus! {

/// Behavior options of a category action.
#[derive(Debug, Clone, Default, Hash, PartialEq, Eq)]
pub struct ActionOptions {
    pub authentication_required: bool,
    pub destructive: bool,
    pub foreground: bool,
}

/// Behavior options of a category.
#[derive(Debug, Clone, Hash, PartialEq, Eq)]
pub struct CategoryOptions {
    pub custom_dismiss_action: bool,
    pub allow_in_car_play: bool,
    pub hidden_preview_show_title: bool,
    pub hidden_preview_show_subtitle: bool,
}

impl Default for CategoryOptions {
    /// All options off.
    fn default() -> (r: CategoryOptions)
        ensures
            !r.custom_dismiss_action,
            !r.allow_in_car_play,
            !r.hidden_preview_show_title,
            !r.hidden_preview_show_subtitle,
    {
        CategoryOptions {
            custom_dismiss_action: false,
            allow_in_car_play: false,
            hidden_preview_show_title: false,
            hidden_preview_show_subtitle: false,
        }
    }
}

/// A predefined action attached to a category.
#[derive(Debug, Clone, PartialEq, Eq, Hash)]
pub struct CategoryAction {
    pub identifier: String,
    pub title: String,
    pub options: ActionOptions,
    pub icon: Option<ActionIcon>,
}

/// A notification category, for grouping and templating.
#[derive(Debug, Clone, PartialEq, Eq, Hash)]
pub struct NotificationCategory {
    pub identifier: String,
    pub display_name: String,
    pub description: Option<String>,
    pub actions: Vec<CategoryAction>,
    pub options: CategoryOptions,
}

impl NotificationCategory {
    /// A category with the given identifier and display name, no
    /// description and no actions.
    pub fn new(identifier: &str, display_name: &str) -> (r: NotificationCategory)
        ensures
            r.identifier@ == identifier@,
            r.display_name@ == display_name@,
            r.description is None,
            r.actions@.len() == 0,
    {
        NotificationCategory {
            identifier: identifier.to_owned(),
            display_name: display_name.to_owned(),
            description: None,
            actions: Vec::new(),
            options: CategoryOptions::default(),
        }
    }

    /// The same category with a description.
    pub fn with_description(self, description: &str) -> (r: NotificationCategory)
        ensures
            r.description matches Some(d) && d@ == description@,
            r.identifier == self.identifier,
            r.display_name == self.display_name,
            r.actions == self.actions,
    {
        NotificationCategory { description: Some(description.to_owned()), ..self }
    }

    /// The same category with one more action appended.
    pub fn with_action(self, action: CategoryAction) -> (r: NotificationCategory)
        ensures
            r.actions@.len() == self.actions@.len() + 1,
            r.actions@.last() == action,
            r.actions@.subrange(0, self.actions@.len() as int) == self.actions@,
            r.identifier == self.identifier,
    {
        let ghost orig = self.actions@;
        let mut actions: Vec<CategoryAction> = self.actions;
        actions.push(action);
        proof {
            assert(actions@.subrange(0, actions@.len() - 1) =~= orig);
        }
        NotificationCategory { actions, ..self }
    }

    /// The same category with different options.
    pub fn with_options(self, options: CategoryOptions) -> (r: NotificationCategory)
        ensures
            r.options == options,
            r.identifier == self.identifier,
    {
        NotificationCategory { options, ..self }
    }
}

} // verus!
