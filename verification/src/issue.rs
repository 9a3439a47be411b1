//! A known problem of the system, as a fix definition file describes it.
use vstd::prelude::*;
use crate::text::{push_char, push_str, str_eq, to_owned_string};

verus! {

/// One fix definition: how to detect a problem and how to repair it.
#[derive(Debug, Clone, PartialEq, Eq)]
pub struct Issue {
    pub id: String,
    pub category: String,
    pub name: String,
    pub symptoms: Vec<String>,
    pub detection: String,
    pub fix: String,
    pub safe: bool,
}

/// The contents of one fix definition file: its `[[issue]]` tables.
#[derive(Debug, Clone, PartialEq, Eq)]
pub struct IssueFile {
    pub issue: Vec<Issue>,
}

/// The icon shown for a category; categories without one of their own get the wrench.
pub open spec fn category_icon(category: Seq<char>) -> Seq<char> {
    if category == "gaming"@ {
        "🎮"@
    } else if category == "video-conferencing"@ {
        "📹"@
    } else if category == "graphics"@ {
        "🖥️"@
    } else if category == "audio"@ {
        "🔊"@
    } else if category == "display"@ {
        "🖥️"@
    } else {
        "🔧"@
    }
}

/// The name under which an issue is listed: its icon, a space, and its name.
pub open spec fn listed_name(issue: Issue) -> Seq<char> {
    category_icon(issue.category@) + seq![' '] + issue.name@
}

impl Issue {
    /// The icon for `category`.
    pub fn icon_for_category(category: &str) -> (icon: &'static str)
        ensures
            icon@ == category_icon(category@),
    {
        if str_eq(category, "gaming") {
            "🎮"
        } else if str_eq(category, "video-conferencing") {
            "📹"
        } else if str_eq(category, "graphics") {
            "🖥️"
        } else if str_eq(category, "audio") {
            "🔊"
        } else if str_eq(category, "display") {
            "🖥️"
        } else {
            "🔧"
        }
    }

    /// The icon of the issue's category, a space, and the issue's name.
    pub fn display_name(&self) -> (out: String)
        ensures
            out@ == listed_name(*self),
    {
        let icon = Self::icon_for_category(self.category.as_str());
        let mut out = to_owned_string(icon);
        push_char(&mut out, ' ');
        push_str(&mut out, self.name.as_str());
        out
    }
}

} // verus!
