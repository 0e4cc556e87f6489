//! Descriptions of apps.

use vstd::prelude::*;
use crate::text;

verus! {

/// An app, as far as the lists of apps look into it. All else that is told of it
/// is kept in `details`, in its serialized form.
#[derive(Debug, PartialEq, Eq)]
pub struct AppInfo {
    pub id: String,
    pub name: String,
    pub description: Option<String>,
    pub is_accessible: bool,
    pub is_enabled: bool,
    pub plugin_display_names: Vec<String>,
    pub details: String,
}

#[verifier::ext_equal]
pub struct AppModel {
    pub id: Seq<char>,
    pub name: Seq<char>,
    pub description: Option<Seq<char>>,
    pub is_accessible: bool,
    pub is_enabled: bool,
    pub plugin_display_names: Seq<Seq<char>>,
    pub details: Seq<char>,
}

impl DeepView for AppInfo {
    type V = AppModel;

    open spec fn deep_view(&self) -> AppModel {
        AppModel {
            id: self.id@,
            name: self.name@,
            description: self.description.deep_view(),
            is_accessible: self.is_accessible,
            is_enabled: self.is_enabled,
            plugin_display_names: self.plugin_display_names.deep_view(),
            details: self.details@,
        }
    }
}

impl Clone for AppInfo {
    fn clone(&self) -> (copy: Self)
        ensures
            copy.deep_view() == self.deep_view(),
    {
        let copy = AppInfo {
            id: self.id.clone(),
            name: self.name.clone(),
            description: self.description.clone(),
            is_accessible: self.is_accessible,
            is_enabled: self.is_enabled,
            plugin_display_names: self.plugin_display_names.clone(),
            details: self.details.clone(),
        };
        assert(copy.plugin_display_names.deep_view() =~= self.plugin_display_names.deep_view());
        copy
    }
}

fn same_names(a: &Vec<String>, b: &Vec<String>) -> (result: bool)
    ensures
        result == (a.deep_view() == b.deep_view()),
{
    if a.len() != b.len() {
        assert(a.deep_view().len() != b.deep_view().len());
        return false;
    }
    let mut i: usize = 0;
    while i < a.len()
        invariant
            i <= a@.len(),
            a@.len() == b@.len(),
            forall|j: int| 0 <= j < i ==> a.deep_view()[j] == b.deep_view()[j],
        decreases a@.len() - i,
    {
        if !text::same_text(a[i].as_str(), b[i].as_str()) {
            assert(a.deep_view()[i as int] != b.deep_view()[i as int]);
            return false;
        }
        i += 1;
    }
    assert(a.deep_view() =~= b.deep_view());
    true
}

impl AppInfo {
    /// Whether all that is told of two apps is the same.
    pub fn same(&self, other: &Self) -> (result: bool)
        ensures
            result == (self.deep_view() == other.deep_view()),
    {
        text::same_text(self.id.as_str(), other.id.as_str()) && text::same_text(
            self.name.as_str(),
            other.name.as_str(),
        ) && text::same_optional_text(&self.description, &other.description) && self.is_accessible
            == other.is_accessible && self.is_enabled == other.is_enabled && same_names(
            &self.plugin_display_names,
            &other.plugin_display_names,
        ) && text::same_text(self.details.as_str(), other.details.as_str())
    }
}

/// Whether two lists hold the same apps in the same order.
pub fn same_apps(a: &Vec<AppInfo>, b: &Vec<AppInfo>) -> (result: bool)
    ensures
        result == (a.deep_view() == b.deep_view()),
{
    if a.len() != b.len() {
        assert(a.deep_view().len() != b.deep_view().len());
        return false;
    }
    let mut i: usize = 0;
    while i < a.len()
        invariant
            i <= a@.len(),
            a@.len() == b@.len(),
            forall|j: int| 0 <= j < i ==> a.deep_view()[j] == b.deep_view()[j],
        decreases a@.len() - i,
    {
        if !a[i].same(&b[i]) {
            assert(a.deep_view()[i as int] != b.deep_view()[i as int]);
            return false;
        }
        i += 1;
    }
    assert(a.deep_view() =~= b.deep_view());
    true
}

/// A copy of a list of apps.
pub fn copy_apps(apps: &Vec<AppInfo>) -> (copy: Vec<AppInfo>)
    ensures
        copy.deep_view() == apps.deep_view(),
{
    let copy = apps.clone();
    assert(copy.deep_view() =~= apps.deep_view());
    copy
}

/// Whether the app `id` is one of `apps`.
pub fn lists_app(apps: &Vec<AppInfo>, id: &str) -> (result: bool)
    ensures
        result == lists_id(apps.deep_view(), id@),
{
    let mut i: usize = 0;
    while i < apps.len()
        invariant
            i <= apps@.len(),
            forall|j: int| 0 <= j < i ==> (#[trigger] apps.deep_view()[j]).id != id@,
        decreases apps@.len() - i,
    {
        if text::same_text(apps[i].id.as_str(), id) {
            assert(apps.deep_view()[i as int].id == id@);
            return true;
        }
        i += 1;
    }
    false
}

/// The app `id` is one of `apps`.
pub open spec fn lists_id(apps: Seq<AppModel>, id: Seq<char>) -> bool {
    exists|i: int| 0 <= i < apps.len() && (#[trigger] apps[i]).id == id
}

}
