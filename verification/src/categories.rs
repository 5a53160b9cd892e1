//! The resolved value of every POSIX `LC_*` category.

use vstd::prelude::*;

use crate::settings::{LocaleSettings, SettingsModel};
use crate::text::string_of;
use crate::text::chars_of;

verus! {

/// The full set of POSIX `LC_*` categories, in the order glibc and
/// `localectl status` print them. `LC_ALL` is intentionally omitted —
/// it's a runtime override that isn't stored in the locale config.
pub const LC_CATEGORIES: [&'static str; 12] = [
    "LC_CTYPE",
    "LC_NUMERIC",
    "LC_TIME",
    "LC_COLLATE",
    "LC_MONETARY",
    "LC_MESSAGES",
    "LC_PAPER",
    "LC_NAME",
    "LC_ADDRESS",
    "LC_TELEPHONE",
    "LC_MEASUREMENT",
    "LC_IDENTIFICATION",
];

/// Where a category's effective value comes from.
#[derive(Debug, Clone, Copy, PartialEq, Eq, Structural)]
pub enum CategorySource {
    /// Set explicitly via an `LC_*=` line in the config or the
    /// process environment.
    Override,
    /// No explicit setting; takes its value from `LANG`.
    Inherited,
    /// Neither `LANG` nor an explicit override is set; falls back to
    /// the POSIX `C` locale.
    Default,
}

/// Resolved view of a single `LC_*` category.
#[derive(Debug, Clone)]
pub struct CategoryView {
    pub name: &'static str,
    pub value: String,
    pub source: CategorySource,
}

/// The effective value of category `name` and where it comes from: the
/// explicit override if present, otherwise `LANG`'s value, otherwise the
/// POSIX `C` default.
pub open spec fn resolved(st: SettingsModel, name: Seq<char>) -> (Seq<char>, CategorySource) {
    if st.overrides.dom().contains(name) {
        (st.overrides[name], CategorySource::Override)
    } else {
        match st.lang {
            Some(lang) => (lang, CategorySource::Inherited),
            None => ("C"@, CategorySource::Default),
        }
    }
}

/// Resolve every `LC_*` category against the parsed settings.
///
/// For each category, the effective value is the explicit override if
/// present, otherwise `LANG`'s value, otherwise the POSIX `C` default.
pub fn effective_categories(settings: &LocaleSettings) -> (r: Vec<CategoryView>)
    ensures
        r@.len() == LC_CATEGORIES@.len(),
        forall|i: int|
            0 <= i < r@.len() ==> {
                &&& (#[trigger] r@[i]).name == LC_CATEGORIES@[i]
                &&& (r@[i].value@, r@[i].source) == resolved(settings@, LC_CATEGORIES@[i]@)
            },
{
    let mut out: Vec<CategoryView> = Vec::new();
    let mut i: usize = 0;
    while i < 12
        invariant
            i <= 12,
            LC_CATEGORIES@.len() == 12,
            out@.len() == i,
            forall|j: int|
                0 <= j < i ==> {
                    &&& (#[trigger] out@[j]).name == LC_CATEGORIES@[j]
                    &&& (out@[j].value@, out@[j].source) == resolved(
                        settings@,
                        LC_CATEGORIES@[j]@,
                    )
                },
        decreases 12 - i,
    {
        let name: &'static str = LC_CATEGORIES[i];
        let view = match settings.lc_overrides.get(name) {
            Some(code) => CategoryView {
                name,
                value: code.to_string(),
                source: CategorySource::Override,
            },
            None => match &settings.lang {
                Some(lang) => CategoryView {
                    name,
                    value: lang.to_string(),
                    source: CategorySource::Inherited,
                },
                None => CategoryView {
                    name,
                    value: string_of(&chars_of("C")),
                    source: CategorySource::Default,
                },
            },
        };
        out.push(view);
        i = i + 1;
    }
    out
}

/// How every category resolves: a category with an override takes exactly
/// that override's value, whichever category it is; one without takes
/// `LANG`'s value when `LANG` is set, and the POSIX `C` locale otherwise.
pub proof fn lemma_resolution_order(st: SettingsModel, name: Seq<char>)
    ensures
        st.overrides.dom().contains(name) ==> resolved(st, name) == (
            st.overrides[name],
            CategorySource::Override,
        ),
        !st.overrides.dom().contains(name) && st.lang is Some ==> resolved(st, name) == (
            st.lang->0,
            CategorySource::Inherited,
        ),
        !st.overrides.dom().contains(name) && st.lang is None ==> resolved(st, name) == (
            "C"@,
            CategorySource::Default,
        ),
{
}

/// An override of any one of the twelve categories shows up in that
/// category's row, with its own value and marked as an override, and no
/// other category's row changes because of it.
pub proof fn lemma_override_shows_in_its_row(st: SettingsModel, i: int, code: Seq<char>)
    requires
        0 <= i < LC_CATEGORIES@.len(),
    ensures
        resolved(
            SettingsModel { overrides: st.overrides.insert(LC_CATEGORIES@[i]@, code), ..st },
            LC_CATEGORIES@[i]@,
        ) == (code, CategorySource::Override),
        forall|name: Seq<char>|
            name != LC_CATEGORIES@[i]@ ==> resolved(
                SettingsModel { overrides: st.overrides.insert(LC_CATEGORIES@[i]@, code), ..st },
                name,
            ) == resolved(st, name),
{
}

} // verus!
