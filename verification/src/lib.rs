//! Locale model for a COSMIC desktop locale manager: the pure logic behind
//! reading `/etc/default/locale`, editing `/etc/locale.gen`, talking to
//! systemd-localed and driving the settings pages, with its contracts.

pub mod categories;
pub mod code;
pub mod error;
pub mod failures;
pub mod installed;
pub mod locale_gen;
pub mod localed;
pub mod overrides;
pub mod settings;
pub mod state;
pub mod text;

pub use crate::categories::{effective_categories, CategorySource, CategoryView, LC_CATEGORIES};
pub use crate::code::LocaleCode;
pub use crate::error::{FileRead, LocaleError};
pub use crate::failures::{
    classify_pkexec_error, command_failure, dbus_to_locale_error, spawn_failure, DbusFailure,
};
pub use crate::installed::parse_locale_a;
pub use crate::locale_gen::{
    locale_gen_from_read, parse_locale_gen, render_locale_gen, LocaleGen, LocaleGenEntry,
    APPLY_LOCALE_GEN_HELPER, LOCALE_GEN_PATH,
};
pub use crate::localed::{build_category_set, build_language_locale, build_reset_locale};
pub use crate::overrides::LcOverrides;
pub use crate::settings::{
    config_read_step, parse_default_locale, real_overrides, settings_from_env, LoadedLocale,
    LocaleSettings, LocaleSource, LOCALE_CONFIG_PATHS,
};
pub use crate::state::{
    apply_enabled, preview_for, visible_locales, AppState, ContextPage, Effect, LocaleGenState,
    LocalePreview, Message, Page, PickerState, PickerTarget,
};
