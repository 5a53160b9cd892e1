//! The decisions of the settings application: its state, the messages its
//! pages and background tasks send, and the effect each message asks the
//! runtime to carry out.

use vstd::prelude::*;

use crate::code::LocaleCode;
use crate::error::LocaleError;
use crate::locale_gen::{toggled, EntryModel, LocaleGen, LocaleGenEntry};
use crate::settings::{LoadedLocale, LocaleSource};
use crate::text::{chars_of, contains_infix, has_infix, lowercase, push_char, to_lowercase};

verus! {

/// A small set of human-readable samples for a single locale, used by
/// the picker's preview panel. Anything we can't compute is left blank.
#[derive(Debug, Clone)]
pub struct LocalePreview {
    pub locale: String,
    pub date: String,
    pub time: String,
    pub datetime: String,
    pub number: String,
}

/// Identifies a top-level page in the application.
#[derive(Copy, Clone, Debug, Eq, PartialEq, Structural)]
pub enum Page {
    Welcome,
    CurrentLocale,
    LocaleCategories,
    LocaleManagement,
}

/// The context page to display in the context drawer.
#[derive(Copy, Clone, Debug, Eq, PartialEq, Structural)]
pub enum ContextPage {
    About,
    /// Locale picker — handles both per-category edits and the
    /// "Set system language" action; the actual mode is carried
    /// by [`PickerState::target`].
    LocalePicker,
}

impl Default for ContextPage {
    fn default() -> (r: Self)
        ensures
            r == ContextPage::About,
    {
        ContextPage::About
    }
}

/// What the locale picker is going to write when the user clicks Apply.
#[derive(Debug, Clone, PartialEq, Eq)]
pub enum PickerTarget {
    /// Set a single `LC_*` category.
    Category(String),
    /// Set the system language: writes `LANG` plus every `LC_*` to
    /// the chosen value, mirroring cosmic-settings' region picker.
    SystemLanguage,
}

/// State for the locale picker shown in the context drawer. The same
/// drawer/UI is used for changing one `LC_*` category and for the
/// "Set system language" action; only [`PickerState::target`]
/// differs.
#[derive(Debug, Clone)]
pub struct PickerState {
    pub target: PickerTarget,
    pub initial_value: String,
    pub selected: String,
    pub search: String,
    pub in_flight: bool,
    pub last_error: Option<LocaleError>,
    /// Cached preview for `selected`. Stale results (where the locale
    /// no longer matches `selected`) are dropped on arrival.
    pub preview: Option<LocalePreview>,
}

/// State for the locale-management page: the freshly-loaded baseline,
/// the user's currently-edited copy, search text, in-flight flag, and
/// the most recent apply error.
#[derive(Debug, Clone)]
pub struct LocaleGenState {
    pub initial: LocaleGen,
    pub current: LocaleGen,
    pub search: String,
    pub in_flight: bool,
    pub last_error: Option<LocaleError>,
}

impl LocaleGenState {
    /// Whether the user has changed anything from the loaded baseline.
    pub fn is_dirty(&self) -> (b: bool)
        ensures
            b == (self.initial@ != self.current@),
    {
        !self.initial.same_as(&self.current)
    }
}

/// The state of the application that its decisions read and change.
#[derive(Debug)]
pub struct AppState {
    /// Result of the most recent system locale read; `None` while the
    /// initial load is in flight.
    pub current_locale: Option<Result<LoadedLocale, LocaleError>>,
    /// `true` while a reset of the `LC_*` overrides is awaiting completion.
    pub reset_in_flight: bool,
    /// Error from the most recent reset attempt, if any. Cleared on the
    /// next attempt or on a successful reset.
    pub last_reset_error: Option<LocaleError>,
    /// Installed locales from `locale -a`. `None` while loading.
    pub available_locales: Option<Result<Vec<LocaleCode>, LocaleError>>,
    /// State of the per-category picker, if a category is being edited.
    pub picker: Option<PickerState>,
    /// Parsed `/etc/locale.gen` plus the user's pending edits.
    /// `None` while the initial load is in flight.
    pub locale_gen: Option<Result<LocaleGenState, LocaleError>>,
    /// Whether the privileged helper that the Locale management page
    /// invokes via `pkexec` is installed on disk.
    pub helper_installed: bool,
    /// The page the context drawer shows.
    pub context_page: ContextPage,
    /// Whether the context drawer is open.
    pub show_context: bool,
}

/// Messages emitted by the application's pages and background tasks.
#[derive(Debug)]
pub enum Message {
    AvailableLocalesLoaded(Result<Vec<LocaleCode>, LocaleError>),
    CategoryPickerApply,
    CategoryPickerCancel,
    CategoryPickerSearch(String),
    CategoryPickerSelect(String),
    CategoryUpdated(Result<(), LocaleError>),
    CurrentLocaleLoaded(Result<LoadedLocale, LocaleError>),
    LaunchUrl(String),
    LcOverridesReset(Result<(), LocaleError>),
    LocaleGenApplied(Result<(), LocaleError>),
    LocaleGenApply,
    LocaleGenLoaded(Result<LocaleGen, LocaleError>),
    LocaleGenSearch(String),
    LocaleGenToggle(usize),
    OpenLocalePicker { target: PickerTarget, current: String },
    PreviewLoaded(LocalePreview),
    ResetLcOverrides,
    SelectPage(Page),
    ToggleContextPage(ContextPage),
}

/// A copy of a unit result.
fn copy_unit_result(r: &Result<(), LocaleError>) -> (c: Result<(), LocaleError>)
    ensures
        c == *r,
{
    match r {
        Ok(u) => Ok(*u),
        Err(e) => Err(e.clone()),
    }
}

impl Clone for Message {
    fn clone(&self) -> Self {
        match self {
            Message::AvailableLocalesLoaded(r) => Message::AvailableLocalesLoaded(
                match r {
                    Ok(v) => Ok(v.clone()),
                    Err(e) => Err(e.clone()),
                },
            ),
            Message::CategoryPickerApply => Message::CategoryPickerApply,
            Message::CategoryPickerCancel => Message::CategoryPickerCancel,
            Message::CategoryPickerSearch(s) => Message::CategoryPickerSearch(s.clone()),
            Message::CategoryPickerSelect(s) => Message::CategoryPickerSelect(s.clone()),
            Message::CategoryUpdated(r) => Message::CategoryUpdated(copy_unit_result(r)),
            Message::CurrentLocaleLoaded(r) => Message::CurrentLocaleLoaded(
                match r {
                    Ok(l) => Ok(l.clone()),
                    Err(e) => Err(e.clone()),
                },
            ),
            Message::LaunchUrl(s) => Message::LaunchUrl(s.clone()),
            Message::LcOverridesReset(r) => Message::LcOverridesReset(copy_unit_result(r)),
            Message::LocaleGenApplied(r) => Message::LocaleGenApplied(copy_unit_result(r)),
            Message::LocaleGenApply => Message::LocaleGenApply,
            Message::LocaleGenLoaded(r) => Message::LocaleGenLoaded(
                match r {
                    Ok(g) => Ok(g.clone()),
                    Err(e) => Err(e.clone()),
                },
            ),
            Message::LocaleGenSearch(s) => Message::LocaleGenSearch(s.clone()),
            Message::LocaleGenToggle(i) => Message::LocaleGenToggle(*i),
            Message::OpenLocalePicker { target, current } => Message::OpenLocalePicker {
                target: target.clone(),
                current: current.clone(),
            },
            Message::PreviewLoaded(p) => Message::PreviewLoaded(p.clone()),
            Message::ResetLcOverrides => Message::ResetLcOverrides,
            Message::SelectPage(p) => Message::SelectPage(*p),
            Message::ToggleContextPage(p) => Message::ToggleContextPage(*p),
        }
    }
}

/// Work that a message asks the runtime to carry out, whose outcome comes
/// back as a new message.
#[derive(Debug, Clone)]
pub enum Effect {
    /// Read the system locale; answered by `CurrentLocaleLoaded`.
    ReadDefaultLocale,
    /// List the installed locales; answered by `AvailableLocalesLoaded`.
    ListInstalledLocales,
    /// Read `/etc/locale.gen`; answered by `LocaleGenLoaded`.
    ReadLocaleGen,
    /// Clear the `LC_*` overrides; answered by `LcOverridesReset`.
    ResetLcOverrides,
    /// Compute the preview of a locale; answered by `PreviewLoaded`.
    PreviewLocale(String),
    /// Set one category; answered by `CategoryUpdated`.
    SetCategory { category: String, value: String },
    /// Set the system language; answered by `CategoryUpdated`.
    SetSystemLanguage(String),
    /// Write `/etc/locale.gen` and run `locale-gen`; answered by
    /// `LocaleGenApplied`.
    ApplyLocaleGen(LocaleGen),
    /// Open a URL in the desktop's browser.
    OpenUrl(String),
    /// Show a page and retitle the window.
    SelectPage(Page),
}

/// Whether loaded settings allow a reset: they come from a file and hold
/// at least one override.
pub open spec fn resettable(l: LoadedLocale) -> bool {
    &&& l.source is File
    &&& l.settings.lc_overrides@ != Map::<Seq<char>, Seq<char>>::empty()
}

/// The state after one message, and the effect it asks for.
pub open spec fn transition(s: AppState, m: Message, t: AppState, e: Option<Effect>) -> bool {
    match m {
        Message::CurrentLocaleLoaded(result) => t == AppState { current_locale: Some(result), ..s }
            && e is None,
        Message::ResetLcOverrides => {
            if s.current_locale matches Some(Ok(l)) && resettable(l) && !s.reset_in_flight {
                &&& t == AppState { reset_in_flight: true, last_reset_error: None, ..s }
                &&& e == Some(Effect::ResetLcOverrides)
            } else {
                t == s && e is None
            }
        },
        Message::LcOverridesReset(result) => match result {
            Ok(()) => t == AppState { reset_in_flight: false, ..s } && e == Some(
                Effect::ReadDefaultLocale,
            ),
            Err(err) => t == AppState { reset_in_flight: false, last_reset_error: Some(err), ..s }
                && e is None,
        },
        Message::ToggleContextPage(page) => {
            &&& e is None
            &&& if s.context_page == page {
                t == AppState { show_context: !s.show_context, ..s }
            } else {
                t == AppState { context_page: page, show_context: true, ..s }
            }
        },
        Message::LaunchUrl(url) => t == s && e == Some(Effect::OpenUrl(url)),
        Message::AvailableLocalesLoaded(result) => t == AppState {
            available_locales: Some(result),
            ..s
        } && e is None,
        Message::OpenLocalePicker { target, current } => {
            &&& t == AppState {
                picker: t.picker,
                context_page: ContextPage::LocalePicker,
                show_context: true,
                ..s
            }
            &&& t.picker matches Some(p)
            &&& p.target == target
            &&& p.initial_value@ == current@
            &&& p.selected@ == current@
            &&& p.search@ == Seq::<char>::empty()
            &&& !p.in_flight
            &&& p.last_error is None
            &&& p.preview is None
            &&& e matches Some(Effect::PreviewLocale(v))
            &&& v@ == current@
        },
        Message::CategoryPickerSearch(search) => e is None && match s.picker {
            Some(p) => t == AppState { picker: Some(PickerState { search, ..p }), ..s },
            None => t == s,
        },
        Message::CategoryPickerSelect(value) => match s.picker {
            Some(p) => if p.selected@ == value@ {
                t == s && e is None
            } else {
                &&& t == AppState { picker: t.picker, ..s }
                &&& t.picker matches Some(q)
                &&& q == PickerState { selected: q.selected, last_error: None, preview: None, ..p }
                &&& q.selected@ == value@
                &&& e == Some(Effect::PreviewLocale(value))
            },
            None => t == s && e is None,
        },
        Message::PreviewLoaded(preview) => e is None && match s.picker {
            Some(p) => if p.selected@ == preview.locale@ {
                t == AppState { picker: Some(PickerState { preview: Some(preview), ..p }), ..s }
            } else {
                t == s
            },
            None => t == s,
        },
        Message::CategoryPickerCancel => t == AppState { picker: None, show_context: false, ..s }
            && e is None,
        Message::CategoryPickerApply => match s.picker {
            Some(p) => if p.in_flight || p.selected@ == p.initial_value@ {
                t == s && e is None
            } else {
                &&& t == AppState {
                    picker: Some(PickerState { in_flight: true, last_error: None, ..p }),
                    ..s
                }
                &&& match p.target {
                    PickerTarget::Category(name) => e matches Some(
                        Effect::SetCategory { category, value },
                    ) && category@ == name@ && value@ == p.selected@,
                    PickerTarget::SystemLanguage => e matches Some(Effect::SetSystemLanguage(value))
                        && value@ == p.selected@,
                }
            },
            None => t == s && e is None,
        },
        Message::CategoryUpdated(result) => match result {
            Ok(()) => t == AppState { picker: None, show_context: false, ..s } && e == Some(
                Effect::ReadDefaultLocale,
            ),
            Err(err) => e is None && match s.picker {
                Some(p) => t == AppState {
                    picker: Some(PickerState { in_flight: false, last_error: Some(err), ..p }),
                    ..s
                },
                None => t == s,
            },
        },
        Message::LocaleGenLoaded(result) => {
            &&& e is None
            &&& t == AppState { locale_gen: t.locale_gen, ..s }
            &&& match result {
                Ok(g) => {
                    &&& t.locale_gen matches Some(Ok(st))
                    &&& st.current == g
                    &&& st.initial@ == g@
                    &&& st.search@ == Seq::<char>::empty()
                    &&& !st.in_flight
                    &&& st.last_error is None
                },
                Err(err) => t.locale_gen == Some(Err::<LocaleGenState, LocaleError>(err)),
            }
        },
        Message::LocaleGenSearch(search) => e is None && match s.locale_gen {
            Some(Ok(st)) => t == AppState {
                locale_gen: Some(Ok(LocaleGenState { search, ..st })),
                ..s
            },
            _ => t == s,
        },
        Message::LocaleGenToggle(i) => e is None && match s.locale_gen {
            Some(Ok(st)) => {
                &&& t == AppState { locale_gen: t.locale_gen, ..s }
                &&& t.locale_gen matches Some(Ok(st2))
                &&& st2 == LocaleGenState { current: st2.current, last_error: None, ..st }
                &&& st2.current@ == toggled(st.current@, i as int)
            },
            _ => t == s,
        },
        Message::LocaleGenApply => match s.locale_gen {
            Some(Ok(st)) => if st.in_flight || st.initial@ == st.current@ {
                t == s && e is None
            } else {
                &&& t == AppState {
                    locale_gen: Some(
                        Ok(LocaleGenState { in_flight: true, last_error: None, ..st }),
                    ),
                    ..s
                }
                &&& e matches Some(Effect::ApplyLocaleGen(g))
                &&& g@ == st.current@
            },
            _ => t == s && e is None,
        },
        Message::LocaleGenApplied(result) => match s.locale_gen {
            Some(Ok(st)) => match result {
                Ok(()) => {
                    &&& t == AppState { locale_gen: t.locale_gen, ..s }
                    &&& t.locale_gen matches Some(Ok(st2))
                    &&& st2 == LocaleGenState { initial: st2.initial, in_flight: false, ..st }
                    &&& st2.initial@ == st.current@
                    &&& e == Some(Effect::ListInstalledLocales)
                },
                Err(err) => t == AppState {
                    locale_gen: Some(
                        Ok(LocaleGenState { in_flight: false, last_error: Some(err), ..st }),
                    ),
                    ..s
                } && e is None,
            },
            _ => t == s && e == Some(Effect::ListInstalledLocales),
        },
        Message::SelectPage(page) => t == s && e == Some(Effect::SelectPage(page)),
    }
}

impl AppState {
    /// The state before anything has loaded, and the loads to start: the
    /// system locale, the installed locales and `/etc/locale.gen`.
    pub fn init(helper_installed: bool) -> (r: (AppState, Vec<Effect>))
        ensures
            r.0.current_locale is None,
            !r.0.reset_in_flight,
            r.0.last_reset_error is None,
            r.0.available_locales is None,
            r.0.picker is None,
            r.0.locale_gen is None,
            r.0.helper_installed == helper_installed,
            r.0.context_page == ContextPage::About,
            !r.0.show_context,
            r.1@ == seq![
                Effect::ReadDefaultLocale,
                Effect::ListInstalledLocales,
                Effect::ReadLocaleGen,
            ],
    {
        let state = AppState {
            current_locale: None,
            reset_in_flight: false,
            last_reset_error: None,
            available_locales: None,
            picker: None,
            locale_gen: None,
            helper_installed,
            context_page: ContextPage::About,
            show_context: false,
        };
        let mut effects: Vec<Effect> = Vec::new();
        effects.push(Effect::ReadDefaultLocale);
        effects.push(Effect::ListInstalledLocales);
        effects.push(Effect::ReadLocaleGen);
        assert(effects@ =~= seq![
            Effect::ReadDefaultLocale,
            Effect::ListInstalledLocales,
            Effect::ReadLocaleGen,
        ]);
        (state, effects)
    }

    fn on_reset_requested(&mut self) -> (r: Option<Effect>)
        ensures
            transition(*old(self), Message::ResetLcOverrides, *final(self), r),
    {
        let allowed = match &self.current_locale {
            Some(Ok(l)) => match &l.source {
                LocaleSource::File(_) => !l.settings.lc_overrides.is_empty(),
                LocaleSource::Environment => false,
            },
            _ => false,
        };
        if !allowed || self.reset_in_flight {
            return None;
        }
        self.reset_in_flight = true;
        self.last_reset_error = None;
        Some(Effect::ResetLcOverrides)
    }

    fn on_reset_finished(&mut self, result: Result<(), LocaleError>) -> (r: Option<Effect>)
        ensures
            transition(*old(self), Message::LcOverridesReset(result), *final(self), r),
    {
        self.reset_in_flight = false;
        match result {
            Ok(()) => Some(Effect::ReadDefaultLocale),
            Err(err) => {
                self.last_reset_error = Some(err);
                None
            },
        }
    }

    fn on_open_picker(&mut self, target: PickerTarget, current: String) -> (r: Option<Effect>)
        ensures
            transition(
                *old(self),
                Message::OpenLocalePicker { target, current },
                *final(self),
                r,
            ),
    {
        self.picker = Some(
            PickerState {
                target,
                initial_value: current.clone(),
                selected: current.clone(),
                search: String::new(),
                in_flight: false,
                last_error: None,
                preview: None,
            },
        );
        self.context_page = ContextPage::LocalePicker;
        self.show_context = true;
        Some(Effect::PreviewLocale(current))
    }

    fn on_picker_search(&mut self, search: String) -> (r: Option<Effect>)
        ensures
            transition(*old(self), Message::CategoryPickerSearch(search), *final(self), r),
    {
        match self.picker.take() {
            Some(p) => {
                self.picker = Some(PickerState { search, ..p });
            },
            None => {},
        }
        None
    }

    fn on_picker_select(&mut self, value: String) -> (r: Option<Effect>)
        ensures
            transition(*old(self), Message::CategoryPickerSelect(value), *final(self), r),
    {
        match self.picker.take() {
            Some(p) => {
                if p.selected == value {
                    self.picker = Some(p);
                    None
                } else {
                    self.picker = Some(
                        PickerState {
                            selected: value.clone(),
                            last_error: None,
                            preview: None,
                            ..p
                        },
                    );
                    Some(Effect::PreviewLocale(value))
                }
            },
            None => None,
        }
    }

    fn on_preview_loaded(&mut self, preview: LocalePreview) -> (r: Option<Effect>)
        ensures
            transition(*old(self), Message::PreviewLoaded(preview), *final(self), r),
    {
        match self.picker.take() {
            Some(p) => {
                if p.selected == preview.locale {
                    self.picker = Some(PickerState { preview: Some(preview), ..p });
                } else {
                    self.picker = Some(p);
                }
            },
            None => {},
        }
        None
    }

    fn on_picker_apply(&mut self) -> (r: Option<Effect>)
        ensures
            transition(*old(self), Message::CategoryPickerApply, *final(self), r),
    {
        match self.picker.take() {
            Some(p) => {
                if p.in_flight || p.selected == p.initial_value {
                    self.picker = Some(p);
                    None
                } else {
                    let value = p.selected.clone();
                    let effect = match &p.target {
                        PickerTarget::Category(name) => Effect::SetCategory {
                            category: name.clone(),
                            value,
                        },
                        PickerTarget::SystemLanguage => Effect::SetSystemLanguage(value),
                    };
                    self.picker = Some(PickerState { in_flight: true, last_error: None, ..p });
                    Some(effect)
                }
            },
            None => None,
        }
    }

    fn on_category_updated(&mut self, result: Result<(), LocaleError>) -> (r: Option<Effect>)
        ensures
            transition(*old(self), Message::CategoryUpdated(result), *final(self), r),
    {
        match result {
            Ok(()) => {
                self.picker = None;
                self.show_context = false;
                Some(Effect::ReadDefaultLocale)
            },
            Err(err) => {
                match self.picker.take() {
                    Some(p) => {
                        self.picker = Some(
                            PickerState { in_flight: false, last_error: Some(err), ..p },
                        );
                    },
                    None => {},
                }
                None
            },
        }
    }

    fn on_locale_gen_loaded(&mut self, result: Result<LocaleGen, LocaleError>) -> (r: Option<
        Effect,
    >)
        ensures
            transition(*old(self), Message::LocaleGenLoaded(result), *final(self), r),
    {
        match result {
            Ok(g) => {
                let initial = g.clone();
                self.locale_gen = Some(
                    Ok(
                        LocaleGenState {
                            initial,
                            current: g,
                            search: String::new(),
                            in_flight: false,
                            last_error: None,
                        },
                    ),
                );
            },
            Err(err) => {
                self.locale_gen = Some(Err(err));
            },
        }
        None
    }

    fn on_locale_gen_search(&mut self, search: String) -> (r: Option<Effect>)
        ensures
            transition(*old(self), Message::LocaleGenSearch(search), *final(self), r),
    {
        match self.locale_gen.take() {
            Some(Ok(st)) => {
                self.locale_gen = Some(Ok(LocaleGenState { search, ..st }));
            },
            other => {
                self.locale_gen = other;
            },
        }
        None
    }

    fn on_locale_gen_toggle(&mut self, line_index: usize) -> (r: Option<Effect>)
        ensures
            transition(*old(self), Message::LocaleGenToggle(line_index), *final(self), r),
    {
        match self.locale_gen.take() {
            Some(Ok(st)) => {
                let mut current = st.current;
                current.toggle(line_index);
                self.locale_gen = Some(
                    Ok(
                        LocaleGenState {
                            initial: st.initial,
                            current,
                            search: st.search,
                            in_flight: st.in_flight,
                            last_error: None,
                        },
                    ),
                );
            },
            other => {
                self.locale_gen = other;
            },
        }
        None
    }

    fn on_locale_gen_apply(&mut self) -> (r: Option<Effect>)
        ensures
            transition(*old(self), Message::LocaleGenApply, *final(self), r),
    {
        match self.locale_gen.take() {
            Some(Ok(st)) => {
                if st.in_flight || !st.is_dirty() {
                    self.locale_gen = Some(Ok(st));
                    None
                } else {
                    let to_apply = st.current.clone();
                    self.locale_gen = Some(
                        Ok(LocaleGenState { in_flight: true, last_error: None, ..st }),
                    );
                    Some(Effect::ApplyLocaleGen(to_apply))
                }
            },
            other => {
                self.locale_gen = other;
                None
            },
        }
    }

    fn on_locale_gen_applied(&mut self, result: Result<(), LocaleError>) -> (r: Option<Effect>)
        ensures
            transition(*old(self), Message::LocaleGenApplied(result), *final(self), r),
    {
        match self.locale_gen.take() {
            Some(Ok(st)) => match result {
                Ok(()) => {
                    let initial = st.current.clone();
                    self.locale_gen = Some(
                        Ok(
                            LocaleGenState {
                                initial,
                                current: st.current,
                                search: st.search,
                                in_flight: false,
                                last_error: st.last_error,
                            },
                        ),
                    );
                    Some(Effect::ListInstalledLocales)
                },
                Err(err) => {
                    self.locale_gen = Some(
                        Ok(LocaleGenState { in_flight: false, last_error: Some(err), ..st }),
                    );
                    None
                },
            },
            other => {
                self.locale_gen = other;
                Some(Effect::ListInstalledLocales)
            },
        }
    }

    /// Handles a message: updates the state and returns the work, if any,
    /// that the runtime should carry out next.
    pub fn update(&mut self, message: Message) -> (r: Option<Effect>)
        ensures
            transition(*old(self), message, *final(self), r),
    {
        match message {
            Message::CurrentLocaleLoaded(result) => {
                self.current_locale = Some(result);
                None
            },
            Message::ResetLcOverrides => self.on_reset_requested(),
            Message::LcOverridesReset(result) => self.on_reset_finished(result),
            Message::ToggleContextPage(page) => {
                if self.context_page == page {
                    self.show_context = !self.show_context;
                } else {
                    self.context_page = page;
                    self.show_context = true;
                }
                None
            },
            Message::LaunchUrl(url) => Some(Effect::OpenUrl(url)),
            Message::AvailableLocalesLoaded(result) => {
                self.available_locales = Some(result);
                None
            },
            Message::OpenLocalePicker { target, current } => self.on_open_picker(target, current),
            Message::CategoryPickerSearch(search) => self.on_picker_search(search),
            Message::CategoryPickerSelect(value) => self.on_picker_select(value),
            Message::PreviewLoaded(preview) => self.on_preview_loaded(preview),
            Message::CategoryPickerCancel => {
                self.picker = None;
                self.show_context = false;
                None
            },
            Message::CategoryPickerApply => self.on_picker_apply(),
            Message::CategoryUpdated(result) => self.on_category_updated(result),
            Message::LocaleGenLoaded(result) => self.on_locale_gen_loaded(result),
            Message::LocaleGenSearch(search) => self.on_locale_gen_search(search),
            Message::LocaleGenToggle(line_index) => self.on_locale_gen_toggle(line_index),
            Message::LocaleGenApply => self.on_locale_gen_apply(),
            Message::LocaleGenApplied(result) => self.on_locale_gen_applied(result),
            Message::SelectPage(page) => Some(Effect::SelectPage(page)),
        }
    }
}

/// Whether the picker lists a locale for the search text: an empty search
/// (once lower-cased) lists everything, otherwise the lower-cased locale
/// must contain the lower-cased search.
pub open spec fn shown_in_picker(code: Seq<char>, search: Seq<char>) -> bool {
    lowercase(search).len() == 0 || has_infix(lowercase(code), lowercase(search))
}

/// Whether a locale, lower-cased, matches the lower-cased search text.
pub fn search_matches(lowered: &str, needle: &str) -> (b: bool)
    ensures
        b == (needle@.len() == 0 || has_infix(lowered@, needle@)),
{
    let n = chars_of(needle);
    n.len() == 0 || contains_infix(&chars_of(lowered), &n)
}

/// The positions of the locales that the picker lists for `search`, in
/// order.
pub fn visible_locales(available: &[LocaleCode], search: &str) -> (r: Vec<usize>)
    ensures
        forall|i: int, j: int| 0 <= i < j < r@.len() ==> r@[i] < r@[j],
        forall|i: int|
            0 <= i < r@.len() ==> r@[i] < available@.len() && shown_in_picker(
                available@[r@[i] as int]@,
                search@,
            ),
        forall|k: int|
            0 <= k < available@.len() && shown_in_picker(available@[k]@, search@) ==> r@.contains(
                k as usize,
            ),
{
    let needle = to_lowercase(search);
    let mut out: Vec<usize> = Vec::new();
    let mut k: usize = 0;
    while k < available.len()
        invariant
            k <= available@.len(),
            needle@ == lowercase(search@),
            forall|i: int| 0 <= i < out@.len() ==> out@[i] < k,
            forall|i: int, j: int| 0 <= i < j < out@.len() ==> out@[i] < out@[j],
            forall|i: int|
                0 <= i < out@.len() ==> out@[i] < available@.len() && shown_in_picker(
                    available@[out@[i] as int]@,
                    search@,
                ),
            forall|j: int|
                0 <= j < k && shown_in_picker(available@[j]@, search@) ==> out@.contains(
                    j as usize,
                ),
        decreases available@.len() - k,
    {
        let lowered = to_lowercase(available[k].as_str());
        if search_matches(lowered.as_str(), needle.as_str()) {
            let ghost prev = out@;
            out.push(k);
            assert forall|j: int|
                0 <= j < k + 1 && shown_in_picker(available@[j]@, search@) implies out@.contains(
                j as usize,
            ) by {
                if j < k {
                    let i = choose|i: int| 0 <= i < prev.len() && prev[i] == j as usize;
                    assert(out@[i] == j as usize);
                } else {
                    assert(out@[prev.len() as int] == k);
                }
            }
        }
        k = k + 1;
    }
    out
}

/// The label of a locale row on the management page: `code charset`.
pub open spec fn row_label(e: EntryModel) -> Seq<char> {
    e.code + seq![' '] + e.charset
}

/// Whether the management page lists a locale row for the search text.
pub fn entry_shown(entry: &LocaleGenEntry, search: &str) -> (b: bool)
    ensures
        b == shown_in_picker(row_label(entry@), search@),
{
    let mut label = entry.code.clone();
    push_char(&mut label, ' ');
    label.append(entry.charset.as_str());
    assert(label@ =~= row_label(entry@));
    let needle = to_lowercase(search);
    let lowered = to_lowercase(label.as_str());
    search_matches(lowered.as_str(), needle.as_str())
}

/// Whether the picker's Apply button is enabled: a picker is open, it is
/// not already applying, and the selection differs from the starting
/// value.
pub fn apply_enabled(picker: &Option<PickerState>) -> (b: bool)
    ensures
        b == match picker {
            Some(p) => !p.in_flight && p.selected@ != p.initial_value@,
            None => false,
        },
{
    match picker {
        Some(p) => !p.in_flight && p.selected != p.initial_value,
        None => false,
    }
}

/// The picker's preview, unless it is stale (computed for a locale other
/// than the one selected).
pub fn preview_for(picker: &PickerState) -> (r: Option<&LocalePreview>)
    ensures
        match picker.preview {
            Some(p) => if p.locale@ == picker.selected@ {
                r == Some(&p)
            } else {
                r is None
            },
            None => r is None,
        },
{
    match &picker.preview {
        Some(p) => if p.locale == picker.selected {
            Some(p)
        } else {
            None
        },
        None => None,
    }
}

/// Cancelling the category picker closes it and the context drawer that
/// holds it, and asks for nothing.
pub proof fn lemma_cancel_closes_drawer(s: AppState, t: AppState, e: Option<Effect>)
    requires
        transition(s, Message::CategoryPickerCancel, t, e),
    ensures
        t.picker is None,
        !t.show_context,
        e is None,
{
}

/// A reset is not submitted again while one is awaiting its answer.
pub proof fn lemma_no_second_reset(s: AppState, t: AppState, e: Option<Effect>)
    requires
        s.reset_in_flight,
        transition(s, Message::ResetLcOverrides, t, e),
    ensures
        t == s,
        e is None,
{
}

/// A picker value is not submitted again while one is awaiting its answer,
/// nor when it equals the value the picker opened with.
pub proof fn lemma_no_needless_picker_apply(s: AppState, t: AppState, e: Option<Effect>)
    requires
        s.picker matches Some(p) && (p.in_flight || p.selected@ == p.initial_value@),
        transition(s, Message::CategoryPickerApply, t, e),
    ensures
        t == s,
        e is None,
{
}

/// `/etc/locale.gen` is written only when the edited copy differs from the
/// loaded one and no write is awaiting its answer.
pub proof fn lemma_apply_only_when_dirty(s: AppState, t: AppState, e: Option<Effect>)
    requires
        transition(s, Message::LocaleGenApply, t, e),
        e is Some,
    ensures
        s.locale_gen matches Some(Ok(st)) && !st.in_flight && st.initial@ != st.current@,
        e matches Some(Effect::ApplyLocaleGen(g)) && (s.locale_gen matches Some(Ok(st))
            && g@ == st.current@),
{
}

/// A preview computed for a locale other than the selected one is dropped.
pub proof fn lemma_stale_preview_dropped(s: AppState, preview: LocalePreview, t: AppState, e: Option<Effect>)
    requires
        s.picker matches Some(p) && p.selected@ != preview.locale@,
        transition(s, Message::PreviewLoaded(preview), t, e),
    ensures
        t == s,
        e is None,
{
}

/// After a successful write, the written copy becomes the baseline, so the
/// page is no longer dirty.
pub proof fn lemma_applied_is_clean(s: AppState, t: AppState, e: Option<Effect>)
    requires
        s.locale_gen is Some && s.locale_gen->0 is Ok,
        transition(s, Message::LocaleGenApplied(Ok(())), t, e),
    ensures
        t.locale_gen matches Some(Ok(st)) && st.initial@ == st.current@,
{
}

} // verus!
