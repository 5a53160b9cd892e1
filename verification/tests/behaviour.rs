use cosmic_locale::installed::{is_pseudo_locale, is_utf8_locale};
use cosmic_locale::settings::strip_quotes;
use cosmic_locale::state::entry_shown;
use cosmic_locale::text::{
    chars_of, is_control, is_whitespace, split_lines, split_words, trim_str,
};
use cosmic_locale::{
    apply_enabled, build_category_set, build_language_locale, build_reset_locale,
    classify_pkexec_error, command_failure, config_read_step, dbus_to_locale_error,
    locale_gen_from_read, parse_default_locale, parse_locale_gen, preview_for, real_overrides,
    render_locale_gen, settings_from_env, spawn_failure, visible_locales, AppState, ContextPage,
    DbusFailure, Effect, FileRead, LcOverrides, LocaleCode, LocaleError, LocalePreview,
    LocaleSource, Message, Page, PickerState, PickerTarget, LOCALE_GEN_PATH,
};

fn chars(s: &str) -> Vec<char> {
    s.chars().collect()
}

fn strings(v: &[&str]) -> Vec<String> {
    v.iter().map(|s| s.to_string()).collect()
}

#[test]
fn whitespace_and_control_classes_agree_with_std() {
    for u in 0u32..=0x10FFFF {
        if let Some(c) = char::from_u32(u) {
            assert_eq!(is_whitespace(c), c.is_whitespace(), "U+{u:04X}");
            assert_eq!(is_control(c), c.is_control(), "U+{u:04X}");
        }
    }
}

#[test]
fn trimming_agrees_with_std() {
    for s in ["", "  ", " a ", "\u{3000}x\u{a0}", "\t en_US \r\n", "a b", "\u{85}b"] {
        assert_eq!(trim_str(s), s.trim());
    }
}

#[test]
fn line_splitting_agrees_with_std() {
    for s in [
        "", "\n", "\n\n", "a", "a\n", "a\nb", "a\r\nb\r\n", "a\r", "a\r\r\n", "x\n\ny\n", "\r\n",
    ] {
        let got: Vec<String> = split_lines(&chars(s)).iter().map(|l| l.iter().collect()).collect();
        let want: Vec<String> = s.lines().map(|l| l.to_string()).collect();
        assert_eq!(got, want, "{s:?}");
    }
}

#[test]
fn word_splitting_agrees_with_std() {
    for s in ["", "  ", "a", " a  b\tc ", "en_US.UTF-8 UTF-8", "x\u{2003}y"] {
        let got: Vec<String> = split_words(&chars(s)).iter().map(|w| w.iter().collect()).collect();
        let want: Vec<String> = s.split_whitespace().map(|w| w.to_string()).collect();
        assert_eq!(got, want, "{s:?}");
    }
}

#[test]
fn chars_of_keeps_every_character() {
    assert_eq!(chars_of("añ€😀"), vec!['a', 'ñ', '€', '😀']);
}

#[test]
fn locale_code_rejects_control_characters() {
    assert!(LocaleCode::new("en_US\u{7}").is_none());
    assert!(LocaleCode::new("\u{85}").is_none());
    assert_eq!(LocaleCode::new("\u{3000}fr_FR\u{3000}").unwrap().as_str(), "fr_FR");
}

#[test]
fn strip_quotes_removes_one_matching_pair() {
    let s = |x: &str| strip_quotes(&chars(x)).into_iter().collect::<String>();
    assert_eq!(s("\"a\""), "a");
    assert_eq!(s("'a'"), "a");
    assert_eq!(s("\"a'"), "\"a'");
    assert_eq!(s("\""), "\"");
    assert_eq!(s("\"\""), "");
    assert_eq!(s("\"\"a\"\""), "\"a\"");
}

#[test]
fn parse_later_line_wins_and_invalid_lang_is_dropped() {
    let s = parse_default_locale("LANG=en_US.UTF-8\nLC_TIME=a\nLC_TIME=b\n");
    assert_eq!(s.lc_overrides.get("LC_TIME").unwrap().as_str(), "b");
    let s = parse_default_locale("LANG=en_US.UTF-8\nLANG=has space\n");
    assert_eq!(s.lang.as_ref().unwrap().as_str(), "en_US.UTF-8");
    let s = parse_default_locale("LANG=de_DE.UTF-8\nLANG=fr_FR.UTF-8\n");
    assert_eq!(s.lang.as_ref().unwrap().as_str(), "fr_FR.UTF-8");
}

#[test]
fn parse_empty_lang_keeps_earlier_value() {
    let s = parse_default_locale("LANG=en_US.UTF-8\nLANG=\n");
    assert_eq!(s.lang.as_ref().unwrap().as_str(), "en_US.UTF-8");
    let s = parse_default_locale("LANG=\n");
    assert!(s.lang.is_none());
    let s = parse_default_locale("LC_TIME=de_DE.UTF-8\nLC_TIME=\"\"\n");
    assert_eq!(s.lc_overrides.get("LC_TIME").unwrap().as_str(), "de_DE.UTF-8");
}

#[test]
fn parse_handles_crlf_and_spaced_keys() {
    let s = parse_default_locale("export  LANG = \"de_DE.UTF-8\" \r\n  LC_PAPER = 'en_GB.UTF-8'\r\n");
    assert_eq!(s.lang.as_ref().unwrap().as_str(), "de_DE.UTF-8");
    assert_eq!(s.lc_overrides.get("LC_PAPER").unwrap().as_str(), "en_GB.UTF-8");
}

#[test]
fn parse_ignores_empty_language() {
    let s = parse_default_locale("LANGUAGE=\nLANGUAGE=''\n");
    assert!(s.language.is_none());
    assert!(s.lc_overrides.is_empty());
}

#[test]
fn overrides_iterate_in_key_order() {
    let mut o = LcOverrides::new();
    for (k, v) in [("LC_TIME", "a"), ("LC_ADDRESS", "b"), ("LC_NUMERIC", "c"), ("LC_ADDRESS", "d")] {
        o.insert(k.to_string(), LocaleCode::new(v).unwrap());
    }
    let keys: Vec<&str> = o.pairs().iter().map(|(k, _)| k.as_str()).collect();
    assert_eq!(keys, vec!["LC_ADDRESS", "LC_NUMERIC", "LC_TIME"]);
    assert_eq!(o.get("LC_ADDRESS").unwrap().as_str(), "d");
    assert_eq!(o.len(), 3);
    assert!(o.get("LC_CTYPE").is_none());
    assert_eq!(o.clone().len(), 3);
}

#[test]
fn real_overrides_hide_values_equal_to_lang() {
    let s = parse_default_locale("LANG=en_US.UTF-8\nLC_TIME=en_US.UTF-8\nLC_PAPER=de_DE.UTF-8\n");
    let real = real_overrides(&s);
    assert_eq!(real, vec![("LC_PAPER".to_string(), "de_DE.UTF-8".to_string())]);
    let s = parse_default_locale("LC_TIME=en_US.UTF-8\n");
    assert_eq!(real_overrides(&s).len(), 1);
}

#[test]
fn settings_from_env_reads_lang_language_and_lc_vars() {
    let s = settings_from_env(
        Some(" en_US.UTF-8 ".to_string()),
        Some(String::new()),
        vec![
            ("PATH".to_string(), "/usr/bin".to_string()),
            ("LC_TIME".to_string(), "en_DK.UTF-8".to_string()),
            ("LC_BAD".to_string(), "has space".to_string()),
            ("LANG".to_string(), "ignored here".to_string()),
        ],
    );
    assert_eq!(s.lang.as_ref().unwrap().as_str(), "en_US.UTF-8");
    assert!(s.language.is_none());
    assert_eq!(s.lc_overrides.len(), 1);
    assert_eq!(s.lc_overrides.get("LC_TIME").unwrap().as_str(), "en_DK.UTF-8");
    let s = settings_from_env(None, Some("en:de".to_string()), vec![]);
    assert!(s.lang.is_none());
    assert_eq!(s.language.as_deref(), Some("en:de"));
}

#[test]
fn config_read_step_decides_by_outcome() {
    assert!(config_read_step("/etc/default/locale", FileRead::NotFound).is_none());
    match config_read_step("/etc/locale.conf", FileRead::Contents("LANG=C\n".to_string())) {
        Some(Ok(loaded)) => {
            assert_eq!(loaded.settings.lang.unwrap().as_str(), "C");
            assert!(matches!(loaded.source, LocaleSource::File(p) if p == "/etc/locale.conf"));
        }
        other => panic!("unexpected {other:?}"),
    }
    match config_read_step("/etc/locale.conf", FileRead::Failed("denied".to_string())) {
        Some(Err(LocaleError::ReadConfig { path, source })) => {
            assert_eq!(path, "/etc/locale.conf");
            assert_eq!(source, "denied");
        }
        other => panic!("unexpected {other:?}"),
    }
}

#[test]
fn locale_gen_from_read_decides_by_outcome() {
    let g = locale_gen_from_read(FileRead::NotFound).unwrap();
    assert_eq!(render_locale_gen(&g), "");
    let g = locale_gen_from_read(FileRead::Contents("de_DE.UTF-8 UTF-8\n".to_string())).unwrap();
    assert_eq!(g.entries().len(), 1);
    match locale_gen_from_read(FileRead::Failed("io".to_string())) {
        Err(LocaleError::ReadConfig { path, .. }) => assert_eq!(path, LOCALE_GEN_PATH),
        other => panic!("unexpected {other:?}"),
    }
}

#[test]
fn locale_gen_toggle_twice_restores_file() {
    let input = "# header\nen_US.UTF-8 UTF-8\n# de_DE.UTF-8 UTF-8\n";
    let mut g = parse_locale_gen(input);
    g.toggle(2);
    assert_eq!(render_locale_gen(&g), "# header\nen_US.UTF-8 UTF-8\nde_DE.UTF-8 UTF-8\n");
    g.toggle(2);
    assert_eq!(render_locale_gen(&g), input);
    g.toggle(0);
    assert_eq!(render_locale_gen(&g), input);
}

#[test]
fn locale_gen_render_keeps_one_line_per_parsed_line() {
    let input = "# header\r\n  en_US.UTF-8   UTF-8\r\n\n#de_DE.UTF-8 UTF-8\nlast line\r";
    let out = render_locale_gen(&parse_locale_gen(input));
    assert_eq!(out.lines().count(), input.lines().count());
    assert!(out.ends_with('\n'));
    assert_eq!(out, "# header\nen_US.UTF-8 UTF-8\n\n# de_DE.UTF-8 UTF-8\nlast line\r\n");
    let lines: Vec<&str> = out.lines().collect();
    assert_eq!(lines, vec!["# header", "en_US.UTF-8 UTF-8", "", "# de_DE.UTF-8 UTF-8", "last line"]);
}

#[test]
fn locale_gen_normalises_once() {
    let input = "  #en_US.UTF-8   UTF-8\n\tde_DE.UTF-8\tUTF-8\nnot one\nlast line no newline";
    let once = render_locale_gen(&parse_locale_gen(input));
    assert_eq!(
        once,
        "# en_US.UTF-8 UTF-8\nde_DE.UTF-8 UTF-8\nnot one\nlast line no newline\n"
    );
    let twice = render_locale_gen(&parse_locale_gen(&once));
    assert_eq!(twice, once);
    assert!(parse_locale_gen(&once).same_as(&parse_locale_gen(input)));
}

#[test]
fn locale_gen_rejects_three_words_and_bad_shapes() {
    let g = parse_locale_gen("en_US UTF-8 extra\nEN_US UTF-8\nen_US utf-8\n## en_US UTF-8\n");
    assert!(g.entries().is_empty());
}

#[test]
fn category_set_twice_is_once() {
    let current = strings(&["LANG=C", "LC_TIME=x", "LC_TIME=y"]);
    let once = build_category_set(&current, "LC_TIME", "z");
    assert_eq!(once, strings(&["LANG=C", "LC_TIME=z", "LC_TIME=z"]));
    assert_eq!(build_category_set(&once, "LC_TIME", "z"), once);
}

#[test]
fn reset_twice_is_once() {
    let current = strings(&["LC_TIME=da_DK.utf8", "LANGUAGE=en", "LANG=en_US.UTF-8", "LC_PAPER=x"]);
    let once = build_reset_locale(&current).unwrap();
    assert_eq!(
        once,
        strings(&["LANG=en_US.UTF-8", "LC_TIME=en_US.UTF-8", "LC_PAPER=en_US.UTF-8"])
    );
    assert_eq!(build_reset_locale(&once).unwrap(), once);
}

#[test]
fn reset_uses_first_lang_and_skips_entries_without_equals() {
    let current = strings(&["LANG=a", "LANG=b", "LC_X", "LC_Y=1"]);
    assert_eq!(build_reset_locale(&current).unwrap(), strings(&["LANG=a", "LC_Y=a"]));
    match build_reset_locale(&[]) {
        Err(LocaleError::Daemon(m)) => assert_eq!(m, "system has no LANG configured"),
        other => panic!("unexpected {other:?}"),
    }
}

#[test]
fn language_locale_sets_lang_and_every_lc_entry() {
    let current = strings(&["LANG=en_US.UTF-8", "LC_TIME=da_DK.utf8"]);
    assert_eq!(
        build_language_locale(&current, "fr_FR.UTF-8"),
        strings(&["LANG=fr_FR.UTF-8", "LC_TIME=fr_FR.UTF-8"])
    );
}

#[test]
fn pseudo_and_utf8_detection() {
    assert!(is_pseudo_locale(&chars("c.utf8")));
    assert!(is_pseudo_locale(&chars("Posix")));
    assert!(!is_pseudo_locale(&chars("ca_ES.UTF-8")));
    assert!(is_utf8_locale(&chars("de_DE.UTF-8@euro")));
    assert!(is_utf8_locale(&chars("x.U-T-F-8")));
    assert!(!is_utf8_locale(&chars("en_US")));
    assert!(!is_utf8_locale(&chars("fr_FR.iso88591")));
}

#[test]
fn pkexec_errors_are_classified() {
    assert!(matches!(classify_pkexec_error("whatever", 126), LocaleError::Cancelled));
    assert!(matches!(
        classify_pkexec_error("Error: NOT AUTHORIZED\n", 127),
        LocaleError::Cancelled
    ));
    assert!(matches!(
        classify_pkexec_error("  Authentication Failed  ", 1),
        LocaleError::Cancelled
    ));
    assert!(matches!(classify_pkexec_error("Dialog dismissed", 1), LocaleError::Cancelled));
    match classify_pkexec_error("  locale-gen: boom \n", 3) {
        LocaleError::CommandFailed { command, status, stderr } => {
            assert_eq!(command, "pkexec");
            assert_eq!(status, 3);
            assert_eq!(stderr, "locale-gen: boom");
        }
        other => panic!("unexpected {other:?}"),
    }
}

#[test]
fn dbus_errors_are_classified() {
    let refused = DbusFailure {
        method_error: Some("org.freedesktop.PolicyKit1.Error.NotAuthorized".to_string()),
        message: "no".to_string(),
    };
    assert!(matches!(dbus_to_locale_error(&refused), LocaleError::Cancelled));
    let denied = DbusFailure {
        method_error: Some("org.freedesktop.DBus.Error.AccessDenied".to_string()),
        message: "no".to_string(),
    };
    assert!(matches!(dbus_to_locale_error(&denied), LocaleError::Cancelled));
    let other = DbusFailure { method_error: None, message: "bus down".to_string() };
    match dbus_to_locale_error(&other) {
        LocaleError::Daemon(m) => assert_eq!(m, "bus down"),
        e => panic!("unexpected {e:?}"),
    }
    let failed = DbusFailure {
        method_error: Some("org.freedesktop.DBus.Error.Failed".to_string()),
        message: "x".to_string(),
    };
    assert!(matches!(dbus_to_locale_error(&failed), LocaleError::Daemon(_)));
}

#[test]
fn subprocess_failures_carry_their_details() {
    match command_failure("locale -a", None, " oops\n") {
        LocaleError::CommandFailed { command, status, stderr } => {
            assert_eq!(command, "locale -a");
            assert_eq!(status, -1);
            assert_eq!(stderr, "oops");
        }
        other => panic!("unexpected {other:?}"),
    }
    match spawn_failure("locale", "not found".to_string()) {
        LocaleError::CommandSpawnFailed { command, source } => {
            assert_eq!(command, "locale");
            assert_eq!(source, "not found");
        }
        other => panic!("unexpected {other:?}"),
    }
}

fn codes(v: &[&str]) -> Vec<LocaleCode> {
    v.iter().map(|s| LocaleCode::new(s).unwrap()).collect()
}

#[test]
fn management_rows_match_search_case_insensitively() {
    let g = parse_locale_gen("de_DE.UTF-8 UTF-8\n# en_US ISO-8859-1\n");
    let rows = g.entries();
    assert!(entry_shown(rows[0].1, ""));
    assert!(entry_shown(rows[0].1, "de_de"));
    assert!(entry_shown(rows[1].1, "iso-8859"));
    assert!(!entry_shown(rows[1].1, "utf"));
}

#[test]
fn picker_search_is_case_insensitive() {
    let available = codes(&["de_DE.UTF-8", "en_US.UTF-8", "fr_FR.UTF-8"]);
    assert_eq!(visible_locales(&available, ""), vec![0, 1, 2]);
    assert_eq!(visible_locales(&available, "de_de"), vec![0]);
    assert_eq!(visible_locales(&available, "UTF"), vec![0, 1, 2]);
    assert_eq!(visible_locales(&available, "zz"), Vec::<usize>::new());
}

fn picker(selected: &str, initial: &str, in_flight: bool) -> PickerState {
    PickerState {
        target: PickerTarget::Category("LC_TIME".to_string()),
        initial_value: initial.to_string(),
        selected: selected.to_string(),
        search: String::new(),
        in_flight,
        last_error: None,
        preview: None,
    }
}

fn preview(locale: &str) -> LocalePreview {
    LocalePreview {
        locale: locale.to_string(),
        date: "d".to_string(),
        time: "t".to_string(),
        datetime: "dt".to_string(),
        number: "n".to_string(),
    }
}

#[test]
fn picker_apply_button_and_preview() {
    assert!(!apply_enabled(&None));
    assert!(!apply_enabled(&Some(picker("a", "a", false))));
    assert!(!apply_enabled(&Some(picker("b", "a", true))));
    assert!(apply_enabled(&Some(picker("b", "a", false))));
    let mut p = picker("b", "a", false);
    p.preview = Some(preview("a"));
    assert!(preview_for(&p).is_none());
    p.preview = Some(preview("b"));
    assert_eq!(preview_for(&p).unwrap().locale, "b");
}

fn loaded_with_override() -> Message {
    Message::CurrentLocaleLoaded(
        config_read_step(
            "/etc/locale.conf",
            FileRead::Contents("LANG=en_US.UTF-8\nLC_TIME=en_DK.UTF-8\n".to_string()),
        )
        .unwrap(),
    )
}

#[test]
fn app_starts_loading_everything() {
    let (state, effects) = AppState::init(false);
    assert!(state.current_locale.is_none());
    assert!(!state.helper_installed);
    assert_eq!(state.context_page, ContextPage::About);
    assert!(matches!(
        effects.as_slice(),
        [Effect::ReadDefaultLocale, Effect::ListInstalledLocales, Effect::ReadLocaleGen]
    ));
}

#[test]
fn app_reset_is_submitted_once() {
    let (mut state, _) = AppState::init(true);
    assert!(state.update(Message::ResetLcOverrides).is_none());
    assert!(state.update(loaded_with_override()).is_none());
    assert!(matches!(state.update(Message::ResetLcOverrides), Some(Effect::ResetLcOverrides)));
    assert!(state.reset_in_flight);
    assert!(state.update(Message::ResetLcOverrides).is_none());
    assert!(state
        .update(Message::LcOverridesReset(Err(LocaleError::Cancelled)))
        .is_none());
    assert!(!state.reset_in_flight);
    assert!(matches!(state.last_reset_error, Some(LocaleError::Cancelled)));
    assert!(matches!(state.update(Message::ResetLcOverrides), Some(Effect::ResetLcOverrides)));
    assert!(state.last_reset_error.is_none());
    assert!(matches!(
        state.update(Message::LcOverridesReset(Ok(()))),
        Some(Effect::ReadDefaultLocale)
    ));
}

#[test]
fn app_reset_refused_for_environment_settings() {
    let (mut state, _) = AppState::init(true);
    let settings = parse_default_locale("LC_TIME=en_DK.UTF-8\n");
    state.update(Message::CurrentLocaleLoaded(Ok(cosmic_locale::LoadedLocale {
        settings,
        source: LocaleSource::Environment,
    })));
    assert!(state.update(Message::ResetLcOverrides).is_none());
    assert!(!state.reset_in_flight);
}

#[test]
fn app_picker_flow() {
    let (mut state, _) = AppState::init(true);
    let e = state.update(Message::OpenLocalePicker {
        target: PickerTarget::Category("LC_TIME".to_string()),
        current: "en_US.UTF-8".to_string(),
    });
    assert!(matches!(e, Some(Effect::PreviewLocale(v)) if v == "en_US.UTF-8"));
    assert!(state.show_context);
    assert_eq!(state.context_page, ContextPage::LocalePicker);
    assert!(state.update(Message::CategoryPickerApply).is_none());
    assert!(state.update(Message::CategoryPickerSelect("en_US.UTF-8".to_string())).is_none());
    let e = state.update(Message::CategoryPickerSelect("de_DE.UTF-8".to_string()));
    assert!(matches!(e, Some(Effect::PreviewLocale(v)) if v == "de_DE.UTF-8"));
    state.update(Message::PreviewLoaded(preview("en_US.UTF-8")));
    assert!(state.picker.as_ref().unwrap().preview.is_none());
    state.update(Message::PreviewLoaded(preview("de_DE.UTF-8")));
    assert!(state.picker.as_ref().unwrap().preview.is_some());
    state.update(Message::CategoryPickerSearch("de".to_string()));
    assert_eq!(state.picker.as_ref().unwrap().search, "de");
    let e = state.update(Message::CategoryPickerApply);
    assert!(matches!(
        e,
        Some(Effect::SetCategory { category, value }) if category == "LC_TIME" && value == "de_DE.UTF-8"
    ));
    assert!(state.update(Message::CategoryPickerApply).is_none());
    state.update(Message::CategoryUpdated(Err(LocaleError::Daemon("x".to_string()))));
    let p = state.picker.as_ref().unwrap();
    assert!(!p.in_flight);
    assert!(matches!(p.last_error, Some(LocaleError::Daemon(_))));
    let e = state.update(Message::CategoryUpdated(Ok(())));
    assert!(matches!(e, Some(Effect::ReadDefaultLocale)));
    assert!(state.picker.is_none());
    assert!(!state.show_context);
}

#[test]
fn app_system_language_picker_applies_language() {
    let (mut state, _) = AppState::init(true);
    state.update(Message::OpenLocalePicker {
        target: PickerTarget::SystemLanguage,
        current: "en_US.UTF-8".to_string(),
    });
    state.update(Message::CategoryPickerSelect("fr_FR.UTF-8".to_string()));
    let e = state.update(Message::CategoryPickerApply);
    assert!(matches!(e, Some(Effect::SetSystemLanguage(v)) if v == "fr_FR.UTF-8"));
    state.update(Message::CategoryPickerCancel);
    assert!(state.picker.is_none());
}

#[test]
fn app_locale_gen_flow() {
    let (mut state, _) = AppState::init(true);
    assert!(matches!(
        state.update(Message::LocaleGenApplied(Ok(()))),
        Some(Effect::ListInstalledLocales)
    ));
    state.update(Message::LocaleGenLoaded(Ok(parse_locale_gen(
        "en_US.UTF-8 UTF-8\n# de_DE.UTF-8 UTF-8\n",
    ))));
    assert!(state.update(Message::LocaleGenApply).is_none());
    state.update(Message::LocaleGenToggle(1));
    let st = state.locale_gen.as_ref().unwrap().as_ref().unwrap();
    assert!(st.is_dirty());
    let e = state.update(Message::LocaleGenApply);
    match e {
        Some(Effect::ApplyLocaleGen(g)) => {
            assert_eq!(render_locale_gen(&g), "en_US.UTF-8 UTF-8\nde_DE.UTF-8 UTF-8\n")
        }
        other => panic!("unexpected {other:?}"),
    }
    assert!(state.update(Message::LocaleGenApply).is_none());
    assert!(state
        .update(Message::LocaleGenApplied(Err(LocaleError::Cancelled)))
        .is_none());
    let st = state.locale_gen.as_ref().unwrap().as_ref().unwrap();
    assert!(!st.in_flight && st.is_dirty());
    state.update(Message::LocaleGenApply);
    assert!(matches!(
        state.update(Message::LocaleGenApplied(Ok(()))),
        Some(Effect::ListInstalledLocales)
    ));
    let st = state.locale_gen.as_ref().unwrap().as_ref().unwrap();
    assert!(!st.is_dirty());
    state.update(Message::LocaleGenToggle(1));
    state.update(Message::LocaleGenToggle(1));
    assert!(!state.locale_gen.as_ref().unwrap().as_ref().unwrap().is_dirty());
    state.update(Message::LocaleGenSearch("de".to_string()));
    assert_eq!(state.locale_gen.as_ref().unwrap().as_ref().unwrap().search, "de");
}

#[test]
fn app_context_page_toggles() {
    let (mut state, _) = AppState::init(true);
    state.update(Message::ToggleContextPage(ContextPage::About));
    assert!(state.show_context);
    state.update(Message::ToggleContextPage(ContextPage::About));
    assert!(!state.show_context);
    state.update(Message::ToggleContextPage(ContextPage::LocalePicker));
    assert!(state.show_context);
    assert_eq!(state.context_page, ContextPage::LocalePicker);
    assert!(matches!(
        state.update(Message::SelectPage(Page::LocaleManagement)),
        Some(Effect::SelectPage(Page::LocaleManagement))
    ));
    assert!(matches!(
        state.update(Message::LaunchUrl("https://x".to_string())),
        Some(Effect::OpenUrl(u)) if u == "https://x"
    ));
    state.update(Message::AvailableLocalesLoaded(Ok(codes(&["en_US.UTF-8"]))));
    assert!(state.available_locales.is_some());
}

#[test]
fn lex_order_agrees_with_string_ord() {
    let words = ["", "a", "b", "ab", "aa", "a\u{e9}", "a\u{ffff}", "a\u{10000}", "Z", "\u{7f}", "\u{80}"];
    for x in words {
        for y in words {
            let c = cosmic_locale::text::compare_chars(&chars(x), &chars(y));
            let want = match x.cmp(y) {
                std::cmp::Ordering::Less => -1,
                std::cmp::Ordering::Equal => 0,
                std::cmp::Ordering::Greater => 1,
            };
            assert_eq!(c.signum(), want, "{x:?} {y:?}");
        }
    }
}

#[test]
fn locale_gen_clone_and_comparison() {
    let g = parse_locale_gen("# hi\nen_US.UTF-8 UTF-8\n");
    let mut h = g.clone();
    assert!(g.same_as(&h));
    h.toggle(1);
    assert!(!g.same_as(&h));
    assert_eq!(render_locale_gen(&h), "# hi\n# en_US.UTF-8 UTF-8\n");
    assert_eq!(render_locale_gen(&g), "# hi\nen_US.UTF-8 UTF-8\n");
}
