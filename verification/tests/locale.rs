use cosmic_locale::{
    build_category_set, build_reset_locale, effective_categories, parse_default_locale,
    parse_locale_a, parse_locale_gen, render_locale_gen, CategorySource, LocaleCode, LocaleError,
    LocaleSettings, LC_CATEGORIES,
};

#[test]
fn locale_code_rejects_empty_and_whitespace() {
    assert!(LocaleCode::new("").is_none());
    assert!(LocaleCode::new("   ").is_none());
    assert!(LocaleCode::new("en US").is_none());
    assert!(LocaleCode::new("en\tUS").is_none());
}

#[test]
fn locale_code_accepts_typical_codes() {
    assert_eq!(
        LocaleCode::new("en_US.UTF-8").unwrap().as_str(),
        "en_US.UTF-8"
    );
    assert_eq!(LocaleCode::new("C").unwrap().as_str(), "C");
    assert_eq!(LocaleCode::new("POSIX").unwrap().as_str(), "POSIX");
    assert_eq!(
        LocaleCode::new("de_DE@euro").unwrap().as_str(),
        "de_DE@euro"
    );
}

#[test]
fn locale_code_trims() {
    assert_eq!(
        LocaleCode::new("  en_US.UTF-8  ").unwrap().as_str(),
        "en_US.UTF-8"
    );
}

fn assert_empty(s: &LocaleSettings) {
    assert!(s.lang.is_none());
    assert!(s.language.is_none());
    assert!(s.lc_overrides.is_empty());
}

#[test]
fn parse_handles_empty_input() {
    assert_empty(&parse_default_locale(""));
}

#[test]
fn parse_handles_only_comments_and_blanks() {
    let input = "\
# comment
   # indented comment

\t
";
    assert_empty(&parse_default_locale(input));
}

#[test]
fn parse_extracts_lang_and_lc_overrides() {
    let input = "\
LANG=en_US.UTF-8
LC_TIME=en_DK.UTF-8
LC_NUMERIC=de_DE.UTF-8
";
    let s = parse_default_locale(input);
    assert_eq!(s.lang.as_ref().unwrap().as_str(), "en_US.UTF-8");
    assert_eq!(
        s.lc_overrides.get("LC_TIME").unwrap().as_str(),
        "en_DK.UTF-8"
    );
    assert_eq!(
        s.lc_overrides.get("LC_NUMERIC").unwrap().as_str(),
        "de_DE.UTF-8"
    );
    assert!(s.language.is_none());
}

#[test]
fn parse_strips_double_and_single_quotes() {
    let input = "\
LANG=\"en_US.UTF-8\"
LC_TIME='en_DK.UTF-8'
";
    let s = parse_default_locale(input);
    assert_eq!(s.lang.as_ref().unwrap().as_str(), "en_US.UTF-8");
    assert_eq!(
        s.lc_overrides.get("LC_TIME").unwrap().as_str(),
        "en_DK.UTF-8"
    );
}

#[test]
fn parse_handles_export_prefix() {
    let input = "export LANG=en_US.UTF-8\n";
    let s = parse_default_locale(input);
    assert_eq!(s.lang.as_ref().unwrap().as_str(), "en_US.UTF-8");
}

#[test]
fn parse_captures_language_as_raw_string() {
    let input = "LANGUAGE=en_US:en\n";
    let s = parse_default_locale(input);
    assert_eq!(s.language.as_deref(), Some("en_US:en"));
    assert!(s.lang.is_none());
}

#[test]
fn parse_skips_invalid_locale_codes() {
    let input = "\
LANG=en_US.UTF-8
LC_TIME=
LC_NUMERIC=\"\"
LC_GARBAGE=has space
";
    let s = parse_default_locale(input);
    assert_eq!(s.lang.as_ref().unwrap().as_str(), "en_US.UTF-8");
    assert!(s.lc_overrides.is_empty());
}

#[test]
fn parse_ignores_unknown_keys() {
    let input = "\
PATH=/usr/bin
HOME=/home/user
LANG=en_US.UTF-8
";
    let s = parse_default_locale(input);
    assert_eq!(s.lang.as_ref().unwrap().as_str(), "en_US.UTF-8");
    assert!(s.lc_overrides.is_empty());
}

#[test]
fn parse_skips_lines_without_equals() {
    let input = "\
this is not a config line
LANG=en_US.UTF-8
";
    let s = parse_default_locale(input);
    assert_eq!(s.lang.as_ref().unwrap().as_str(), "en_US.UTF-8");
}

#[test]
fn settings_default_is_empty() {
    assert_empty(&LocaleSettings::default());
}

#[test]
fn build_reset_sets_each_lc_to_lang_value() {
    let current = vec![
        "LANG=en_US.UTF-8".to_string(),
        "LC_TIME=da_DK.utf8".to_string(),
        "LC_NUMERIC=de_DE.utf8".to_string(),
    ];

    let result = build_reset_locale(&current).unwrap();

    assert_eq!(
        result,
        vec![
            "LANG=en_US.UTF-8".to_string(),
            "LC_TIME=en_US.UTF-8".to_string(),
            "LC_NUMERIC=en_US.UTF-8".to_string(),
        ]
    );
}

#[test]
fn build_reset_keeps_lang_when_no_overrides_present() {
    let current = vec!["LANG=en_US.UTF-8".to_string()];
    let result = build_reset_locale(&current).unwrap();
    assert_eq!(result, vec!["LANG=en_US.UTF-8".to_string()]);
}

#[test]
fn build_reset_errors_when_lang_missing() {
    let current = vec!["LC_TIME=da_DK.utf8".to_string()];
    let result = build_reset_locale(&current);
    assert!(matches!(result, Err(LocaleError::Daemon(_))));
}

fn lang(value: &str) -> LocaleCode {
    LocaleCode::new(value).unwrap()
}

#[test]
fn effective_returns_all_twelve_categories_in_order() {
    let settings = LocaleSettings::default();
    let result = effective_categories(&settings);
    assert_eq!(result.len(), LC_CATEGORIES.len());
    for (view, expected_name) in result.iter().zip(LC_CATEGORIES.iter()) {
        assert_eq!(view.name, *expected_name);
    }
}

#[test]
fn effective_inherits_from_lang_when_no_overrides() {
    let mut settings = LocaleSettings::default();
    settings.lang = Some(lang("en_US.UTF-8"));

    for view in effective_categories(&settings) {
        assert_eq!(view.value, "en_US.UTF-8");
        assert_eq!(view.source, CategorySource::Inherited);
    }
}

#[test]
fn effective_marks_explicit_overrides() {
    let mut settings = LocaleSettings::default();
    settings.lang = Some(lang("en_US.UTF-8"));
    settings
        .lc_overrides
        .insert("LC_TIME".to_string(), lang("en_DK.UTF-8"));
    settings
        .lc_overrides
        .insert("LC_NUMERIC".to_string(), lang("de_DE.UTF-8"));

    let by_name: std::collections::HashMap<_, _> = effective_categories(&settings)
        .into_iter()
        .map(|v| (v.name, v))
        .collect();

    let lc_time = &by_name["LC_TIME"];
    assert_eq!(lc_time.value, "en_DK.UTF-8");
    assert_eq!(lc_time.source, CategorySource::Override);

    let lc_numeric = &by_name["LC_NUMERIC"];
    assert_eq!(lc_numeric.value, "de_DE.UTF-8");
    assert_eq!(lc_numeric.source, CategorySource::Override);

    // Categories without an override should inherit LANG.
    let lc_ctype = &by_name["LC_CTYPE"];
    assert_eq!(lc_ctype.value, "en_US.UTF-8");
    assert_eq!(lc_ctype.source, CategorySource::Inherited);
}

#[test]
fn effective_falls_back_to_c_when_nothing_set() {
    let settings = LocaleSettings::default();
    for view in effective_categories(&settings) {
        assert_eq!(view.value, "C");
        assert_eq!(view.source, CategorySource::Default);
    }
}

#[test]
fn locale_gen_parses_enabled_and_disabled() {
    let input = "\
# This file lists locales that you wish to have built.
en_US.UTF-8 UTF-8
# en_GB.UTF-8 UTF-8
de_DE.UTF-8 UTF-8
";
    let parsed = parse_locale_gen(input);
    let entries: Vec<_> = parsed.entries().into_iter().map(|(_, e)| e).collect();
    assert_eq!(entries.len(), 3);
    assert_eq!(entries[0].code, "en_US.UTF-8");
    assert!(entries[0].enabled);
    assert_eq!(entries[1].code, "en_GB.UTF-8");
    assert!(!entries[1].enabled);
    assert_eq!(entries[2].code, "de_DE.UTF-8");
    assert!(entries[2].enabled);
}

#[test]
fn locale_gen_round_trips_unchanged_input() {
    let input = "\
# Header comment
en_US.UTF-8 UTF-8
# en_GB.UTF-8 UTF-8

# Trailing block
de_DE.UTF-8 UTF-8
";
    let parsed = parse_locale_gen(input);
    let rendered = render_locale_gen(&parsed);
    assert_eq!(rendered, input);
}

#[test]
fn locale_gen_toggle_flips_only_target() {
    let input = "\
en_US.UTF-8 UTF-8
# en_GB.UTF-8 UTF-8
";
    let mut parsed = parse_locale_gen(input);
    let target_index = parsed
        .entries()
        .into_iter()
        .find(|(_, e)| e.code == "en_GB.UTF-8")
        .map(|(i, _)| i)
        .unwrap();
    parsed.toggle(target_index);

    let rendered = render_locale_gen(&parsed);
    assert_eq!(rendered, "en_US.UTF-8 UTF-8\nen_GB.UTF-8 UTF-8\n");
}

#[test]
fn locale_gen_preserves_non_entry_lines_verbatim() {
    let input = "\
## A header with double-hash that isn't a locale entry
   # Indented comment with weirdness
not a locale line at all
en_US.UTF-8 UTF-8
";
    let parsed = parse_locale_gen(input);
    let rendered = render_locale_gen(&parsed);
    assert_eq!(rendered, input);
    // Only one toggleable entry survived parsing.
    assert_eq!(parsed.entries().into_iter().count(), 1);
}

#[test]
fn locale_gen_handles_multi_charset_for_same_base() {
    let input = "\
# en_US ISO-8859-1
en_US.UTF-8 UTF-8
";
    let parsed = parse_locale_gen(input);
    let entries: Vec<_> = parsed.entries().into_iter().map(|(_, e)| e).collect();
    assert_eq!(entries.len(), 2);
    assert_eq!(entries[0].code, "en_US");
    assert_eq!(entries[0].charset, "ISO-8859-1");
    assert!(!entries[0].enabled);
    assert_eq!(entries[1].code, "en_US.UTF-8");
    assert!(entries[1].enabled);
}

#[test]
fn locale_gen_toggle_out_of_bounds_is_noop() {
    let mut parsed = parse_locale_gen("en_US.UTF-8 UTF-8\n");
    parsed.toggle(99);
    let rendered = render_locale_gen(&parsed);
    assert_eq!(rendered, "en_US.UTF-8 UTF-8\n");
}

#[test]
fn build_category_set_replaces_existing() {
    let current = vec![
        "LANG=en_US.UTF-8".to_string(),
        "LC_TIME=da_DK.utf8".to_string(),
        "LC_NUMERIC=de_DE.utf8".to_string(),
    ];
    let result = build_category_set(&current, "LC_TIME", "fr_FR.UTF-8");
    assert_eq!(
        result,
        vec![
            "LANG=en_US.UTF-8".to_string(),
            "LC_TIME=fr_FR.UTF-8".to_string(),
            "LC_NUMERIC=de_DE.utf8".to_string(),
        ]
    );
}

#[test]
fn build_category_set_appends_when_absent() {
    let current = vec!["LANG=en_US.UTF-8".to_string()];
    let result = build_category_set(&current, "LC_TIME", "en_DK.UTF-8");
    assert_eq!(
        result,
        vec![
            "LANG=en_US.UTF-8".to_string(),
            "LC_TIME=en_DK.UTF-8".to_string(),
        ]
    );
}

#[test]
fn parse_locale_a_filters_pseudo_and_non_utf8() {
    let output = "
C
C.UTF-8
POSIX
en_US
en_US.UTF-8
de_DE.utf8
fr_FR.iso88591
de_DE.UTF-8@euro
";
    let result = parse_locale_a(output);
    let codes: Vec<&str> = result.iter().map(LocaleCode::as_str).collect();
    // C* and POSIX dropped; en_US has no codeset → dropped; iso88591 → dropped.
    // de_DE.utf8 and de_DE.UTF-8@euro both pass (utf8 normalisation).
    assert!(codes.contains(&"en_US.UTF-8"));
    assert!(codes.contains(&"de_DE.utf8"));
    assert!(codes.contains(&"de_DE.UTF-8@euro"));
    assert!(!codes.iter().any(|c| c.starts_with('C')));
    assert!(!codes.contains(&"POSIX"));
    assert!(!codes.contains(&"en_US"));
    assert!(!codes.contains(&"fr_FR.iso88591"));
}

#[test]
fn parse_locale_a_dedupes_and_sorts() {
    let output = "fr_FR.UTF-8\nde_DE.UTF-8\nfr_FR.UTF-8\nen_US.UTF-8\n";
    let result = parse_locale_a(output);
    let codes: Vec<&str> = result.iter().map(LocaleCode::as_str).collect();
    assert_eq!(codes, vec!["de_DE.UTF-8", "en_US.UTF-8", "fr_FR.UTF-8"]);
}

#[test]
fn parse_locale_a_handles_empty_output() {
    assert!(parse_locale_a("").is_empty());
    assert!(parse_locale_a("\n\n  \n").is_empty());
}

#[test]
fn build_reset_ignores_non_lc_entries() {
    // LANGUAGE shouldn't be touched — only LANG + LC_* are emitted.
    let current = vec![
        "LANG=en_US.UTF-8".to_string(),
        "LANGUAGE=en_US:en".to_string(),
        "LC_TIME=da_DK.utf8".to_string(),
    ];
    let result = build_reset_locale(&current).unwrap();
    assert_eq!(
        result,
        vec![
            "LANG=en_US.UTF-8".to_string(),
            "LC_TIME=en_US.UTF-8".to_string(),
        ]
    );
}
