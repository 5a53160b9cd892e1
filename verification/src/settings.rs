//! Parsed system-wide locale configuration and the parser for
//! `/etc/default/locale` and `/etc/locale.conf`.

use vstd::prelude::*;

use crate::code::{valid_code, LocaleCode};
use crate::error::{FileRead, LocaleError};
use crate::overrides::LcOverrides;
use crate::text::{
    chars_eq, chars_of, has_prefix, lines, split_lines, split_once, split_once_chars, starts_with,
    string_of, sub_vec, trim, trim_bounds, trim_end, trim_start, trimmed, views,
};

verus! {

/// The abstract content of a locale configuration.
pub struct SettingsModel {
    pub lang: Option<Seq<char>>,
    pub language: Option<Seq<char>>,
    pub overrides: Map<Seq<char>, Seq<char>>,
}

/// The configuration with nothing set.
pub open spec fn empty_settings() -> SettingsModel {
    SettingsModel { lang: None, language: None, overrides: Map::empty() }
}

/// Parsed system-wide locale configuration.
///
/// Mirrors the shape of `/etc/default/locale` or `/etc/locale.conf`: an
/// optional primary `LANG`, an optional `LANGUAGE` fallback list (a
/// colon-separated list, not itself a single locale), and any number of
/// per-category `LC_*` overrides.
#[derive(Debug, Clone, PartialEq, Eq)]
pub struct LocaleSettings {
    pub lang: Option<LocaleCode>,
    pub language: Option<String>,
    pub lc_overrides: LcOverrides,
}

/// The view of an optional code.
pub open spec fn code_view(c: Option<LocaleCode>) -> Option<Seq<char>> {
    match c {
        Some(c) => Some(c@),
        None => None,
    }
}

/// The view of an optional string.
pub open spec fn string_view(s: Option<String>) -> Option<Seq<char>> {
    match s {
        Some(s) => Some(s@),
        None => None,
    }
}

impl View for LocaleSettings {
    type V = SettingsModel;

    open spec fn view(&self) -> SettingsModel {
        SettingsModel {
            lang: code_view(self.lang),
            language: string_view(self.language),
            overrides: self.lc_overrides@,
        }
    }
}

impl Default for LocaleSettings {
    fn default() -> (r: Self)
        ensures
            r@ == empty_settings(),
    {
        LocaleSettings { lang: None, language: None, lc_overrides: LcOverrides::new() }
    }
}

/// The code that `v` names once trimmed, if it is one (`LocaleCode::new`).
pub open spec fn code_of(v: Seq<char>) -> Option<Seq<char>> {
    if valid_code(trim(v)) {
        Some(trim(v))
    } else {
        None
    }
}

/// `s` without one pair of matching surrounding single or double quotes.
pub open spec fn unquoted(s: Seq<char>) -> Seq<char> {
    if s.len() >= 2 && ((s[0] == '"' && s.last() == '"') || (s[0] == '\'' && s.last() == '\'')) {
        s.subrange(1, s.len() - 1)
    } else {
        s
    }
}

/// Drops one pair of matching surrounding single or double quotes.
pub fn strip_quotes(s: &[char]) -> (r: Vec<char>)
    ensures
        r@ == unquoted(s@),
{
    let n = s.len();
    if n >= 2 && ((s[0] == '"' && s[n - 1] == '"') || (s[0] == '\'' && s[n - 1] == '\'')) {
        sub_vec(s, 1, n - 1)
    } else {
        assert(s@.subrange(0, n as int) =~= s@);
        sub_vec(s, 0, n)
    }
}

/// A configuration line once `export ` is dropped and the rest trimmed.
pub open spec fn without_export(line: Seq<char>) -> Seq<char> {
    if has_prefix(line, "export "@) {
        trim(line.skip("export "@.len() as int))
    } else {
        trim(line)
    }
}

/// The effect of one line of a locale configuration file.
///
/// Blank lines and `#` comments change nothing; otherwise the line is
/// `KEY=value`, optionally behind `export `, with the value optionally in
/// quotes. `LANG` with a valid code sets the language; a non-empty
/// `LANGUAGE` sets the fallback list; a key that starts with `LC_` and has a
/// valid code sets that override. A value that is no locale code is dropped,
/// and anything else is ignored: such lines change nothing.
pub open spec fn config_line(st: SettingsModel, raw: Seq<char>) -> SettingsModel {
    let line = trim(raw);
    if line.len() == 0 || line[0] == '#' {
        st
    } else {
        match split_once(without_export(line), '=') {
            None => st,
            Some((k, v)) => {
                let key = trim(k);
                let value = unquoted(trim(v));
                if key == "LANG"@ {
                    match code_of(value) {
                        Some(code) => SettingsModel { lang: Some(code), ..st },
                        None => st,
                    }
                } else if key == "LANGUAGE"@ && value.len() > 0 {
                    SettingsModel { language: Some(value), ..st }
                } else if has_prefix(key, "LC_"@) {
                    match code_of(value) {
                        Some(code) => SettingsModel {
                            overrides: st.overrides.insert(key, code),
                            ..st
                        },
                        None => st,
                    }
                } else {
                    st
                }
            },
        }
    }
}

/// The effect of a sequence of configuration lines, in order.
pub open spec fn config_lines(st: SettingsModel, ls: Seq<Seq<char>>) -> SettingsModel
    decreases ls.len(),
{
    if ls.len() == 0 {
        st
    } else {
        config_lines(config_line(st, ls[0]), ls.drop_first())
    }
}

/// The configuration that the text of a locale configuration file holds.
pub open spec fn parsed_settings(input: Seq<char>) -> SettingsModel {
    config_lines(empty_settings(), lines(input))
}

/// Applies one configuration line to `settings`.
fn apply_config_line(settings: &mut LocaleSettings, raw: &[char])
    ensures
        final(settings)@ == config_line(old(settings)@, raw@),
{
    let (a, b) = trim_bounds(raw, 0, raw.len());
    assert(raw@.subrange(0, raw@.len() as int) =~= raw@);
    if a == b || raw[a] == '#' {
        return;
    }
    let line = sub_vec(raw, a, b);
    let export = chars_of("export ");
    let body = if starts_with(&line, &export) {
        let rest = sub_vec(&line, export.len(), line.len());
        assert(rest@ =~= line@.skip(export@.len() as int));
        trimmed(&rest)
    } else {
        trimmed(&line)
    };
    let (k, v) = match split_once_chars(&body, '=') {
        Some(p) => p,
        None => {
            return;
        },
    };
    let key = trimmed(&k);
    let value = strip_quotes(&trimmed(&v));
    if chars_eq(&key, &chars_of("LANG")) {
        match LocaleCode::from_chars(&value) {
            Some(code) => {
                settings.lang = Some(code);
            },
            None => {},
        }
    } else if chars_eq(&key, &chars_of("LANGUAGE")) && value.len() > 0 {
        settings.language = Some(string_of(&value));
    } else if starts_with(&key, &chars_of("LC_")) {
        match LocaleCode::from_chars(&value) {
            Some(code) => {
                settings.lc_overrides.insert(string_of(&key), code);
            },
            None => {},
        }
    }
}

/// Parse the contents of `/etc/default/locale` or `/etc/locale.conf`.
///
/// The format is shell-style `KEY=value`, optionally prefixed with
/// `export`, optionally with surrounding single or double quotes around
/// the value. Comment lines (starting with `#`) and blank lines are
/// skipped. Unrecognised keys are ignored. Values that fail
/// [`LocaleCode`] validation are silently dropped — the parser is
/// deliberately lenient so one bad entry doesn't blank the whole view.
pub fn parse_default_locale(input: &str) -> (r: LocaleSettings)
    ensures
        r@ == parsed_settings(input@),
{
    let text = chars_of(input);
    let ls = split_lines(&text);
    let mut settings = LocaleSettings::default();
    let mut i: usize = 0;
    assert(views(ls@).skip(0) =~= views(ls@));
    while i < ls.len()
        invariant
            i <= ls@.len(),
            views(ls@) == lines(input@),
            config_lines(settings@, views(ls@).skip(i as int)) == parsed_settings(input@),
        decreases ls@.len() - i,
    {
        let ghost before = settings@;
        apply_config_line(&mut settings, &ls[i]);
        assert(views(ls@).skip(i as int).drop_first() =~= views(ls@).skip(i + 1));
        assert(views(ls@).skip(i as int)[0] == ls@[i as int]@);
        i = i + 1;
    }
    settings
}

/// The views of name/value pairs.
pub open spec fn pair_views(v: Seq<(String, String)>) -> Seq<(Seq<char>, Seq<char>)> {
    v.map_values(|p: (String, String)| (p.0@, p.1@))
}

/// The effect of one environment variable: one whose name starts with
/// `LC_` and whose value is a valid code becomes an override.
pub open spec fn env_var(st: SettingsModel, kv: (Seq<char>, Seq<char>)) -> SettingsModel {
    if has_prefix(kv.0, "LC_"@) {
        match code_of(kv.1) {
            Some(code) => SettingsModel { overrides: st.overrides.insert(kv.0, code), ..st },
            None => st,
        }
    } else {
        st
    }
}

/// The effect of a sequence of environment variables, in order.
pub open spec fn env_vars(st: SettingsModel, vars: Seq<(Seq<char>, Seq<char>)>) -> SettingsModel
    decreases vars.len(),
{
    if vars.len() == 0 {
        st
    } else {
        env_vars(env_var(st, vars[0]), vars.drop_first())
    }
}

/// The configuration that the process environment describes: `LANG` if it
/// is a valid code, a non-empty `LANGUAGE`, and the `LC_*` variables with
/// valid codes.
pub open spec fn env_settings(
    lang: Option<Seq<char>>,
    language: Option<Seq<char>>,
    vars: Seq<(Seq<char>, Seq<char>)>,
) -> SettingsModel {
    let start = SettingsModel {
        lang: match lang {
            Some(v) => code_of(v),
            None => None,
        },
        language: match language {
            Some(v) => if v.len() > 0 {
                Some(v)
            } else {
                None
            },
            None => None,
        },
        overrides: Map::empty(),
    };
    env_vars(start, vars)
}

/// The settings that the process environment describes, given the values
/// of `LANG` and `LANGUAGE` (where set and valid Unicode) and every
/// variable in the environment.
pub fn settings_from_env(
    lang: Option<String>,
    language: Option<String>,
    vars: Vec<(String, String)>,
) -> (r: LocaleSettings)
    ensures
        r@ == env_settings(string_view(lang), string_view(language), pair_views(vars@)),
{
    let mut settings = LocaleSettings::default();
    match lang {
        Some(value) => {
            settings.lang = LocaleCode::new(value.as_str());
        },
        None => {},
    }
    match language {
        Some(value) => {
            if value.as_str().is_empty() {
            } else {
                settings.language = Some(value);
            }
        },
        None => {},
    }
    let lc = chars_of("LC_");
    let mut i: usize = 0;
    assert(pair_views(vars@).skip(0) =~= pair_views(vars@));
    while i < vars.len()
        invariant
            i <= vars@.len(),
            lc@ == "LC_"@,
            env_vars(settings@, pair_views(vars@).skip(i as int)) == env_settings(
                string_view(lang),
                string_view(language),
                pair_views(vars@),
            ),
        decreases vars@.len() - i,
    {
        let key = chars_of(vars[i].0.as_str());
        if starts_with(&key, &lc) {
            match LocaleCode::new(vars[i].1.as_str()) {
                Some(code) => {
                    settings.lc_overrides.insert(vars[i].0.clone(), code);
                },
                None => {},
            }
        }
        assert(pair_views(vars@).skip(i as int).drop_first() =~= pair_views(vars@).skip(i + 1));
        assert(pair_views(vars@).skip(i as int)[0] == (vars@[i as int].0@, vars@[i as int].1@));
        i = i + 1;
    }
    settings
}

/// Whether an override is a real one: `LANG` is unset or the value differs
/// from it. After a reset, systemd-localed leaves `LC_*` entries whose
/// value matches `LANG`; those are no override in effect.
pub open spec fn is_real_override(p: (Seq<char>, Seq<char>), lang: Option<Seq<char>>) -> bool {
    match lang {
        Some(l) => p.1 != l,
        None => true,
    }
}

/// The real overrides among `e`, in their order.
pub open spec fn real_entries(e: Seq<(Seq<char>, Seq<char>)>, lang: Option<Seq<char>>) -> Seq<
    (Seq<char>, Seq<char>),
>
    decreases e.len(),
{
    if e.len() == 0 {
        seq![]
    } else {
        let rest = real_entries(e.drop_last(), lang);
        if is_real_override(e.last(), lang) {
            rest.push(e.last())
        } else {
            rest
        }
    }
}

/// The real overrides are the entries that pass the test, in their order:
/// every one of them is listed, not only some.
pub proof fn lemma_real_entries_filter(e: Seq<(Seq<char>, Seq<char>)>, lang: Option<Seq<char>>)
    ensures
        real_entries(e, lang) == e.filter(|p: (Seq<char>, Seq<char>)| is_real_override(p, lang)),
    decreases e.len(),
{
    reveal_with_fuel(Seq::filter, 1);
    if e.len() > 0 {
        lemma_real_entries_filter(e.drop_last(), lang);
    }
}

/// An entry is listed exactly when it is an override and its value differs
/// from `LANG` (or `LANG` is unset); when every override differs, all of
/// them are listed.
pub proof fn lemma_real_entries_members(e: Seq<(Seq<char>, Seq<char>)>, lang: Option<Seq<char>>)
    ensures
        forall|p: (Seq<char>, Seq<char>)|
            #![trigger real_entries(e, lang).contains(p)]
            real_entries(e, lang).contains(p) <==> (e.contains(p) && match lang {
                Some(l) => p.1 != l,
                None => true,
            }),
        (forall|i: int| 0 <= i < e.len() ==> lang != Some(#[trigger] e[i].1)) ==> real_entries(
            e,
            lang,
        ) == e,
        real_entries(e, lang).len() <= e.len(),
    decreases e.len(),
{
    if e.len() == 0 {
        assert forall|p: (Seq<char>, Seq<char>)| !#[trigger] e.contains(p) by {}
        assert(real_entries(e, lang) =~= e);
    } else {
        let d = e.drop_last();
        lemma_real_entries_members(d, lang);
        assert(e =~= d.push(e.last()));
        assert forall|p: (Seq<char>, Seq<char>)| e.contains(p) <==> (d.contains(p) || p == e.last()) by {
            if e.contains(p) {
                let j = choose|j: int| 0 <= j < e.len() && e[j] == p;
                if j < d.len() {
                    assert(d[j] == p);
                }
            }
            if d.contains(p) {
                let j = choose|j: int| 0 <= j < d.len() && d[j] == p;
                assert(e[j] == p);
            }
            if p == e.last() {
                assert(e[e.len() - 1] == p);
            }
        }
        let r = real_entries(d, lang);
        assert forall|p: (Seq<char>, Seq<char>)| r.push(e.last()).contains(p) <==> (r.contains(p)
            || p == e.last()) by {
            if r.push(e.last()).contains(p) {
                let j = choose|j: int| 0 <= j < r.len() + 1 && r.push(e.last())[j] == p;
                if j < r.len() {
                    assert(r[j] == p);
                }
            }
            if r.contains(p) {
                let j = choose|j: int| 0 <= j < r.len() && r[j] == p;
                assert(r.push(e.last())[j] == p);
            }
            if p == e.last() {
                assert(r.push(e.last())[r.len() as int] == p);
            }
        }
        assert forall|p: (Seq<char>, Seq<char>)|
            #![trigger real_entries(e, lang).contains(p)]
            real_entries(e, lang).contains(p) <==> (e.contains(p) && match lang {
                Some(l) => p.1 != l,
                None => true,
            }) by {
            if is_real_override(e.last(), lang) {
                assert(real_entries(e, lang) == r.push(e.last()));
            } else {
                assert(real_entries(e, lang) == r);
            }
            assert(r.contains(p) <==> (d.contains(p) && match lang {
                Some(l) => p.1 != l,
                None => true,
            }));
            assert(d.contains(p) ==> r.contains(p) == (match lang {
                Some(l) => p.1 != l,
                None => true,
            }));
        }
        if forall|i: int| 0 <= i < e.len() ==> lang != Some(#[trigger] e[i].1) {
            assert forall|i: int| 0 <= i < d.len() implies lang != Some(#[trigger] d[i].1) by {
                assert(d[i] == e[i]);
            }
            assert(lang != Some(e[e.len() - 1].1));
        }
    }
}

/// The overrides whose value differs from `LANG`, as name/value pairs in
/// ascending name order.
pub fn real_overrides(settings: &LocaleSettings) -> (r: Vec<(String, String)>)
    ensures
        pair_views(r@) == real_entries(settings.lc_overrides.entries(), settings@.lang),
{
    let pairs = settings.lc_overrides.pairs();
    let ghost e = settings.lc_overrides.entries();
    let lang: Option<Vec<char>> = match &settings.lang {
        Some(l) => Some(l.chars()),
        None => None,
    };
    let mut out: Vec<(String, String)> = Vec::new();
    let mut i: usize = 0;
    assert(e.subrange(0, 0) =~= Seq::<(Seq<char>, Seq<char>)>::empty());
    assert(pair_views(out@) =~= Seq::<(Seq<char>, Seq<char>)>::empty());
    while i < pairs.len()
        invariant
            i <= pairs@.len(),
            crate::overrides::keyed(pairs@) == e,
            match lang {
                Some(l) => settings@.lang == Some(l@),
                None => settings@.lang is None,
            },
            pair_views(out@) == real_entries(e.subrange(0, i as int), settings@.lang),
        decreases pairs@.len() - i,
    {
        let value = pairs[i].1.chars();
        let keep = match &lang {
            Some(l) => !chars_eq(&value, l),
            None => true,
        };
        assert(e.subrange(0, i + 1).drop_last() =~= e.subrange(0, i as int));
        assert(e.subrange(0, i + 1).last() == e[i as int]);
        if keep {
            let ghost prev = out@;
            out.push((pairs[i].0.clone(), pairs[i].1.to_string()));
            assert(pair_views(out@) =~= pair_views(prev).push(e[i as int]));
        }
        i = i + 1;
    }
    assert(e.subrange(0, i as int) =~= e);
    out
}

/// Where the loaded settings came from.
///
/// Knowing this lets the UI display a meaningful description and refuse
/// to "reset" anything when the values came from the process
/// environment (which we can't authoritatively change).
#[derive(Debug, Clone)]
pub enum LocaleSource {
    File(String),
    Environment,
}

/// A successful read of the system locale plus the source it came from.
#[derive(Debug, Clone)]
pub struct LoadedLocale {
    pub settings: LocaleSettings,
    pub source: LocaleSource,
}

/// System paths checked for locale configuration, in priority order.
///
/// `/etc/default/locale` is the Debian/Ubuntu/Pop!_OS convention;
/// `/etc/locale.conf` is the systemd standard used by Arch, Fedora, etc.
pub const LOCALE_CONFIG_PATHS: [&'static str; 2] = ["/etc/default/locale", "/etc/locale.conf"];

/// What one attempt to read the locale configuration at `path` decides:
/// its parsed settings if it could be read, nothing (try the next path) if
/// it does not exist, and an error if it exists but cannot be read.
pub fn config_read_step(path: &str, read: FileRead) -> (r: Option<Result<LoadedLocale, LocaleError>>)
    ensures
        match read {
            FileRead::Contents(c) => {
                &&& r matches Some(Ok(l))
                &&& l.settings@ == parsed_settings(c@)
                &&& l.source matches LocaleSource::File(p)
                &&& p@ == path@
            },
            FileRead::NotFound => r is None,
            FileRead::Failed(msg) => {
                &&& r matches Some(Err(LocaleError::ReadConfig { path: p, source }))
                &&& p@ == path@
                &&& source == msg
            },
        },
{
    match read {
        FileRead::Contents(c) => Some(
            Ok(
                LoadedLocale {
                    settings: parse_default_locale(c.as_str()),
                    source: LocaleSource::File(string_of(&chars_of(path))),
                },
            ),
        ),
        FileRead::NotFound => None,
        FileRead::Failed(msg) => Some(
            Err(LocaleError::ReadConfig { path: string_of(&chars_of(path)), source: msg }),
        ),
    }
}

/// Blank lines and comment lines leave the configuration as it is.
pub proof fn lemma_blank_and_comment_lines_ignored(st: SettingsModel, raw: Seq<char>)
    requires
        trim(raw).len() == 0 || trim(raw)[0] == '#',
    ensures
        config_line(st, raw) == st,
{
}

/// `LANGUAGE="x"` and `LANGUAGE='x'` set the fallback list to `x` itself,
/// without the quotes, for every non-empty `x` and whatever came before:
/// quotes are stripped from `LANGUAGE` as from every other value.
pub proof fn lemma_language_quotes_stripped(st: SettingsModel, x: Seq<char>, q: char)
    requires
        x.len() > 0,
        q == '"' || q == '\'',
    ensures
        config_line(st, "LANGUAGE"@ + seq!['=', q] + x + seq![q]) == (SettingsModel {
            language: Some(x),
            ..st
        }),
{
    reveal_strlit("LANGUAGE");
    reveal_strlit("LANG");
    reveal_strlit("export ");
    let key = "LANGUAGE"@;
    let v = seq![q] + x + seq![q];
    let raw = key + seq!['='] + v;
    assert(key + seq!['=', q] + x + seq![q] =~= raw);
    assert(trim_start(raw) == raw);
    assert(raw.last() == q);
    assert(trim_end(raw) == raw);
    assert(trim(raw) == raw);
    assert(raw[0] == 'L');
    assert(!has_prefix(raw, "export "@)) by {
        if has_prefix(raw, "export "@) {
            assert(raw.subrange(0, 7)[0] == raw[0]);
        }
    }
    assert(without_export(raw) == raw);
    assert(crate::text::is_first_index(raw, '=', 8));
    crate::text::lemma_split_once_at(raw, '=', 8);
    assert(raw.subrange(0, 8) =~= key);
    assert(raw.subrange(9, raw.len() as int) =~= v);
    assert(trim_start(key) == key);
    assert(trim_end(key) == key);
    assert(trim_start(v) == v);
    assert(v.last() == q);
    assert(trim_end(v) == v);
    assert(v.subrange(1, v.len() - 1) =~= x);
    assert(unquoted(v) == x);
    assert(key != "LANG"@);
}

/// A `LANG` or `LC_*` line whose value is no locale code changes nothing:
/// the parser drops the bad entry, and an earlier valid value stays.
pub proof fn lemma_invalid_value_dropped(st: SettingsModel, raw: Seq<char>)
    requires
        split_once(without_export(trim(raw)), '=') matches Some((k, v)) && (trim(k) == "LANG"@
            || has_prefix(trim(k), "LC_"@)) && code_of(unquoted(trim(v))) is None,
    ensures
        config_line(st, raw) == st,
{
    let (k, v) = split_once(without_export(trim(raw)), '=')->0;
    if has_prefix(trim(k), "LC_"@) {
        reveal_strlit("LC_");
        reveal_strlit("LANG");
        reveal_strlit("LANGUAGE");
        assert(trim(k).subrange(0, 3)[1] == 'C');
        assert(trim(k)[1] == 'C');
        assert("LANG"@[1] == 'A');
        assert("LANGUAGE"@[1] == 'A');
    }
}

} // verus!
