//! The `Locale` array of systemd-localed (`KEY=value` strings) and the
//! new arrays that the reset, per-category and language actions submit.

use vstd::prelude::*;

use crate::error::LocaleError;
use crate::text::{
    chars_of, has_prefix, is_first_index, lemma_split_once_at, push_chars,
    split_once, split_once_chars, starts_with, string_of, sub_vec,
};

verus! {

/// The views of a sequence of strings.
pub open spec fn string_views(v: Seq<String>) -> Seq<Seq<char>> {
    v.map_values(|s: String| s@)
}

/// The entry `key=value`.
pub open spec fn assignment(key: Seq<char>, value: Seq<char>) -> Seq<char> {
    key + seq!['='] + value
}

/// The array with every `category=` entry replaced by `category=value`,
/// and `category=value` appended when there was none; other entries are
/// kept in place.
pub open spec fn category_set(cur: Seq<Seq<char>>, category: Seq<char>, value: Seq<char>) -> Seq<
    Seq<char>,
> {
    let prefix = category + seq!['='];
    let entry = assignment(category, value);
    let mapped = cur.map_values(
        |e: Seq<char>|
            if has_prefix(e, prefix) {
                entry
            } else {
                e
            },
    );
    if exists|i: int| 0 <= i < cur.len() && has_prefix(#[trigger] cur[i], prefix) {
        mapped
    } else {
        mapped.push(entry)
    }
}

/// Replace (or append) a single category in the locale array.
///
/// If `category=` already appears in `current`, its value is replaced;
/// otherwise the new entry is appended. All other entries pass through
/// untouched and in the same order.
pub fn build_category_set(current: &[String], category: &str, value: &str) -> (r: Vec<String>)
    ensures
        string_views(r@) == category_set(string_views(current@), category@, value@),
{
    let mut prefix = chars_of(category);
    prefix.push('=');
    let mut entry_chars = prefix.clone();
    let value_chars = chars_of(value);
    let mut k: usize = 0;
    while k < value_chars.len()
        invariant
            k <= value_chars@.len(),
            entry_chars@ == prefix@ + value_chars@.subrange(0, k as int),
        decreases value_chars@.len() - k,
    {
        entry_chars.push(value_chars[k]);
        assert(value_chars@.subrange(0, k + 1) =~= value_chars@.subrange(0, k as int).push(
            value_chars@[k as int],
        ));
        k = k + 1;
    }
    assert(value_chars@.subrange(0, k as int) =~= value_chars@);
    assert(prefix@ =~= category@ + seq!['=']);
    let ghost cur = string_views(current@);
    let ghost entry = assignment(category@, value@);
    assert(entry_chars@ =~= entry);
    let mut out: Vec<String> = Vec::new();
    let mut replaced = false;
    let mut i: usize = 0;
    while i < current.len()
        invariant
            i <= current@.len(),
            cur == string_views(current@),
            prefix@ == category@ + seq!['='],
            entry_chars@ == entry,
            entry == assignment(category@, value@),
            out@.len() == i,
            forall|j: int|
                0 <= j < i ==> (#[trigger] out@[j])@ == if has_prefix(cur[j], prefix@) {
                    entry
                } else {
                    cur[j]
                },
            replaced == exists|j: int| 0 <= j < i && has_prefix(#[trigger] cur[j], prefix@),
        decreases current@.len() - i,
    {
        let e = chars_of(current[i].as_str());
        assert(e@ == cur[i as int]);
        if starts_with(&e, &prefix) {
            out.push(string_of(&entry_chars));
            replaced = true;
        } else {
            out.push(current[i].clone());
        }
        i = i + 1;
    }
    if !replaced {
        out.push(string_of(&entry_chars));
    }
    let ghost expected = category_set(cur, category@, value@);
    assert(string_views(out@) =~= expected);
    out
}

/// The value of the first `LANG=` entry, if any.
pub open spec fn first_lang(cur: Seq<Seq<char>>) -> Option<Seq<char>>
    decreases cur.len(),
{
    if cur.len() == 0 {
        None
    } else if has_prefix(cur[0], "LANG="@) {
        Some(cur[0].skip("LANG="@.len() as int))
    } else {
        first_lang(cur.drop_first())
    }
}

/// The keys of the entries whose key (the part before the first `=`)
/// starts with `LC_`, in order.
pub open spec fn lc_keys(cur: Seq<Seq<char>>) -> Seq<Seq<char>>
    decreases cur.len(),
{
    if cur.len() == 0 {
        seq![]
    } else {
        let rest = lc_keys(cur.drop_last());
        match split_once(cur.last(), '=') {
            Some((key, _)) => if has_prefix(key, "LC_"@) {
                rest.push(key)
            } else {
                rest
            },
            None => rest,
        }
    }
}

/// `LANG=value` followed by `key=value` for every `LC_*` key of `cur`.
pub open spec fn language_entries(cur: Seq<Seq<char>>, value: Seq<char>) -> Seq<Seq<char>> {
    seq![assignment("LANG"@, value)] + lc_keys(cur).map_values(
        |k: Seq<char>| assignment(k, value),
    )
}

/// The string `key=value`.
fn assignment_string(key: &[char], value: &[char]) -> (s: String)
    ensures
        s@ == assignment(key@, value@),
{
    let mut s = string_of(key);
    crate::text::push_char(&mut s, '=');
    push_chars(&mut s, value);
    s
}

/// The array that sets `LANG` to `value` and re-sets every `LC_*` entry
/// of `current` to `value` too, so that no category keeps a value of its
/// own. `SetLocale` only updates the variables present in its input, so
/// the `LC_*` entries are assigned explicitly rather than omitted.
pub fn build_language_locale(current: &[String], value: &str) -> (r: Vec<String>)
    ensures
        string_views(r@) == language_entries(string_views(current@), value@),
{
    let v = chars_of(value);
    let lc = chars_of("LC_");
    let mut out: Vec<String> = Vec::new();
    out.push(assignment_string(&chars_of("LANG"), &v));
    let ghost cur = string_views(current@);
    let mut i: usize = 0;
    assert(cur.subrange(0, 0) =~= Seq::<Seq<char>>::empty());
    assert(string_views(out@) =~= language_entries(cur.subrange(0, 0), value@));
    while i < current.len()
        invariant
            i <= current@.len(),
            cur == string_views(current@),
            v@ == value@,
            lc@ == "LC_"@,
            string_views(out@) == language_entries(cur.subrange(0, i as int), value@),
        decreases current@.len() - i,
    {
        let e = chars_of(current[i].as_str());
        assert(e@ == cur[i as int]);
        assert(cur.subrange(0, i + 1).drop_last() =~= cur.subrange(0, i as int));
        assert(cur.subrange(0, i + 1).last() == cur[i as int]);
        let ghost before = string_views(out@);
        match split_once_chars(&e, '=') {
            Some((key, _)) => {
                if starts_with(&key, &lc) {
                    out.push(assignment_string(&key, &v));
                    let ghost ks = lc_keys(cur.subrange(0, i as int));
                    assert(lc_keys(cur.subrange(0, i + 1)) == ks.push(key@));
                    assert(ks.push(key@).map_values(|k: Seq<char>| assignment(k, value@))
                        =~= ks.map_values(|k: Seq<char>| assignment(k, value@)).push(
                        assignment(key@, value@),
                    ));
                    assert(string_views(out@) =~= before.push(assignment(key@, value@)));
                    assert(language_entries(cur.subrange(0, i + 1), value@) =~= before.push(
                        assignment(key@, value@),
                    ));
                    assert(string_views(out@) =~= language_entries(
                        cur.subrange(0, i + 1),
                        value@,
                    ));
                } else {
                    assert(language_entries(cur.subrange(0, i + 1), value@) =~= before);
                }
            },
            None => {
                assert(language_entries(cur.subrange(0, i + 1), value@) =~= before);
            },
        }
        i = i + 1;
    }
    assert(cur.subrange(0, i as int) =~= cur);
    out
}

/// The value of the first `LANG=` entry, if any.
fn find_lang(current: &[String]) -> (r: Option<Vec<char>>)
    ensures
        match r {
            Some(v) => first_lang(string_views(current@)) == Some(v@),
            None => first_lang(string_views(current@)) is None,
        },
{
    let prefix = chars_of("LANG=");
    let ghost cur = string_views(current@);
    let mut i: usize = 0;
    assert(cur.skip(0) =~= cur);
    while i < current.len()
        invariant
            i <= current@.len(),
            cur == string_views(current@),
            prefix@ == "LANG="@,
            first_lang(cur.skip(i as int)) == first_lang(cur),
        decreases current@.len() - i,
    {
        let e = chars_of(current[i].as_str());
        assert(cur.skip(i as int)[0] == e@);
        if starts_with(&e, &prefix) {
            let v = sub_vec(&e, prefix.len(), e.len());
            assert(v@ =~= e@.skip(prefix@.len() as int));
            return Some(v);
        }
        assert(cur.skip(i as int).drop_first() =~= cur.skip(i + 1));
        i = i + 1;
    }
    None
}

/// The message of the error for a locale array without `LANG`.
pub open spec fn no_lang_message() -> Seq<char> {
    "system has no LANG configured"@
}

/// Compute the new locale array for "reset overrides to language": keep
/// `LANG` and re-set every existing `LC_*` to `LANG`'s value.
///
/// `SetLocale` only updates variables present in its input; absent
/// variables are left alone. To make `LC_*` overrides effectively
/// disappear we therefore have to assign each one explicitly to
/// `LANG`'s value rather than omit them.
pub fn build_reset_locale(current: &[String]) -> (r: Result<Vec<String>, LocaleError>)
    ensures
        match first_lang(string_views(current@)) {
            Some(lang) => r matches Ok(v) && string_views(v@) == language_entries(
                string_views(current@),
                lang,
            ),
            None => r matches Err(LocaleError::Daemon(m)) && m@ == no_lang_message(),
        },
{
    match find_lang(current) {
        Some(lang) => {
            let lang_value = string_of(&lang);
            Ok(build_language_locale(current, lang_value.as_str()))
        },
        None => Err(LocaleError::Daemon(string_of(&chars_of("system has no LANG configured")))),
    }
}

/// Setting a category twice to the same value is the same as setting it
/// once.
pub proof fn lemma_category_set_idempotent(cur: Seq<Seq<char>>, category: Seq<char>, value: Seq<char>)
    ensures
        category_set(category_set(cur, category, value), category, value) == category_set(
            cur,
            category,
            value,
        ),
{
    let prefix = category + seq!['='];
    let entry = assignment(category, value);
    assert(entry.subrange(0, prefix.len() as int) =~= prefix);
    let once = category_set(cur, category, value);
    let twice = category_set(once, category, value);
    assert(exists|i: int| 0 <= i < once.len() && has_prefix(#[trigger] once[i], prefix)) by {
        if exists|i: int| 0 <= i < cur.len() && has_prefix(#[trigger] cur[i], prefix) {
            let i = choose|i: int| 0 <= i < cur.len() && has_prefix(#[trigger] cur[i], prefix);
            assert(has_prefix(once[i], prefix));
        } else {
            assert(has_prefix(once[cur.len() as int], prefix));
        }
    }
    assert(twice =~= once);
}

/// The keys that `lc_keys` collects have no `=` and start with `LC_`.
proof fn lemma_lc_keys_shape(cur: Seq<Seq<char>>)
    ensures
        forall|k: int|
            0 <= k < lc_keys(cur).len() ==> !(#[trigger] lc_keys(cur)[k]).contains('=')
                && has_prefix(lc_keys(cur)[k], "LC_"@),
    decreases cur.len(),
{
    if cur.len() > 0 {
        lemma_lc_keys_shape(cur.drop_last());
        match split_once(cur.last(), '=') {
            Some((key, _)) => {
                crate::text::lemma_first_index_exists(cur.last(), '=');
                let i = choose|i: int| is_first_index(cur.last(), '=', i);
                assert(key =~= cur.last().subrange(0, i));
                assert(!key.contains('=')) by {
                    if key.contains('=') {
                        let j = choose|j: int| 0 <= j < key.len() && key[j] == '=';
                        assert(cur.last()[j] == '=');
                    }
                }
                let rest = lc_keys(cur.drop_last());
                if has_prefix(key, "LC_"@) {
                    assert forall|k: int| 0 <= k < lc_keys(cur).len() implies !(
                    #[trigger] lc_keys(cur)[k]).contains('=') && has_prefix(
                        lc_keys(cur)[k],
                        "LC_"@,
                    ) by {
                        if k < rest.len() {
                            assert(lc_keys(cur)[k] == rest[k]);
                        }
                    }
                }
            },
            None => {},
        }
    }
}

/// `lc_keys` of a concatenation.
proof fn lemma_lc_keys_append(a: Seq<Seq<char>>, b: Seq<Seq<char>>)
    ensures
        lc_keys(a + b) == lc_keys(a) + lc_keys(b),
    decreases b.len(),
{
    if b.len() == 0 {
        assert(a + b =~= a);
        assert(lc_keys(a) + lc_keys(b) =~= lc_keys(a));
    } else {
        lemma_lc_keys_append(a, b.drop_last());
        assert((a + b).drop_last() =~= a + b.drop_last());
        assert((a + b).last() == b.last());
        let t = lc_keys(a) + lc_keys(b.drop_last());
        match split_once(b.last(), '=') {
            Some((key, _)) => if has_prefix(key, "LC_"@) {
                assert(t.push(key) =~= lc_keys(a) + lc_keys(b.drop_last()).push(key));
            } else {
            },
            None => {},
        }
    }
}

/// `key=value` splits at its first `=` back into `key` and `value` when the
/// key has no `=`.
proof fn lemma_split_assignment(key: Seq<char>, value: Seq<char>)
    requires
        !key.contains('='),
    ensures
        split_once(assignment(key, value), '=') == Some((key, value)),
{
    let s = assignment(key, value);
    assert(s[key.len() as int] == '=');
    assert forall|j: int| 0 <= j < key.len() implies s[j] != '=' by {
        assert(s[j] == key[j]);
    }
    lemma_split_once_at(s, '=', key.len() as int);
    assert(s.subrange(0, key.len() as int) =~= key);
    assert(s.subrange(key.len() as int + 1, s.len() as int) =~= value);
}

/// `lc_keys` of assignments to `LC_*` keys gives the keys back.
proof fn lemma_lc_keys_of_assignments(ks: Seq<Seq<char>>, value: Seq<char>)
    requires
        forall|k: int| 0 <= k < ks.len() ==> !(#[trigger] ks[k]).contains('=') && has_prefix(
            ks[k],
            "LC_"@,
        ),
    ensures
        lc_keys(ks.map_values(|k: Seq<char>| assignment(k, value))) == ks,
    decreases ks.len(),
{
    let m = ks.map_values(|k: Seq<char>| assignment(k, value));
    if ks.len() > 0 {
        assert(m.drop_last() =~= ks.drop_last().map_values(|k: Seq<char>| assignment(k, value)));
        lemma_lc_keys_of_assignments(ks.drop_last(), value);
        assert(m.last() == assignment(ks.last(), value));
        lemma_split_assignment(ks.last(), value);
        assert(ks.drop_last().push(ks.last()) =~= ks);
    } else {
        assert(m =~= Seq::<Seq<char>>::empty());
    }
}

/// Re-setting the language to the value that the array already carries
/// changes nothing: after a reset, `LANG` is unchanged and a second reset
/// submits the same array.
pub proof fn lemma_reset_idempotent(cur: Seq<Seq<char>>)
    requires
        first_lang(cur) is Some,
    ensures
        first_lang(language_entries(cur, first_lang(cur)->0)) == first_lang(cur),
        language_entries(
            language_entries(cur, first_lang(cur)->0),
            first_lang(cur)->0,
        ) == language_entries(cur, first_lang(cur)->0),
{
    lemma_language_entries_stable(cur, first_lang(cur)->0);
}

/// Setting the language twice to the same value submits the same array
/// the second time, and the array names that value as `LANG`.
pub proof fn lemma_language_entries_stable(cur: Seq<Seq<char>>, value: Seq<char>)
    ensures
        first_lang(language_entries(cur, value)) == Some(value),
        language_entries(language_entries(cur, value), value) == language_entries(cur, value),
{
    reveal_strlit("LANG");
    reveal_strlit("LANG=");
    reveal_strlit("LC_");
    let r = language_entries(cur, value);
    let lang = assignment("LANG"@, value);
    let ks = lc_keys(cur);
    assert(r[0] == lang);
    assert(lang.subrange(0, 5) =~= "LANG="@);
    assert(lang.skip(5) =~= value);
    lemma_lc_keys_shape(cur);
    lemma_lc_keys_of_assignments(ks, value);
    lemma_lc_keys_append(seq![lang], ks.map_values(|k: Seq<char>| assignment(k, value)));
    assert(!"LANG"@.contains('='));
    lemma_split_assignment("LANG"@, value);
    assert(seq![lang].drop_last() =~= Seq::<Seq<char>>::empty());
    assert(!has_prefix("LANG"@, "LC_"@)) by {
        assert("LANG"@.subrange(0, 3)[1] != "LC_"@[1]);
    }
    let one = seq![lang];
    assert(one.len() == 1);
    assert(one.last() == lang);
    assert(lc_keys(one.drop_last()) =~= Seq::<Seq<char>>::empty());
    assert(lc_keys(one) =~= Seq::<Seq<char>>::empty());
    assert(lc_keys(r) =~= ks);
}

} // verus!
