//! The installed locales as `locale -a` lists them.

use vstd::prelude::*;

use crate::code::LocaleCode;
use crate::settings::code_of;
use crate::text::{
    ascii_lower, chars_of, compare_chars, eq_ignore_ascii_case, eq_ignoring_ascii_case,
    lemma_lex_transitive, lex_lt, lines, split_lines,
    split_once, split_once_chars, to_ascii_lower, trim, trimmed, views,
};

verus! {

/// The part of a locale name before its first `.`.
pub open spec fn stem(s: Seq<char>) -> Seq<char> {
    match split_once(s, '.') {
        Some((before, _)) => before,
        None => s,
    }
}

/// Whether a locale name is the pseudo-locale `C` or `POSIX` (in any ASCII
/// case, with or without a codeset).
pub open spec fn pseudo_locale(s: Seq<char>) -> bool {
    eq_ignoring_ascii_case(stem(s), "C"@) || eq_ignoring_ascii_case(stem(s), "POSIX"@)
}

/// The part of `s` before its first `@`.
pub open spec fn before_modifier(s: Seq<char>) -> Seq<char> {
    match split_once(s, '@') {
        Some((before, _)) => before,
        None => s,
    }
}

/// `s` without dashes, in ASCII lower case.
pub open spec fn normalised(s: Seq<char>) -> Seq<char>
    decreases s.len(),
{
    if s.len() == 0 {
        seq![]
    } else if s.last() == '-' {
        normalised(s.drop_last())
    } else {
        normalised(s.drop_last()).push(ascii_lower(s.last()))
    }
}

/// Whether a locale name carries a UTF-8 codeset: the part after the first
/// `.` and before any `@` reads `utf8` once dashes are dropped and case is
/// ignored.
pub open spec fn utf8_locale(s: Seq<char>) -> bool {
    match split_once(s, '.') {
        Some((_, after)) => normalised(before_modifier(after)) == "utf8"@,
        None => false,
    }
}

/// The code that a line of `locale -a` output contributes: the trimmed line,
/// unless it is blank, a pseudo-locale, not UTF-8, or no valid code.
pub open spec fn listed_code(raw: Seq<char>) -> Option<Seq<char>> {
    let line = trim(raw);
    if line.len() == 0 || pseudo_locale(line) || !utf8_locale(line) {
        None
    } else {
        code_of(line)
    }
}

/// Whether `s` is in strictly ascending order.
pub open spec fn strictly_sorted(s: Seq<Seq<char>>) -> bool {
    forall|i: int, j: int| 0 <= i < j < s.len() ==> lex_lt(#[trigger] s[i], #[trigger] s[j])
}

/// The views of a sequence of codes.
pub open spec fn code_views(v: Seq<LocaleCode>) -> Seq<Seq<char>> {
    v.map_values(|c: LocaleCode| c@)
}

/// Whether `name` is the pseudo-locale `C` or `POSIX`.
pub fn is_pseudo_locale(line: &[char]) -> (b: bool)
    ensures
        b == pseudo_locale(line@),
{
    let stem = match split_once_chars(line, '.') {
        Some((before, _)) => before,
        None => crate::text::sub_vec(line, 0, line.len()),
    };
    assert(line@.subrange(0, line@.len() as int) =~= line@);
    eq_ignore_ascii_case(&stem, &chars_of("C")) || eq_ignore_ascii_case(&stem, &chars_of("POSIX"))
}

/// `s` without dashes, in ASCII lower case.
fn normalise(s: &[char]) -> (r: Vec<char>)
    ensures
        r@ == normalised(s@),
{
    let mut out: Vec<char> = Vec::new();
    let mut i: usize = 0;
    assert(s@.subrange(0, 0) =~= Seq::<char>::empty());
    while i < s.len()
        invariant
            i <= s@.len(),
            out@ == normalised(s@.subrange(0, i as int)),
        decreases s@.len() - i,
    {
        assert(s@.subrange(0, i + 1).drop_last() =~= s@.subrange(0, i as int));
        assert(s@.subrange(0, i + 1).last() == s@[i as int]);
        if s[i] != '-' {
            out.push(to_ascii_lower(s[i]));
        }
        i = i + 1;
    }
    assert(s@.subrange(0, i as int) =~= s@);
    out
}

/// Whether a locale name carries a UTF-8 codeset.
pub fn is_utf8_locale(line: &[char]) -> (b: bool)
    ensures
        b == utf8_locale(line@),
{
    match split_once_chars(line, '.') {
        Some((_, after)) => {
            let codeset = match split_once_chars(&after, '@') {
                Some((before, _)) => before,
                None => crate::text::sub_vec(&after, 0, after.len()),
            };
            assert(after@.subrange(0, after@.len() as int) =~= after@);
            let n = normalise(&codeset);
            crate::text::chars_eq(&n, &chars_of("utf8"))
        },
        None => false,
    }
}

/// Inserts `code` into the strictly sorted `v` unless it is there already.
fn insert_sorted(v: &mut Vec<LocaleCode>, code: LocaleCode)
    requires
        strictly_sorted(code_views(old(v)@)),
    ensures
        strictly_sorted(code_views(final(v)@)),
        forall|x: Seq<char>|
            code_views(final(v)@).contains(x) <==> (code_views(old(v)@).contains(x) || x
                == code@),
{
    let key = code.chars();
    let ghost old_e = code_views(v@);
    let mut i: usize = 0;
    while i < v.len()
        invariant
            i <= v@.len(),
            old_e == code_views(v@),
            old_e.len() == v@.len(),
            strictly_sorted(old_e),
            key@ == code@,
            forall|j: int| 0 <= j < i ==> lex_lt(#[trigger] old_e[j], key@),
        ensures
            i <= v@.len(),
            forall|j: int| 0 <= j < i ==> lex_lt(#[trigger] old_e[j], key@),
            i < v@.len() ==> lex_lt(key@, old_e[i as int]),
        decreases v@.len() - i,
    {
        let k = v[i].chars();
        let c = compare_chars(&k, &key);
        if c == 0 {
            assert(old_e.contains(code@)) by {
                assert(old_e[i as int] == code@);
            }
            return;
        }
        if c > 0 {
            break;
        }
        i = i + 1;
    }
    let ghost p = i as int;
    assert(p < old_e.len() ==> lex_lt(key@, old_e[p]));
    v.insert(i, code);
    let ghost new_e = code_views(v@);
    assert(new_e =~= old_e.insert(p, key@));
    assert forall|a: int, b: int| 0 <= a < b < new_e.len() implies lex_lt(
        #[trigger] new_e[a],
        #[trigger] new_e[b],
    ) by {
        if a < p && b < p {
            assert(lex_lt(old_e[a], old_e[b]));
        } else if a < p && b == p {
        } else if a < p {
            if b - 1 > p {
                assert(lex_lt(old_e[p], old_e[b - 1]));
                lemma_lex_transitive(key@, old_e[p], old_e[b - 1]);
            }
            lemma_lex_transitive(old_e[a], key@, old_e[b - 1]);
        } else if a == p {
            if b - 1 > p {
                assert(lex_lt(old_e[p], old_e[b - 1]));
                lemma_lex_transitive(key@, old_e[p], old_e[b - 1]);
            }
        } else {
            assert(lex_lt(old_e[a - 1], old_e[b - 1]));
        }
    }
    assert forall|x: Seq<char>| new_e.contains(x) <==> (old_e.contains(x) || x == key@) by {
        if new_e.contains(x) {
            let j = choose|j: int| 0 <= j < new_e.len() && new_e[j] == x;
            if j < p {
                assert(old_e[j] == x);
            } else if j > p {
                assert(old_e[j - 1] == x);
            }
        }
        if old_e.contains(x) {
            let j = choose|j: int| 0 <= j < old_e.len() && old_e[j] == x;
            if j < p {
                assert(new_e[j] == x);
            } else {
                assert(new_e[j + 1] == x);
            }
        }
        if x == key@ {
            assert(new_e[p] == x);
        }
    }
}

/// Parse the output of `locale -a` into a sorted, deduped list of
/// validated UTF-8 locale codes.
///
/// Drops blank lines, the pseudo-locales `C` and `POSIX` (with or
/// without a codeset suffix), and anything that doesn't carry a UTF-8
/// codeset.
pub fn parse_locale_a(output: &str) -> (r: Vec<LocaleCode>)
    ensures
        strictly_sorted(code_views(r@)),
        forall|x: Seq<char>|
            code_views(r@).contains(x) <==> exists|k: int|
                0 <= k < lines(output@).len() && #[trigger] listed_code(lines(output@)[k])
                    == Some(x),
{
    let text = chars_of(output);
    let ls = split_lines(&text);
    let mut out: Vec<LocaleCode> = Vec::new();
    let mut i: usize = 0;
    while i < ls.len()
        invariant
            i <= ls@.len(),
            views(ls@) == lines(output@),
            strictly_sorted(code_views(out@)),
            forall|x: Seq<char>|
                code_views(out@).contains(x) <==> exists|k: int|
                    0 <= k < i && #[trigger] listed_code(lines(output@)[k]) == Some(x),
        decreases ls@.len() - i,
    {
        assert(views(ls@)[i as int] == ls@[i as int]@);
        let line = trimmed(&ls[i]);
        let ghost prev = code_views(out@);
        if line.len() == 0 || is_pseudo_locale(&line) || !is_utf8_locale(&line) {
            assert(listed_code(lines(output@)[i as int]) is None);
        } else {
            match LocaleCode::from_chars(&line) {
                Some(code) => {
                    let ghost c = code@;
                    assert(listed_code(lines(output@)[i as int]) == Some(c));
                    insert_sorted(&mut out, code);
                },
                None => {
                    assert(listed_code(lines(output@)[i as int]) is None);
                },
            }
        }
        assert forall|x: Seq<char>|
            code_views(out@).contains(x) <==> exists|k: int|
                0 <= k < i + 1 && #[trigger] listed_code(lines(output@)[k]) == Some(x) by {
            if code_views(out@).contains(x) && !prev.contains(x) {
                assert(listed_code(lines(output@)[i as int]) == Some(x));
            }
            if exists|k: int| 0 <= k < i + 1 && #[trigger] listed_code(lines(output@)[k]) == Some(
                x,
            ) {
                let k = choose|k: int|
                    0 <= k < i + 1 && #[trigger] listed_code(lines(output@)[k]) == Some(x);
                if k < i {
                    assert(prev.contains(x));
                }
            }
        }
        i = i + 1;
    }
    out
}

} // verus!
