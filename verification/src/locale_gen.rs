//! `/etc/locale.gen`: the list of locales to generate, one per line,
//! disabled ones commented out. Parsing keeps every other line verbatim so
//! that rendering reproduces the file.

use vstd::prelude::*;

use crate::error::{FileRead, LocaleError};
use crate::text::{
    chars_of, is_whitespace, is_ws, lines, push_chars, push_char, split_lines, split_words,
    string_of, trim_start, trim_start_bound, views, words, words_from,
};

verus! {

/// Path to the locale-gen configuration file edited by the locale
/// management page.
pub const LOCALE_GEN_PATH: &'static str = "/etc/locale.gen";

/// Privileged helper invoked via `pkexec` to write `/etc/locale.gen`
/// and run `locale-gen`. Installed by `just install` from
/// `resources/apply-locale-gen`. Pkexec resolves this path to our
/// named polkit action via the `org.freedesktop.policykit.exec.path`
/// annotation in the shipped `.policy` file.
pub const APPLY_LOCALE_GEN_HELPER: &'static str = "/usr/libexec/cosmic-locale/apply-locale-gen";

/// The abstract content of a locale row.
pub struct EntryModel {
    pub code: Seq<char>,
    pub charset: Seq<char>,
    pub enabled: bool,
}

/// The abstract content of a line of `/etc/locale.gen`.
pub enum GenLine {
    /// A toggleable locale row.
    Entry(EntryModel),
    /// Any other line, kept as it is.
    Verbatim(Seq<char>),
}

/// One row in `/etc/locale.gen` that the user can toggle on or off.
#[derive(Debug, PartialEq, Eq)]
pub struct LocaleGenEntry {
    pub code: String,
    pub charset: String,
    pub enabled: bool,
}

impl View for LocaleGenEntry {
    type V = EntryModel;

    open spec fn view(&self) -> EntryModel {
        EntryModel { code: self.code@, charset: self.charset@, enabled: self.enabled }
    }
}

#[derive(Debug, PartialEq, Eq)]
enum Line {
    /// A toggleable locale row.
    Entry(LocaleGenEntry),
    /// Anything else — header comments, blank lines, unrecognised
    /// content. Round-tripped verbatim so we don't clobber the file's
    /// hand-written guidance.
    Verbatim(String),
}

impl View for Line {
    type V = GenLine;

    closed spec fn view(&self) -> GenLine {
        match self {
            Line::Entry(e) => GenLine::Entry(e@),
            Line::Verbatim(s) => GenLine::Verbatim(s@),
        }
    }
}

/// The views of a sequence of lines.
spec fn line_views(v: Seq<Line>) -> Seq<GenLine> {
    v.map_values(|l: Line| l@)
}

/// In-memory representation of `/etc/locale.gen` that preserves
/// non-locale lines so the file can be rewritten without losing
/// header comments or formatting.
#[derive(Debug, PartialEq, Eq)]
pub struct LocaleGen {
    lines: Vec<Line>,
}

impl View for LocaleGen {
    type V = Seq<GenLine>;

    closed spec fn view(&self) -> Seq<GenLine> {
        line_views(self.lines@)
    }
}

impl LocaleGen {
    /// Every stored line is one that parsing can produce.
    #[verifier::type_invariant]
    spec fn well_formed(self) -> bool {
        parsed_shape(self@)
    }
}

/// A locale name as `locale.gen` writes it: a lower-case ASCII letter first
/// and no whitespace.
pub open spec fn looks_like_code(s: Seq<char>) -> bool {
    &&& s.len() > 0
    &&& 'a' <= s[0] <= 'z'
    &&& forall|i: int| 0 <= i < s.len() ==> !is_ws(#[trigger] s[i])
}

/// A character set name: an upper-case ASCII letter first and no
/// whitespace.
pub open spec fn charset_like(s: Seq<char>) -> bool {
    &&& s.len() > 0
    &&& 'A' <= s[0] <= 'Z'
    &&& forall|i: int| 0 <= i < s.len() ==> !is_ws(#[trigger] s[i])
}

/// The locale row that a line holds, if it is one: after leading
/// whitespace, an optional `#` (then more optional whitespace) marking the
/// row disabled, then exactly two words, a locale name and a character set.
pub open spec fn entry_of(raw: Seq<char>) -> Option<EntryModel> {
    let t = trim_start(raw);
    let enabled = !(t.len() > 0 && t[0] == '#');
    let body = if enabled {
        t
    } else {
        trim_start(t.drop_first())
    };
    let w = words(body);
    if w.len() == 2 && looks_like_code(w[0]) && charset_like(w[1]) {
        Some(EntryModel { code: w[0], charset: w[1], enabled })
    } else {
        None
    }
}

/// What a line of the file becomes: a locale row, or itself verbatim.
pub open spec fn parse_line(raw: Seq<char>) -> GenLine {
    match entry_of(raw) {
        Some(e) => GenLine::Entry(e),
        None => GenLine::Verbatim(raw),
    }
}

/// The lines of a `locale.gen` text.
pub open spec fn parsed_gen(input: Seq<char>) -> Seq<GenLine> {
    lines(input).map_values(|l: Seq<char>| parse_line(l))
}

/// Whether `ls` has the shape that parsing produces: rows with well-formed
/// names, and verbatim lines that hold no newline and are no rows.
pub open spec fn parsed_shape(ls: Seq<GenLine>) -> bool {
    forall|k: int|
        0 <= k < ls.len() ==> match #[trigger] ls[k] {
            GenLine::Entry(e) => looks_like_code(e.code) && charset_like(e.charset),
            GenLine::Verbatim(v) => !v.contains('\n') && entry_of(v) is None,
        }
}

/// The text of a line, without its newline: a row is `code charset`,
/// behind `# ` when disabled.
pub open spec fn line_text(l: GenLine) -> Seq<char> {
    match l {
        GenLine::Entry(e) => (if e.enabled {
            seq![]
        } else {
            seq!['#', ' ']
        }) + e.code + seq![' '] + e.charset,
        GenLine::Verbatim(s) => s,
    }
}

/// Lines joined, each followed by a newline.
pub open spec fn join_lines(ls: Seq<Seq<char>>) -> Seq<char>
    decreases ls.len(),
{
    if ls.len() == 0 {
        seq![]
    } else {
        join_lines(ls.drop_last()) + ls.last() + seq!['\n']
    }
}

/// The text of a `locale.gen`.
pub open spec fn rendered(ls: Seq<GenLine>) -> Seq<char> {
    join_lines(ls.map_values(|l: GenLine| line_text(l)))
}

/// `ls` with the row at `i` switched on or off; unchanged when `i` is out
/// of range or names a verbatim line.
pub open spec fn toggled(ls: Seq<GenLine>, i: int) -> Seq<GenLine> {
    if 0 <= i < ls.len() && ls[i] is Entry {
        let e = ls[i]->Entry_0;
        ls.update(i, GenLine::Entry(EntryModel { enabled: !e.enabled, ..e }))
    } else {
        ls
    }
}

/// The rows among `ls[k..]`, each with its line index.
pub open spec fn rows_from(ls: Seq<GenLine>, k: int) -> Seq<(int, EntryModel)>
    decreases ls.len() - k,
{
    if k < 0 || k >= ls.len() {
        seq![]
    } else {
        match ls[k] {
            GenLine::Entry(e) => seq![(k, e)] + rows_from(ls, k + 1),
            GenLine::Verbatim(_) => rows_from(ls, k + 1),
        }
    }
}

/// The rows of `ls`, each with its line index, in file order.
pub open spec fn rows(ls: Seq<GenLine>) -> Seq<(int, EntryModel)> {
    rows_from(ls, 0)
}

/// Whether `c` is an ASCII lower-case letter.
fn is_ascii_lowercase(c: char) -> (b: bool)
    ensures
        b == ('a' <= c <= 'z'),
{
    'a' <= c && c <= 'z'
}

/// Whether `c` is an ASCII upper-case letter.
fn is_ascii_uppercase(c: char) -> (b: bool)
    ensures
        b == ('A' <= c <= 'Z'),
{
    'A' <= c && c <= 'Z'
}

/// Whether `s` holds no whitespace.
fn no_whitespace(s: &[char]) -> (b: bool)
    ensures
        b == forall|i: int| 0 <= i < s@.len() ==> !is_ws(#[trigger] s@[i]),
{
    let mut i: usize = 0;
    while i < s.len()
        invariant
            i <= s@.len(),
            forall|j: int| 0 <= j < i ==> !is_ws(#[trigger] s@[j]),
        decreases s@.len() - i,
    {
        if is_whitespace(s[i]) {
            return false;
        }
        i = i + 1;
    }
    true
}

/// Whether `s` looks like a locale name.
pub fn looks_like_locale_code(s: &[char]) -> (b: bool)
    ensures
        b == looks_like_code(s@),
{
    s.len() > 0 && is_ascii_lowercase(s[0]) && no_whitespace(s)
}

/// Whether `s` looks like a character set name.
pub fn looks_like_charset(s: &[char]) -> (b: bool)
    ensures
        b == charset_like(s@),
{
    s.len() > 0 && is_ascii_uppercase(s[0]) && no_whitespace(s)
}

/// The locale row that the line `raw` holds, if it is one.
pub fn try_parse_locale_gen_entry(raw: &[char]) -> (r: Option<LocaleGenEntry>)
    ensures
        match r {
            Some(e) => entry_of(raw@) == Some(e@),
            None => entry_of(raw@) is None,
        },
{
    let n = raw.len();
    let a = trim_start_bound(raw, 0, n);
    assert(raw@.subrange(0, n as int) =~= raw@);
    let ghost t = trim_start(raw@);
    let enabled = !(a < n && raw[a] == '#');
    let start = if enabled {
        a
    } else {
        let b = trim_start_bound(raw, a + 1, n);
        assert(raw@.subrange(a + 1, n as int) =~= t.drop_first());
        b
    };
    let body = crate::text::sub_vec(raw, start, n);
    let w = split_words(&body);
    if w.len() == 2 && looks_like_locale_code(&w[0]) && looks_like_charset(&w[1]) {
        assert(views(w@)[0] == w@[0]@);
        assert(views(w@)[1] == w@[1]@);
        Some(
            LocaleGenEntry {
                code: string_of(&w[0]),
                charset: string_of(&w[1]),
                enabled,
            },
        )
    } else {
        proof {
            if w@.len() == 2 {
                assert(views(w@)[0] == w@[0]@);
                assert(views(w@)[1] == w@[1]@);
            }
        }
        None
    }
}

impl Default for LocaleGen {
    fn default() -> (r: Self)
        ensures
            r@ == Seq::<GenLine>::empty(),
    {
        let lines: Vec<Line> = Vec::new();
        assert(line_views(lines@) =~= Seq::<GenLine>::empty());
        LocaleGen { lines }
    }
}

impl Clone for LocaleGenEntry {
    fn clone(&self) -> (r: Self)
        ensures
            r@ == self@,
    {
        LocaleGenEntry {
            code: self.code.clone(),
            charset: self.charset.clone(),
            enabled: self.enabled,
        }
    }
}

impl Line {
    fn duplicate(&self) -> (r: Self)
        ensures
            r@ == self@,
    {
        match self {
            Line::Entry(e) => Line::Entry(e.clone()),
            Line::Verbatim(s) => Line::Verbatim(s.clone()),
        }
    }
}

impl Clone for LocaleGen {
    fn clone(&self) -> (r: Self)
        ensures
            r@ == self@,
    {
        proof {
            use_type_invariant(self);
        }
        let mut lines: Vec<Line> = Vec::new();
        let mut i: usize = 0;
        while i < self.lines.len()
            invariant
                i <= self.lines@.len(),
                lines@.len() == i,
                forall|j: int| 0 <= j < i ==> (#[trigger] lines@[j])@ == self.lines@[j]@,
            decreases self.lines@.len() - i,
        {
            lines.push(self.lines[i].duplicate());
            i = i + 1;
        }
        assert(line_views(lines@) =~= self@);
        LocaleGen { lines }
    }
}

impl LocaleGen {
    /// All locale rows paired with their line index, in file order.
    pub fn entries(&self) -> (r: Vec<(usize, &LocaleGenEntry)>)
        ensures
            r@.map_values(|p: (usize, &LocaleGenEntry)| (p.0 as int, p.1@)) == rows(self@),
    {
        let mut out: Vec<(usize, &LocaleGenEntry)> = Vec::new();
        let mut k: usize = 0;
        let ghost ls = self@;
        assert(out@.map_values(|p: (usize, &LocaleGenEntry)| (p.0 as int, p.1@)) + rows_from(ls, 0)
            =~= rows(ls));
        while k < self.lines.len()
            invariant
                k <= self.lines@.len(),
                ls == self@,
                ls.len() == self.lines@.len(),
                out@.map_values(|p: (usize, &LocaleGenEntry)| (p.0 as int, p.1@)) + rows_from(
                    ls,
                    k as int,
                ) == rows(ls),
            decreases self.lines@.len() - k,
        {
            let ghost prev = out@.map_values(|p: (usize, &LocaleGenEntry)| (p.0 as int, p.1@));
            assert(ls[k as int] == self.lines@[k as int]@);
            match &self.lines[k] {
                Line::Entry(e) => {
                    out.push((k, e));
                    assert(out@.map_values(|p: (usize, &LocaleGenEntry)| (p.0 as int, p.1@))
                        =~= prev.push((k as int, e@)));
                    assert(prev + rows_from(ls, k as int) =~= prev.push((k as int, e@))
                        + rows_from(ls, k + 1));
                },
                Line::Verbatim(_) => {},
            }
            k = k + 1;
        }
        assert(rows_from(ls, k as int) =~= Seq::<(int, EntryModel)>::empty());
        assert(out@.map_values(|p: (usize, &LocaleGenEntry)| (p.0 as int, p.1@)) + Seq::<
            (int, EntryModel),
        >::empty() =~= out@.map_values(|p: (usize, &LocaleGenEntry)| (p.0 as int, p.1@)));
        out
    }

    /// Toggle the entry at the given line index. No-op if the index
    /// is out of bounds or refers to a verbatim line.
    pub fn toggle(&mut self, line_index: usize)
        ensures
            final(self)@ == toggled(old(self)@, line_index as int),
    {
        proof {
            use_type_invariant(&*self);
        }
        if line_index < self.lines.len() {
            let flipped = match &self.lines[line_index] {
                Line::Entry(e) => Some(
                    LocaleGenEntry {
                        code: e.code.clone(),
                        charset: e.charset.clone(),
                        enabled: !e.enabled,
                    },
                ),
                Line::Verbatim(_) => None,
            };
            match flipped {
                Some(e) => {
                    let mut lines: Vec<Line> = Vec::new();
                    std::mem::swap(&mut lines, &mut self.lines);
                    lines.set(line_index, Line::Entry(e));
                    assert(line_views(lines@) =~= toggled(old(self)@, line_index as int));
                    self.lines = lines;
                },
                None => {},
            }
        }
    }

    /// Whether both hold the same lines.
    pub fn same_as(&self, other: &LocaleGen) -> (b: bool)
        ensures
            b == (self@ == other@),
    {
        if self.lines.len() != other.lines.len() {
            assert(self@.len() != other@.len());
            return false;
        }
        let mut i: usize = 0;
        while i < self.lines.len()
            invariant
                i <= self.lines@.len(),
                self.lines@.len() == other.lines@.len(),
                forall|j: int| 0 <= j < i ==> self.lines@[j]@ == #[trigger] other.lines@[j]@,
            decreases self.lines@.len() - i,
        {
            let same = match &self.lines[i] {
                Line::Entry(a) => match &other.lines[i] {
                    Line::Entry(b) => a.enabled == b.enabled && a.code == b.code && a.charset
                        == b.charset,
                    Line::Verbatim(_) => false,
                },
                Line::Verbatim(a) => match &other.lines[i] {
                    Line::Entry(_) => false,
                    Line::Verbatim(b) => *a == *b,
                },
            };
            assert(self@[i as int] == self.lines@[i as int]@);
            assert(other@[i as int] == other.lines@[i as int]@);
            if !same {
                return false;
            }
            i = i + 1;
        }
        assert(self@ =~= other@);
        true
    }
}

/// Parse the contents of `/etc/locale.gen`.
///
/// Each non-empty, non-pure-comment line is examined as `<code> <charset>`
/// (with an optional leading `#` marking a disabled entry). Anything that
/// doesn't fit that shape is preserved verbatim — header comments, blank
/// lines, and oddly-formatted entries all survive a parse + render round
/// trip.
pub fn parse_locale_gen(input: &str) -> (r: LocaleGen)
    ensures
        r@ == parsed_gen(input@),
{
    let text = chars_of(input);
    let ls = split_lines(&text);
    proof {
        lemma_lines_no_newline(input@, seq![]);
    }
    let mut out: Vec<Line> = Vec::new();
    let mut i: usize = 0;
    while i < ls.len()
        invariant
            i <= ls@.len(),
            views(ls@) == lines(input@),
            forall|k: int| 0 <= k < lines(input@).len() ==> !(#[trigger] lines(input@)[k]).contains('\n'),
            out@.len() == i,
            forall|j: int| 0 <= j < i ==> (#[trigger] out@[j])@ == parse_line(ls@[j]@),
        decreases ls@.len() - i,
    {
        let line = match try_parse_locale_gen_entry(&ls[i]) {
            Some(e) => Line::Entry(e),
            None => Line::Verbatim(string_of(&ls[i])),
        };
        out.push(line);
        i = i + 1;
    }
    assert forall|j: int| 0 <= j < line_views(out@).len() implies line_views(out@)[j]
        == parsed_gen(input@)[j] by {
        assert(lines(input@)[j] == ls@[j]@);
    }
    assert(line_views(out@) =~= parsed_gen(input@));
    assert forall|k: int| 0 <= k < parsed_gen(input@).len() implies match #[trigger] parsed_gen(
        input@,
    )[k] {
        GenLine::Entry(e) => looks_like_code(e.code) && charset_like(e.charset),
        GenLine::Verbatim(v) => !v.contains('\n') && entry_of(v) is None,
    } by {
        assert(!lines(input@)[k].contains('\n'));
    }
    LocaleGen { lines: out }
}

/// Appends the text of one line, with its newline, to `out`.
fn push_line(out: &mut String, line: &Line)
    ensures
        final(out)@ == old(out)@ + line_text(line@) + seq!['\n'],
{
    match line {
        Line::Entry(e) => {
            let ghost start = out@;
            if !e.enabled {
                push_char(out, '#');
                push_char(out, ' ');
            }
            let code = chars_of(e.code.as_str());
            push_chars(out, &code);
            push_char(out, ' ');
            let charset = chars_of(e.charset.as_str());
            push_chars(out, &charset);
            push_char(out, '\n');
            assert(out@ =~= start + line_text(line@) + seq!['\n']);
        },
        Line::Verbatim(s) => {
            let ghost start = out@;
            let v = chars_of(s.as_str());
            push_chars(out, &v);
            push_char(out, '\n');
            assert(out@ =~= start + line_text(line@) + seq!['\n']);
        },
    }
}

/// Render a [`LocaleGen`] back to the on-disk format.
///
/// Entry lines normalise to `code charset\n` (or `# code charset\n`
/// when disabled). Verbatim lines pass through unchanged.
pub fn render_locale_gen(locale_gen: &LocaleGen) -> (r: String)
    ensures
        r@ == rendered(locale_gen@),
        r@.len() == 0 || r@.last() == '\n',
        lines(r@) == locale_gen@.map_values(|l: GenLine| crate::text::strip_cr(line_text(l))),
        lines(r@).len() == locale_gen@.len(),
{
    proof {
        use_type_invariant(locale_gen);
    }
    let mut out = String::new();
    let mut i: usize = 0;
    let ghost texts = locale_gen@.map_values(|l: GenLine| line_text(l));
    assert(texts.subrange(0, 0) =~= Seq::<Seq<char>>::empty());
    while i < locale_gen.lines.len()
        invariant
            i <= locale_gen.lines@.len(),
            texts == locale_gen@.map_values(|l: GenLine| line_text(l)),
            texts.len() == locale_gen.lines@.len(),
            out@ == join_lines(texts.subrange(0, i as int)),
        decreases locale_gen.lines@.len() - i,
    {
        push_line(&mut out, &locale_gen.lines[i]);
        assert(texts.subrange(0, i + 1).drop_last() =~= texts.subrange(0, i as int));
        assert(texts[i as int] == line_text(locale_gen.lines@[i as int]@));
        i = i + 1;
    }
    assert(texts.subrange(0, i as int) =~= texts);
    proof {
        assert forall|k: int| 0 <= k < texts.len() implies !(#[trigger] texts[k]).contains('\n') by {
            match locale_gen@[k] {
                GenLine::Entry(e) => {
                    lemma_row_roundtrip(e);
                },
                GenLine::Verbatim(v) => {},
            }
        }
        lemma_lines_of_join_stripped(texts);
        assert(texts.map_values(|t: Seq<char>| crate::text::strip_cr(t)) =~= locale_gen@.map_values(
            |l: GenLine| crate::text::strip_cr(line_text(l)),
        ));
    }
    out
}

/// What reading `/etc/locale.gen` yields: its parsed lines, no lines if the
/// file does not exist, and an error if it exists but cannot be read.
pub fn locale_gen_from_read(read: FileRead) -> (r: Result<LocaleGen, LocaleError>)
    ensures
        match read {
            FileRead::Contents(c) => r matches Ok(g) && g@ == parsed_gen(c@),
            FileRead::NotFound => r matches Ok(g) && g@ == Seq::<GenLine>::empty(),
            FileRead::Failed(msg) => {
                &&& r matches Err(LocaleError::ReadConfig { path, source })
                &&& path@ == LOCALE_GEN_PATH@
                &&& source == msg
            },
        },
{
    match read {
        FileRead::Contents(c) => Ok(parse_locale_gen(c.as_str())),
        FileRead::NotFound => Ok(LocaleGen::default()),
        FileRead::Failed(msg) => Err(
            LocaleError::ReadConfig { path: string_of(&chars_of(LOCALE_GEN_PATH)), source: msg },
        ),
    }
}

/// Rendering a parsed text gives the text back, provided the text is a
/// sequence of newline-terminated lines (so no missing final newline and no
/// `\r\n` endings) and every locale row in it is already written the way
/// rendering writes rows (`code charset`, or `# code charset`).
pub proof fn lemma_render_parse_roundtrip(s: Seq<char>)
    requires
        s == join_lines(lines(s)),
        forall|k: int|
            0 <= k < lines(s).len() ==> (#[trigger] entry_of(lines(s)[k]) matches Some(e)
                ==> line_text(GenLine::Entry(e)) == lines(s)[k]),
    ensures
        rendered(parsed_gen(s)) == s,
{
    let texts = parsed_gen(s).map_values(|l: GenLine| line_text(l));
    assert forall|k: int| 0 <= k < texts.len() implies texts[k] == lines(s)[k] by {
        let _ = entry_of(lines(s)[k]);
    }
    assert(texts =~= lines(s));
}

/// Switching the same row twice restores the file.
pub proof fn lemma_toggle_twice(ls: Seq<GenLine>, i: int)
    ensures
        toggled(toggled(ls, i), i) == ls,
{
    if 0 <= i < ls.len() && ls[i] is Entry {
        let e = ls[i]->Entry_0;
        assert(toggled(ls, i)[i] == GenLine::Entry(EntryModel { enabled: !e.enabled, ..e }));
        assert(toggled(toggled(ls, i), i) =~= ls);
    }
}

/// Lines are read off a text one character at a time: a line without
/// newline followed by a newline closes the current line.
proof fn lemma_lines_from_line(t: Seq<char>, rest: Seq<char>, cur: Seq<char>)
    requires
        !t.contains('\n'),
    ensures
        crate::text::lines_from(t + seq!['\n'] + rest, cur) == seq![crate::text::strip_cr(cur + t)]
            + crate::text::lines_from(rest, seq![]),
    decreases t.len(),
{
    let s = t + seq!['\n'] + rest;
    if t.len() == 0 {
        assert(s =~= seq!['\n'] + rest);
        assert(s.drop_first() =~= rest);
        assert(cur + t =~= cur);
    } else {
        assert(s[0] == t[0]);
        assert(s.drop_first() =~= t.drop_first() + seq!['\n'] + rest);
        assert(!t.drop_first().contains('\n')) by {
            if t.drop_first().contains('\n') {
                let j = choose|j: int| 0 <= j < t.drop_first().len() && t.drop_first()[j] == '\n';
                assert(t[j + 1] == '\n');
            }
        }
        lemma_lines_from_line(t.drop_first(), rest, cur.push(t[0]));
        assert(cur.push(t[0]) + t.drop_first() =~= cur + t);
    }
}

/// `join_lines` read from the front.
proof fn lemma_join_front(ts: Seq<Seq<char>>)
    requires
        ts.len() > 0,
    ensures
        join_lines(ts) == ts[0] + seq!['\n'] + join_lines(ts.drop_first()),
    decreases ts.len(),
{
    if ts.len() == 1 {
        assert(ts.drop_last() =~= Seq::<Seq<char>>::empty());
        assert(ts.drop_first() =~= Seq::<Seq<char>>::empty());
        assert(join_lines(ts) =~= ts[0] + seq!['\n'] + join_lines(ts.drop_first()));
    } else {
        lemma_join_front(ts.drop_last());
        assert(ts.drop_last().drop_first() =~= ts.drop_first().drop_last());
        assert(ts.drop_first().last() == ts.last());
        assert(join_lines(ts) =~= ts[0] + seq!['\n'] + join_lines(ts.drop_first()));
    }
}

/// A line that can stand alone in a text: no newline in it and no
/// carriage return at its end.
pub open spec fn plain_line(t: Seq<char>) -> bool {
    !t.contains('\n') && !(t.len() > 0 && t.last() == '\r')
}

/// Splitting joined lines that hold no newline gives the lines back, each
/// without a carriage return at its end.
pub proof fn lemma_lines_of_join_stripped(ts: Seq<Seq<char>>)
    requires
        forall|k: int| 0 <= k < ts.len() ==> !(#[trigger] ts[k]).contains('\n'),
    ensures
        lines(join_lines(ts)) == ts.map_values(|t: Seq<char>| crate::text::strip_cr(t)),
    decreases ts.len(),
{
    if ts.len() == 0 {
        assert(ts.map_values(|t: Seq<char>| crate::text::strip_cr(t)) =~= Seq::<
            Seq<char>,
        >::empty());
    } else {
        lemma_join_front(ts);
        lemma_lines_from_line(ts[0], join_lines(ts.drop_first()), seq![]);
        assert(seq![] + ts[0] =~= ts[0]);
        assert forall|k: int| 0 <= k < ts.drop_first().len() implies !(
        #[trigger] ts.drop_first()[k]).contains('\n') by {
            assert(ts.drop_first()[k] == ts[k + 1]);
        }
        lemma_lines_of_join_stripped(ts.drop_first());
        assert(ts.map_values(|t: Seq<char>| crate::text::strip_cr(t)) =~= seq![
            crate::text::strip_cr(ts[0]),
        ] + ts.drop_first().map_values(|t: Seq<char>| crate::text::strip_cr(t)));
    }
}

/// Splitting joined plain lines gives the lines back.
pub proof fn lemma_lines_of_join(ts: Seq<Seq<char>>)
    requires
        forall|k: int| 0 <= k < ts.len() ==> plain_line(#[trigger] ts[k]),
    ensures
        lines(join_lines(ts)) == ts,
{
    lemma_lines_of_join_stripped(ts);
    assert(ts.map_values(|t: Seq<char>| crate::text::strip_cr(t)) =~= ts);
}

/// Words are read off one character at a time.
proof fn lemma_words_run(a: Seq<char>, rest: Seq<char>, cur: Seq<char>)
    requires
        forall|i: int| 0 <= i < a.len() ==> !is_ws(#[trigger] a[i]),
    ensures
        words_from(a + rest, cur) == words_from(rest, cur + a),
    decreases a.len(),
{
    if a.len() == 0 {
        assert(a + rest =~= rest);
        assert(cur + a =~= cur);
    } else {
        let s = a + rest;
        assert(s[0] == a[0]);
        assert(s.drop_first() =~= a.drop_first() + rest);
        lemma_words_run(a.drop_first(), rest, cur.push(a[0]));
        assert(cur.push(a[0]) + a.drop_first() =~= cur + a);
    }
}

/// The words of `code charset`.
proof fn lemma_words_of_row(code: Seq<char>, charset: Seq<char>)
    requires
        looks_like_code(code),
        charset_like(charset),
    ensures
        words(code + seq![' '] + charset) == seq![code, charset],
{
    let s = code + seq![' '] + charset;
    assert(s =~= code + (seq![' '] + charset));
    lemma_words_run(code, seq![' '] + charset, seq![]);
    assert(seq![] + code =~= code);
    let r = seq![' '] + charset;
    assert(r[0] == ' ');
    assert(r.drop_first() =~= charset);
    assert(charset =~= charset + Seq::<char>::empty());
    lemma_words_run(charset, Seq::<char>::empty(), seq![]);
    assert(seq![] + charset =~= charset);
}

/// Leading whitespace is all that `trim_start` drops.
proof fn lemma_trim_start_keeps(s: Seq<char>)
    requires
        s.len() > 0,
        !is_ws(s[0]),
    ensures
        trim_start(s) == s,
{
}

/// A row, once rendered, reads back as the same row.
pub proof fn lemma_row_roundtrip(e: EntryModel)
    requires
        looks_like_code(e.code),
        charset_like(e.charset),
    ensures
        entry_of(line_text(GenLine::Entry(e))) == Some(e),
        plain_line(line_text(GenLine::Entry(e))),
{
    let row = e.code + seq![' '] + e.charset;
    lemma_words_of_row(e.code, e.charset);
    let text = line_text(GenLine::Entry(e));
    if e.enabled {
        assert(text =~= row);
        assert(text[0] == e.code[0]);
        lemma_trim_start_keeps(text);
    } else {
        assert(text =~= seq!['#', ' '] + row);
        assert(text[0] == '#');
        lemma_trim_start_keeps(text);
        assert(text.drop_first() =~= seq![' '] + row);
        assert(text.drop_first().drop_first() =~= row);
        assert(row[0] == e.code[0]);
        lemma_trim_start_keeps(row);
    }
    assert(text.last() == e.charset.last());
    assert(!text.contains('\n')) by {
        if text.contains('\n') {
            let j = choose|j: int| 0 <= j < text.len() && text[j] == '\n';
            if e.enabled {
                if j < e.code.len() {
                    assert(text[j] == e.code[j]);
                } else if j > e.code.len() {
                    assert(text[j] == e.charset[j - e.code.len() - 1]);
                }
            } else {
                if 2 <= j < e.code.len() + 2 {
                    assert(text[j] == e.code[j - 2]);
                } else if j > e.code.len() + 2 {
                    assert(text[j] == e.charset[j - e.code.len() - 3]);
                }
            }
        }
    }
}

/// A line `code charset`, or `# code charset`, is a row with exactly that
/// code and charset, whatever other non-whitespace characters (such as a
/// `@modifier`) the code holds: the code needs only a lower-case ASCII
/// letter first and no whitespace, the charset an upper-case ASCII letter
/// first and no whitespace. As the only line of a file, it is the file's
/// one row.
pub proof fn lemma_row_lines_parse(code: Seq<char>, charset: Seq<char>)
    requires
        code.len() > 0,
        'a' <= code[0] <= 'z',
        forall|i: int| 0 <= i < code.len() ==> !is_ws(#[trigger] code[i]),
        charset.len() > 0,
        'A' <= charset[0] <= 'Z',
        forall|i: int| 0 <= i < charset.len() ==> !is_ws(#[trigger] charset[i]),
    ensures
        entry_of(code + seq![' '] + charset) == Some(
            EntryModel { code, charset, enabled: true },
        ),
        entry_of(seq!['#', ' '] + code + seq![' '] + charset) == Some(
            EntryModel { code, charset, enabled: false },
        ),
        parsed_gen(code + seq![' '] + charset + seq!['\n']) == seq![
            GenLine::Entry(EntryModel { code, charset, enabled: true }),
        ],
        parsed_gen(seq!['#', ' '] + code + seq![' '] + charset + seq!['\n']) == seq![
            GenLine::Entry(EntryModel { code, charset, enabled: false }),
        ],
{
    let on = EntryModel { code, charset, enabled: true };
    let off = EntryModel { code, charset, enabled: false };
    lemma_row_roundtrip(on);
    lemma_row_roundtrip(off);
    assert(line_text(GenLine::Entry(on)) =~= code + seq![' '] + charset);
    assert(line_text(GenLine::Entry(off)) =~= seq!['#', ' '] + code + seq![' '] + charset);
    let t_on = line_text(GenLine::Entry(on));
    let t_off = line_text(GenLine::Entry(off));
    lemma_lines_of_join(seq![t_on]);
    lemma_lines_of_join(seq![t_off]);
    assert(seq![t_on].drop_last() =~= Seq::<Seq<char>>::empty());
    assert(seq![t_off].drop_last() =~= Seq::<Seq<char>>::empty());
    assert(join_lines(seq![t_on]) == join_lines(seq![t_on].drop_last()) + t_on + seq!['\n']);
    assert(join_lines(Seq::<Seq<char>>::empty()) == Seq::<char>::empty());
    assert(Seq::<char>::empty() + t_on + seq!['\n'] =~= t_on + seq!['\n']);
    assert(join_lines(seq![t_off]) == join_lines(seq![t_off].drop_last()) + t_off + seq!['\n']);
    assert(join_lines(Seq::<Seq<char>>::empty()) == Seq::<char>::empty());
    assert(Seq::<char>::empty() + t_off + seq!['\n'] =~= t_off + seq!['\n']);
    assert(parsed_gen(t_on + seq!['\n']) =~= seq![GenLine::Entry(on)]);
    assert(parsed_gen(t_off + seq!['\n']) =~= seq![GenLine::Entry(off)]);
}

/// Whether a parsed file is in the shape parsing produces and rendering
/// keeps: rows with well-formed names, and verbatim lines that are plain
/// and are no rows.
pub open spec fn wf_gen(ls: Seq<GenLine>) -> bool {
    forall|k: int|
        0 <= k < ls.len() ==> match #[trigger] ls[k] {
            GenLine::Entry(e) => looks_like_code(e.code) && charset_like(e.charset),
            GenLine::Verbatim(v) => plain_line(v) && entry_of(v) is None,
        }
}

/// Parsing a rendered file gives the same lines back.
pub proof fn lemma_parse_render_roundtrip(ls: Seq<GenLine>)
    requires
        wf_gen(ls),
    ensures
        parsed_gen(rendered(ls)) == ls,
{
    let texts = ls.map_values(|l: GenLine| line_text(l));
    assert forall|k: int| 0 <= k < texts.len() implies plain_line(#[trigger] texts[k])
        && parse_line(texts[k]) == ls[k] by {
        match ls[k] {
            GenLine::Entry(e) => {
                lemma_row_roundtrip(e);
            },
            GenLine::Verbatim(v) => {},
        }
    }
    lemma_lines_of_join(texts);
    assert(parsed_gen(rendered(ls)) =~= ls);
}

/// No line of a text holds a newline.
proof fn lemma_lines_no_newline(s: Seq<char>, cur: Seq<char>)
    requires
        !cur.contains('\n'),
    ensures
        forall|k: int|
            0 <= k < crate::text::lines_from(s, cur).len() ==> !(#[trigger] crate::text::lines_from(
                s,
                cur,
            )[k]).contains('\n'),
    decreases s.len(),
{
    let ls = crate::text::lines_from(s, cur);
    if s.len() == 0 {
        if cur.len() > 0 {
            assert(ls =~= seq![cur]);
        }
    } else if s[0] == '\n' {
        lemma_lines_no_newline(s.drop_first(), seq![]);
        let c = crate::text::strip_cr(cur);
        assert(!c.contains('\n')) by {
            if c.contains('\n') {
                let j = choose|j: int| 0 <= j < c.len() && c[j] == '\n';
                assert(cur[j] == c[j]);
            }
        }
        assert forall|k: int| 0 <= k < ls.len() implies !(#[trigger] ls[k]).contains('\n') by {
            if k > 0 {
                assert(ls[k] == crate::text::lines_from(s.drop_first(), seq![])[k - 1]);
            }
        }
    } else {
        let c2 = cur.push(s[0]);
        assert(!c2.contains('\n')) by {
            if c2.contains('\n') {
                let j = choose|j: int| 0 <= j < c2.len() && c2[j] == '\n';
                if j < cur.len() {
                    assert(cur[j] == c2[j]);
                }
            }
        }
        lemma_lines_no_newline(s.drop_first(), c2);
        assert(ls == crate::text::lines_from(s.drop_first(), c2));
    }
}

/// The lines of a text without carriage returns are plain.
proof fn lemma_lines_plain(s: Seq<char>, cur: Seq<char>)
    requires
        !s.contains('\r'),
        !cur.contains('\r'),
        !cur.contains('\n'),
    ensures
        forall|k: int|
            0 <= k < crate::text::lines_from(s, cur).len() ==> plain_line(
                #[trigger] crate::text::lines_from(s, cur)[k],
            ),
    decreases s.len(),
{
    let ls = crate::text::lines_from(s, cur);
    if cur.len() > 0 {
        assert(cur[cur.len() - 1] == cur.last());
        assert(cur.last() != '\r');
    }
    if s.len() == 0 {
        assert(plain_line(cur));
    } else {
        assert(!s.drop_first().contains('\r')) by {
            if s.drop_first().contains('\r') {
                let j = choose|j: int| 0 <= j < s.drop_first().len() && s.drop_first()[j] == '\r';
                assert(s[j + 1] == '\r');
            }
        }
        if s[0] == '\n' {
            lemma_lines_plain(s.drop_first(), seq![]);
            assert(crate::text::strip_cr(cur) == cur);
            assert forall|k: int| 0 <= k < ls.len() implies plain_line(#[trigger] ls[k]) by {
                if k > 0 {
                    assert(ls[k] == crate::text::lines_from(s.drop_first(), seq![])[k - 1]);
                }
            }
        } else {
            assert(s[0] != '\r');
            let c2 = cur.push(s[0]);
            assert(!c2.contains('\r') && !c2.contains('\n')) by {
                if c2.contains('\r') || c2.contains('\n') {
                    let j = choose|j: int| 0 <= j < c2.len() && (c2[j] == '\r' || c2[j] == '\n');
                    if j < cur.len() {
                        assert(cur[j] == c2[j]);
                    }
                }
            }
            lemma_lines_plain(s.drop_first(), c2);
            assert(ls == crate::text::lines_from(s.drop_first(), c2));
        }
    }
}

/// Parsing a text without carriage returns gives a well-formed file.
pub proof fn lemma_parse_wf(s: Seq<char>)
    requires
        !s.contains('\r'),
    ensures
        wf_gen(parsed_gen(s)),
{
    lemma_lines_plain(s, seq![]);
    assert forall|k: int| 0 <= k < parsed_gen(s).len() implies match #[trigger] parsed_gen(s)[k] {
        GenLine::Entry(e) => looks_like_code(e.code) && charset_like(e.charset),
        GenLine::Verbatim(v) => plain_line(v) && entry_of(v) is None,
    } by {
        assert(plain_line(lines(s)[k]));
    }
}

/// Writing a parsed text back out and parsing the result again gives the
/// same lines: normalising a file is done after one round.
pub proof fn lemma_parse_render_parse(s: Seq<char>)
    requires
        !s.contains('\r'),
    ensures
        parsed_gen(rendered(parsed_gen(s))) == parsed_gen(s),
{
    lemma_parse_wf(s);
    lemma_parse_render_roundtrip(parsed_gen(s));
}

} // verus!
