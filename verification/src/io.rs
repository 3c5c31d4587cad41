use vstd::prelude::*;
use std::ops::Range;

verus! {

/// `String::push` appends one character at the end of the string.
pub assume_specification[ String::push ](s: &mut String, ch: char)
    ensures
        final(s)@ == old(s)@.push(ch),
;

/// Detected line ending style of a file.
#[derive(Debug, Clone, Copy, PartialEq, Eq, Structural)]
pub enum LineEnding {
    Lf,
    CrLf,
}

/// The characters that end a line in the given style.
pub open spec fn ending_chars(e: LineEnding) -> Seq<char> {
    match e {
        LineEnding::Lf => seq!['\n'],
        LineEnding::CrLf => seq!['\r', '\n'],
    }
}

/// Whether `s` holds `\r\n` starting at position `i`.
pub open spec fn crlf_at(s: Seq<char>, i: int) -> bool {
    0 <= i && i + 1 < s.len() && s[i] == '\r' && s[i + 1] == '\n'
}

/// Whether `s` holds the two-character sequence `\r\n` somewhere.
pub open spec fn has_crlf(s: Seq<char>) -> bool {
    exists|i: int| #[trigger] crlf_at(s, i)
}

/// `s` with every `\r\n` replaced by `\n` (occurrences of `\r\n` never overlap,
/// so scanning from either end gives the same result).
pub open spec fn normalize_newlines(s: Seq<char>) -> Seq<char>
    decreases s.len(),
{
    if s.len() == 0 {
        s
    } else if s.len() >= 2 && s[s.len() - 2] == '\r' && s[s.len() - 1] == '\n' {
        normalize_newlines(s.subrange(0, s.len() - 2)).push('\n')
    } else {
        normalize_newlines(s.drop_last()).push(s.last())
    }
}

/// `s` with every `\n` replaced by `sep`.
pub open spec fn expand_newlines(s: Seq<char>, sep: Seq<char>) -> Seq<char>
    decreases s.len(),
{
    if s.len() == 0 {
        s
    } else if s.last() == '\n' {
        expand_newlines(s.drop_last(), sep) + sep
    } else {
        expand_newlines(s.drop_last(), sep).push(s.last())
    }
}

/// The pieces of `s` between `\n` separators: one more piece than there are
/// separators, as `str::split('\n')` yields them.
pub open spec fn split_lines(s: Seq<char>) -> Seq<Seq<char>>
    decreases s.len(),
{
    if s.len() == 0 {
        seq![Seq::<char>::empty()]
    } else {
        let r = split_lines(s.drop_last());
        if s.last() == '\n' {
            r.push(Seq::<char>::empty())
        } else {
            r.update(r.len() - 1, r.last().push(s.last()))
        }
    }
}

/// The lines concatenated with `sep` between consecutive ones.
pub open spec fn join_lines(lines: Seq<Seq<char>>, sep: Seq<char>) -> Seq<char>
    decreases lines.len(),
{
    if lines.len() == 0 {
        Seq::<char>::empty()
    } else if lines.len() == 1 {
        lines[0]
    } else {
        join_lines(lines.drop_last(), sep) + sep + lines.last()
    }
}

/// The lines without a final empty line, if there is one.
pub open spec fn drop_empty_last(lines: Seq<Seq<char>>) -> Seq<Seq<char>> {
    if lines.len() > 0 && lines.last().len() == 0 {
        lines.drop_last()
    } else {
        lines
    }
}

pub open spec fn ends_with_newline(s: Seq<char>) -> bool {
    s.len() > 0 && s.last() == '\n'
}

/// The style a file is saved in: CRLF as soon as the text holds one `\r\n`.
pub open spec fn detect_line_ending(s: Seq<char>) -> LineEnding {
    if has_crlf(s) {
        LineEnding::CrLf
    } else {
        LineEnding::Lf
    }
}

/// A text whose line endings agree with the style that would be detected:
/// either it holds no `\r\n` at all, or every `\n` in it follows a `\r`.
pub open spec fn consistent_endings(s: Seq<char>) -> bool {
    !has_crlf(s) || (forall|i: int| 0 <= i < s.len() && #[trigger] s[i] == '\n' ==> i > 0 && s[i - 1] == '\r')
}

/// The abstract value of a `Content`.
pub struct ContentView {
    pub path: Seq<char>,
    pub lines: Seq<Seq<char>>,
    pub line_ending: LineEnding,
    pub has_trailing_newline: bool,
}

/// The content that loading the text `raw` from `path` produces.
pub open spec fn parsed_content(path: Seq<char>, raw: Seq<char>) -> ContentView {
    ContentView {
        path: path,
        lines: drop_empty_last(split_lines(normalize_newlines(raw))),
        line_ending: detect_line_ending(raw),
        has_trailing_newline: ends_with_newline(raw),
    }
}

/// The lines joined by `sep`, followed by `sep` when the file ended with a newline.
pub open spec fn terminated_text(c: ContentView, sep: Seq<char>) -> Seq<char> {
    join_lines(c.lines, sep) + if c.has_trailing_newline {
        sep
    } else {
        Seq::<char>::empty()
    }
}

/// The text that saving writes: the lines in the content's own line ending style.
pub open spec fn saved_text(c: ContentView) -> Seq<char> {
    terminated_text(c, ending_chars(c.line_ending))
}

/// The LF-normalized text of the content.
pub open spec fn lf_text(c: ContentView) -> Seq<char> {
    terminated_text(c, seq!['\n'])
}

/// A file's content, split into lines with metadata.
#[derive(Debug, Clone)]
pub struct Content {
    /// Path used to load this file content (empty for in-memory content).
    pub path: String,
    /// File content split into lines, without line terminators.
    pub lines: Vec<String>,
    /// Detected line ending style, preserved on save.
    pub line_ending: LineEnding,
    /// Whether the original file ended with a newline.
    pub has_trailing_newline: bool,
}

impl View for Content {
    type V = ContentView;

    open spec fn view(&self) -> ContentView {
        ContentView {
            path: self.path@,
            lines: self.lines.deep_view(),
            line_ending: self.line_ending,
            has_trailing_newline: self.has_trailing_newline,
        }
    }
}

impl LineEnding {
    /// The terminator written after each line in this style.
    pub fn as_str(&self) -> (s: &'static str)
        ensures
            s@ == ending_chars(*self),
    {
        match self {
            LineEnding::Lf => {
                proof {
                    reveal_strlit("\n");
                }
                "\n"
            },
            LineEnding::CrLf => {
                proof {
                    reveal_strlit("\r\n");
                }
                "\r\n"
            },
        }
    }
}

/// The text written for `Display`: every line followed by `\n`.
pub open spec fn newline_after_each(lines: Seq<Seq<char>>) -> Seq<char>
    decreases lines.len(),
{
    if lines.len() == 0 {
        Seq::<char>::empty()
    } else {
        newline_after_each(lines.drop_last()) + lines.last() + seq!['\n']
    }
}

impl Content {
    /// The content that `raw`, read from `path`, holds: its line ending style
    /// (CRLF as soon as one `\r\n` occurs), its lines after normalizing every
    /// `\r\n` to `\n` (without the empty piece after a final newline), and
    /// whether it ended with a newline.
    pub fn from_text(path: String, raw: &str) -> (c: Content)
        ensures
            c@ == parsed_content(path@, raw@),
    {
        let chars = chars_of(raw);
        let line_ending = if contains_crlf(&chars) {
            LineEnding::CrLf
        } else {
            LineEnding::Lf
        };
        let n = chars.len();
        let has_trailing_newline = n > 0 && chars[n - 1] == '\n';
        let normalized = normalize_crlf(&chars);
        let mut lines = split_on_newline(&normalized);
        let k = lines.len();
        if k > 0 && lines[k - 1].as_str().is_empty() {
            lines.pop();
            proof {
                assert(lines.deep_view() =~= split_lines(normalize_newlines(raw@)).drop_last());
            }
        }
        Content { path, lines, line_ending, has_trailing_newline }
    }

    /// The text that saving writes: the lines joined with the detected line
    /// ending, and that ending once more if the file ended with a newline.
    pub fn saved_text(&self) -> (s: String)
        ensures
            s@ == saved_text(self@),
    {
        let sep = self.line_ending.as_str();
        self.terminated_by(sep)
    }

    /// Reconstruct the full text content (LF-normalized) for diffing.
    pub fn text(&self) -> (s: String)
        ensures
            s@ == lf_text(self@),
    {
        let sep = "\n";
        proof {
            reveal_strlit("\n");
            assert(sep@ =~= seq!['\n']);
        }
        self.terminated_by(sep)
    }

    fn terminated_by(&self, sep: &str) -> (s: String)
        ensures
            s@ == terminated_text(self@, sep@),
    {
        let mut s = String::new();
        let n = self.lines.len();
        let ghost lines = self.lines.deep_view();
        for i in 0..n
            invariant
                n == self.lines.len(),
                lines == self.lines.deep_view(),
                s@ == join_lines(lines.take(i as int), sep@),
        {
            if i > 0 {
                s.append(sep);
            }
            s.append(self.lines[i].as_str());
            proof {
                assert(lines.take(i + 1).drop_last() =~= lines.take(i as int));
                assert(lines[i as int] == self.lines@[i as int]@);
            }
        }
        proof {
            assert(lines.take(n as int) =~= lines);
        }
        if self.has_trailing_newline {
            s.append(sep);
        }
        s
    }

    /// The lines of the file, without line terminators.
    pub fn lines(&self) -> (l: &[String])
        ensures
            l@ == self.lines@,
    {
        self.lines.as_slice()
    }

    /// The path this content was loaded from (or empty for in-memory content).
    pub fn path(&self) -> (p: &str)
        ensures
            p@ == self.path@,
    {
        self.path.as_str()
    }

    /// Replace a range of lines with new content.
    pub fn splice_lines(&mut self, range: Range<usize>, replacement: Vec<String>)
        requires
            range.start <= range.end <= old(self).lines.len(),
        ensures
            final(self).lines@ == old(self).lines@.subrange(0, range.start as int)
                + replacement@ + old(self).lines@.subrange(
                range.end as int,
                old(self).lines.len() as int,
            ),
            final(self).path == old(self).path,
            final(self).line_ending == old(self).line_ending,
            final(self).has_trailing_newline == old(self).has_trailing_newline,
    {
        let start = range.start;
        let end = range.end;
        let n = self.lines.len();
        let mut old_lines: Vec<String> = Vec::new();
        std::mem::swap(&mut old_lines, &mut self.lines);
        let ghost before = old_lines@;
        let mut kept: Vec<String> = Vec::new();
        let mut i: usize = 0;
        while i < n
            invariant
                n == old_lines.len(),
                before == old_lines@,
                start <= end <= n,
                i <= n,
                kept@ == if i <= start {
                    before.subrange(0, i as int)
                } else if i <= end {
                    before.subrange(0, start as int) + replacement@
                } else {
                    before.subrange(0, start as int) + replacement@ + before.subrange(
                        end as int,
                        i as int,
                    )
                },
            decreases n - i,
        {
            if i == start {
                let mut j: usize = 0;
                while j < replacement.len()
                    invariant
                        kept@ == before.subrange(0, start as int) + replacement@.take(j as int),
                        j <= replacement.len(),
                    decreases replacement.len() - j,
                {
                    kept.push(replacement[j].clone());
                    proof {
                        assert(replacement@.take(j + 1) =~= replacement@.take(j as int).push(
                            replacement@[j as int],
                        ));
                    }
                    j += 1;
                }
                proof {
                    assert(replacement@.take(replacement.len() as int) =~= replacement@);
                }
            }
            if i < start || i >= end {
                kept.push(old_lines[i].clone());
            }
            proof {
                if i < start {
                    assert(before.subrange(0, i + 1) =~= before.subrange(0, i as int).push(before[i as int]));
                } else if i >= end {
                    assert(before.subrange(end as int, i + 1) =~= before.subrange(end as int, i as int).push(before[i as int]));
                }
            }
            i += 1;
        }
        if n == start {
            let mut j: usize = 0;
            while j < replacement.len()
                invariant
                    kept@ == before.subrange(0, start as int) + replacement@.take(j as int),
                    j <= replacement.len(),
                decreases replacement.len() - j,
            {
                kept.push(replacement[j].clone());
                proof {
                    assert(replacement@.take(j + 1) =~= replacement@.take(j as int).push(
                        replacement@[j as int],
                    ));
                }
                j += 1;
            }
            proof {
                assert(replacement@.take(replacement.len() as int) =~= replacement@);
            }
        }
        proof {
            assert(before.subrange(n as int, n as int) =~= Seq::<String>::empty());
            assert(kept@ =~= before.subrange(0, start as int) + replacement@ + before.subrange(end as int, n as int));
        }
        self.lines = kept;
    }

    /// Construct a Content from raw lines, held in memory with no path: LF
    /// endings, ending with a newline unless there are no lines.
    pub fn from_lines(lines: &[&str]) -> (c: Content)
        ensures
            c@.path == Seq::<char>::empty(),
            c@.lines == lines@.map_values(|l: &str| l@),
            c@.line_ending == LineEnding::Lf,
            c@.has_trailing_newline == (lines@.len() > 0),
    {
        let mut v: Vec<String> = Vec::new();
        let n = lines.len();
        for i in 0..n
            invariant
                n == lines@.len(),
                v.deep_view() =~= lines@.take(i as int).map_values(|l: &str| l@),
        {
            let ghost before = v.deep_view();
            v.push(String::from_str(lines[i]));
            proof {
                assert(v.deep_view() =~= before.push(lines@[i as int]@));
                assert(lines@.take(i + 1) =~= lines@.take(i as int).push(lines@[i as int]));
            }
        }
        proof {
            assert(lines@.take(n as int) =~= lines@);
        }
        Content {
            path: String::new(),
            lines: v,
            line_ending: LineEnding::Lf,
            has_trailing_newline: n > 0,
        }
    }

    /// The text `Display` shows: every line followed by `\n`.
    pub fn display_string(&self) -> (s: String)
        ensures
            s@ == newline_after_each(self@.lines),
    {
        let mut s = String::new();
        let n = self.lines.len();
        let ghost lines = self.lines.deep_view();
        proof {
            reveal_strlit("\n");
        }
        for i in 0..n
            invariant
                n == self.lines.len(),
                lines == self.lines.deep_view(),
                s@ == newline_after_each(lines.take(i as int)),
        {
            s.append(self.lines[i].as_str());
            s.append("\n");
            proof {
                reveal_strlit("\n");
                assert(lines.take(i + 1).drop_last() =~= lines.take(i as int));
            }
        }
        proof {
            assert(lines.take(n as int) =~= lines);
        }
        s
    }
}

proof fn lemma_split_nonempty(t: Seq<char>)
    ensures
        split_lines(t).len() >= 1,
    decreases t.len(),
{
    if t.len() > 0 {
        lemma_split_nonempty(t.drop_last());
    }
}

/// Joining the pieces between newlines with `sep` is replacing each newline by `sep`.
proof fn lemma_join_split(t: Seq<char>, sep: Seq<char>)
    ensures
        join_lines(split_lines(t), sep) == expand_newlines(t, sep),
    decreases t.len(),
{
    if t.len() > 0 {
        let r = split_lines(t.drop_last());
        lemma_split_nonempty(t.drop_last());
        lemma_join_split(t.drop_last(), sep);
        if t.last() == '\n' {
            assert(r.push(Seq::<char>::empty()).drop_last() =~= r);
            assert(join_lines(r.push(Seq::<char>::empty()), sep) =~= join_lines(r, sep) + sep);
        } else {
            let u = r.update(r.len() - 1, r.last().push(t.last()));
            if r.len() == 1 {
                assert(join_lines(u, sep) =~= join_lines(r, sep).push(t.last()));
            } else {
                assert(u.drop_last() =~= r.drop_last());
                assert(join_lines(u, sep) =~= join_lines(r, sep).push(t.last()));
            }
        }
    }
}

/// Dropping the empty piece after a final newline and writing that newline
/// back as a terminator gives the same text.
proof fn lemma_terminated(t: Seq<char>, sep: Seq<char>)
    ensures
        join_lines(drop_empty_last(split_lines(t)), sep) + (if ends_with_newline(t) {
            sep
        } else {
            Seq::<char>::empty()
        }) == expand_newlines(t, sep),
{
    lemma_join_split(t, sep);
    lemma_split_nonempty(t);
    if t.len() == 0 {
        assert(drop_empty_last(split_lines(t)) =~= Seq::<Seq<char>>::empty());
        assert(join_lines(Seq::<Seq<char>>::empty(), sep) + Seq::<char>::empty() =~= expand_newlines(t, sep));
    } else {
        let r = split_lines(t.drop_last());
        lemma_split_nonempty(t.drop_last());
        if t.last() == '\n' {
            assert(split_lines(t) == r.push(Seq::<char>::empty()));
            assert(drop_empty_last(split_lines(t)) =~= r);
            assert(r.push(Seq::<char>::empty()).drop_last() =~= r);
            assert(join_lines(r.push(Seq::<char>::empty()), sep) =~= join_lines(r, sep) + sep);
        } else {
            let u = r.update(r.len() - 1, r.last().push(t.last()));
            assert(split_lines(t) == u);
            assert(u.last().len() > 0);
            assert(drop_empty_last(split_lines(t)) == split_lines(t));
            assert(join_lines(u, sep) + Seq::<char>::empty() =~= join_lines(u, sep));
        }
    }
}

proof fn lemma_normalize_ends(s: Seq<char>)
    ensures
        ends_with_newline(normalize_newlines(s)) == ends_with_newline(s),
{
}

proof fn lemma_normalize_no_crlf(s: Seq<char>)
    requires
        !has_crlf(s),
    ensures
        normalize_newlines(s) == s,
    decreases s.len(),
{
    if s.len() > 0 {
        if s.len() >= 2 && s[s.len() - 2] == '\r' && s[s.len() - 1] == '\n' {
            assert(crlf_at(s, s.len() - 2));
        }
        assert forall|i: int| !crlf_at(s.drop_last(), i) by {
            if crlf_at(s.drop_last(), i) {
                assert(crlf_at(s, i));
            }
        }
        lemma_normalize_no_crlf(s.drop_last());
        assert(s.drop_last().push(s.last()) =~= s);
    }
}

proof fn lemma_expand_lf(t: Seq<char>)
    ensures
        expand_newlines(t, seq!['\n']) == t,
    decreases t.len(),
{
    if t.len() > 0 {
        lemma_expand_lf(t.drop_last());
        assert(t.drop_last().push(t.last()) =~= t);
        assert(t.drop_last() + seq!['\n'] =~= t.drop_last().push('\n'));
    }
}

proof fn lemma_expand_crlf(s: Seq<char>)
    requires
        forall|i: int| 0 <= i < s.len() && #[trigger] s[i] == '\n' ==> i > 0 && s[i - 1] == '\r',
    ensures
        expand_newlines(normalize_newlines(s), seq!['\r', '\n']) == s,
    decreases s.len(),
{
    if s.len() > 0 {
        let n = s.len();
        if n >= 2 && s[n - 2] == '\r' && s[n - 1] == '\n' {
            let p = s.subrange(0, n - 2);
            assert forall|i: int| 0 <= i < p.len() && #[trigger] p[i] == '\n' implies i > 0 && p[i - 1] == '\r' by {
                assert(s[i] == '\n');
            }
            lemma_expand_crlf(p);
            let np = normalize_newlines(p);
            assert(normalize_newlines(s) == np.push('\n'));
            assert(np.push('\n').drop_last() =~= np);
            assert(p + seq!['\r', '\n'] =~= s);
        } else {
            let p = s.drop_last();
            if s[n - 1] == '\n' {
                assert(s[n - 1] == '\n');
            }
            assert(s.last() != '\n');
            assert forall|i: int| 0 <= i < p.len() && #[trigger] p[i] == '\n' implies i > 0 && p[i - 1] == '\r' by {
                assert(s[i] == '\n');
            }
            lemma_expand_crlf(p);
            let np = normalize_newlines(p);
            assert(np.push(s.last()).drop_last() =~= np);
            assert(p.push(s.last()) =~= s);
        }
    }
}

/// Saving a loaded file writes its text back with every line ending in the
/// detected style: the text with each `\r\n` read as `\n`, and then each `\n`
/// written as the detected ending (mixed endings become the detected one).
pub proof fn law_save_uses_detected_ending(path: Seq<char>, raw: Seq<char>)
    ensures
        saved_text(parsed_content(path, raw)) == expand_newlines(
            normalize_newlines(raw),
            ending_chars(detect_line_ending(raw)),
        ),
{
    lemma_normalize_ends(raw);
    lemma_terminated(normalize_newlines(raw), ending_chars(detect_line_ending(raw)));
}

/// Loading a file and saving it again gives back the same text, whenever its
/// line endings are consistent (all LF, or every `\n` preceded by `\r`).
pub proof fn law_load_save_round_trip(path: Seq<char>, raw: Seq<char>)
    requires
        consistent_endings(raw),
    ensures
        saved_text(parsed_content(path, raw)) == raw,
{
    law_save_uses_detected_ending(path, raw);
    if has_crlf(raw) {
        lemma_expand_crlf(raw);
    } else {
        lemma_normalize_no_crlf(raw);
        lemma_expand_lf(raw);
    }
}

proof fn lemma_normalize_expand_crlf(t: Seq<char>)
    ensures
        normalize_newlines(expand_newlines(t, seq!['\r', '\n'])) == t,
    decreases t.len(),
{
    if t.len() > 0 {
        let p = t.drop_last();
        lemma_normalize_expand_crlf(p);
        let e = expand_newlines(p, seq!['\r', '\n']);
        if t.last() == '\n' {
            let s = e + seq!['\r', '\n'];
            assert(s.subrange(0, s.len() - 2) =~= e);
            assert(p.push('\n') =~= t);
        } else {
            let s = e.push(t.last());
            assert(s.drop_last() =~= e);
            assert(p.push(t.last()) =~= t);
        }
    }
}

proof fn lemma_expand_ends(t: Seq<char>, sep: Seq<char>)
    requires
        sep.len() > 0,
        sep.last() == '\n',
    ensures
        ends_with_newline(expand_newlines(t, sep)) == ends_with_newline(t),
{
}

proof fn lemma_newline_gives_crlf(t: Seq<char>, i: int)
    requires
        0 <= i < t.len(),
        t[i] == '\n',
    ensures
        has_crlf(expand_newlines(t, seq!['\r', '\n'])),
    decreases t.len(),
{
    let e = expand_newlines(t.drop_last(), seq!['\r', '\n']);
    if i == t.len() - 1 {
        let s = e + seq!['\r', '\n'];
        assert(crlf_at(s, s.len() - 2));
    } else {
        lemma_newline_gives_crlf(t.drop_last(), i);
        let k = choose|k: int| crlf_at(e, k);
        if t.last() == '\n' {
            assert(crlf_at(e + seq!['\r', '\n'], k));
        } else {
            assert(crlf_at(e.push(t.last()), k));
        }
    }
}

proof fn lemma_crlf_keeps_newline(s: Seq<char>, i: int)
    requires
        crlf_at(s, i),
    ensures
        exists|j: int| 0 <= j < normalize_newlines(s).len() && normalize_newlines(s)[j] == '\n',
    decreases s.len(),
{
    let n = s.len();
    if i + 2 == n {
        assert(normalize_newlines(s) == normalize_newlines(s.subrange(0, n - 2)).push('\n'));
        let t = normalize_newlines(s);
        assert(t[t.len() - 1] == '\n');
    } else if n >= 2 && s[n - 2] == '\r' && s[n - 1] == '\n' {
        let t = normalize_newlines(s);
        assert(t[t.len() - 1] == '\n');
    } else {
        assert(crlf_at(s.drop_last(), i));
        lemma_crlf_keeps_newline(s.drop_last(), i);
        let p = normalize_newlines(s.drop_last());
        let j = choose|j: int| 0 <= j < p.len() && p[j] == '\n';
        assert(normalize_newlines(s)[j] == '\n');
    }
}

/// Saving a loaded file and loading the saved text again gives the same
/// content: the same lines, line ending style and final newline.
pub proof fn law_reload_after_save(path: Seq<char>, raw: Seq<char>)
    ensures
        parsed_content(path, saved_text(parsed_content(path, raw))) == parsed_content(path, raw),
{
    law_save_uses_detected_ending(path, raw);
    let t = normalize_newlines(raw);
    lemma_normalize_ends(raw);
    if has_crlf(raw) {
        let i = choose|i: int| crlf_at(raw, i);
        lemma_crlf_keeps_newline(raw, i);
        let j = choose|j: int| 0 <= j < t.len() && t[j] == '\n';
        lemma_newline_gives_crlf(t, j);
        lemma_normalize_expand_crlf(t);
        lemma_expand_ends(t, seq!['\r', '\n']);
    } else {
        lemma_normalize_no_crlf(raw);
        lemma_expand_lf(raw);
    }
}

/// `l` holds no `\n`.
pub open spec fn no_newline(l: Seq<char>) -> bool {
    forall|i: int| 0 <= i < l.len() ==> #[trigger] l[i] != '\n'
}

/// `l` ends with `\r`.
pub open spec fn ends_with_cr(l: Seq<char>) -> bool {
    l.len() > 0 && l.last() == '\r'
}

/// A content that saving and loading again gives back unchanged: no line
/// holds a newline; an empty file has no final newline; without a final
/// newline the last line is not empty; in CRLF style at least one line
/// ending is written; in LF style no line that a newline follows ends with
/// `\r` (that pair would read as CRLF).
pub open spec fn reloads_intact(c: ContentView) -> bool {
    let n = c.lines.len();
    &&& forall|i: int| 0 <= i < n ==> no_newline(#[trigger] c.lines[i])
    &&& n == 0 ==> !c.has_trailing_newline
    &&& n > 0 && !c.has_trailing_newline ==> c.lines[n - 1].len() > 0
    &&& c.line_ending == LineEnding::CrLf ==> (n >= 2 || c.has_trailing_newline)
    &&& c.line_ending == LineEnding::Lf ==> forall|i: int|
        0 <= i < n && (i < n - 1 || c.has_trailing_newline) ==> !ends_with_cr(#[trigger] c.lines[i])
}

proof fn lemma_split_no_newline(l: Seq<char>)
    requires
        no_newline(l),
    ensures
        split_lines(l) == seq![l],
    decreases l.len(),
{
    if l.len() > 0 {
        let p = l.drop_last();
        assert(no_newline(p)) by {
            assert forall|i: int| 0 <= i < p.len() implies #[trigger] p[i] != '\n' by {
                assert(l[i] != '\n');
            }
        }
        lemma_split_no_newline(p);
        assert(l[l.len() - 1] != '\n');
        assert(p.push(l.last()) =~= l);
        assert(seq![p].update(0, p.push(l.last())) =~= seq![l]);
    } else {
        assert(l =~= Seq::<char>::empty());
    }
}

proof fn lemma_split_append(a: Seq<char>, b: Seq<char>)
    requires
        no_newline(b),
    ensures
        split_lines(a + b) == split_lines(a).update(
            split_lines(a).len() - 1,
            split_lines(a).last() + b,
        ),
    decreases b.len(),
{
    lemma_split_nonempty(a);
    if b.len() == 0 {
        assert(a + b =~= a);
        assert(split_lines(a).last() + b =~= split_lines(a).last());
        assert(split_lines(a).update(split_lines(a).len() - 1, split_lines(a).last()) =~= split_lines(a));
    } else {
        let p = b.drop_last();
        assert(no_newline(p)) by {
            assert forall|i: int| 0 <= i < p.len() implies #[trigger] p[i] != '\n' by {
                assert(b[i] != '\n');
            }
        }
        lemma_split_append(a, p);
        assert((a + b).drop_last() =~= a + p);
        assert(b[b.len() - 1] != '\n');
        let r = split_lines(a);
        assert((r.last() + p).push(b.last()) =~= r.last() + b);
        assert(r.update(r.len() - 1, r.last() + p).update(r.len() - 1, (r.last() + p).push(b.last()))
            =~= r.update(r.len() - 1, r.last() + b));
    }
}

proof fn lemma_split_join(lines: Seq<Seq<char>>)
    requires
        lines.len() > 0,
        forall|i: int| 0 <= i < lines.len() ==> no_newline(#[trigger] lines[i]),
    ensures
        split_lines(join_lines(lines, seq!['\n'])) == lines,
    decreases lines.len(),
{
    if lines.len() == 1 {
        assert(no_newline(lines[0]));
        lemma_split_no_newline(lines[0]);
        assert(seq![lines[0]] =~= lines);
    } else {
        let p = lines.drop_last();
        assert forall|i: int| 0 <= i < p.len() implies no_newline(#[trigger] p[i]) by {
            assert(no_newline(lines[i]));
        }
        lemma_split_join(p);
        let j = join_lines(p, seq!['\n']);
        let a = j + seq!['\n'];
        assert(no_newline(lines[lines.len() - 1]));
        lemma_split_append(a, lines.last());
        assert(a.drop_last() =~= j);
        assert(split_lines(a) == p.push(Seq::<char>::empty()));
        assert(join_lines(lines, seq!['\n']) =~= a + lines.last());
        assert(Seq::<char>::empty() + lines.last() =~= lines.last());
        assert(p.push(Seq::<char>::empty()).update(p.len() as int, lines.last()) =~= lines);
    }
}

proof fn lemma_crlf_concat(a: Seq<char>, b: Seq<char>)
    requires
        has_crlf(a + b),
    ensures
        has_crlf(a) || has_crlf(b) || (a.len() > 0 && b.len() > 0 && a.last() == '\r' && b[0] == '\n'),
{
    let s = a + b;
    let k = choose|k: int| crlf_at(s, k);
    if k + 1 < a.len() {
        assert(crlf_at(a, k));
    } else if k >= a.len() {
        assert(crlf_at(b, k - a.len()));
    }
}

proof fn lemma_join_last_char(lines: Seq<Seq<char>>, sep: Seq<char>)
    requires
        lines.len() > 0,
        sep.len() > 0,
        sep.last() == '\n',
    ensures
        ends_with_cr(join_lines(lines, sep)) ==> ends_with_cr(lines.last()),
{
    if lines.len() > 1 {
        let j = join_lines(lines.drop_last(), sep) + sep;
        assert(join_lines(lines, sep) == j + lines.last());
        if lines.last().len() == 0 {
            assert(j + lines.last() =~= j);
        } else {
            assert((j + lines.last()).last() == lines.last().last());
        }
    }
}

proof fn lemma_no_crlf_join(lines: Seq<Seq<char>>)
    requires
        lines.len() > 0,
        forall|i: int| 0 <= i < lines.len() ==> no_newline(#[trigger] lines[i]),
        forall|i: int| 0 <= i < lines.len() - 1 ==> !ends_with_cr(#[trigger] lines[i]),
    ensures
        !has_crlf(join_lines(lines, seq!['\n'])),
    decreases lines.len(),
{
    let l = lines.last();
    assert(no_newline(l));
    if has_crlf(l) {
        let k = choose|k: int| crlf_at(l, k);
        assert(l[k + 1] != '\n');
    }
    if lines.len() > 1 {
        let p = lines.drop_last();
        assert forall|i: int| 0 <= i < p.len() implies no_newline(#[trigger] p[i]) by {
            assert(no_newline(lines[i]));
        }
        assert forall|i: int| 0 <= i < p.len() - 1 implies !ends_with_cr(#[trigger] p[i]) by {
            assert(!ends_with_cr(lines[i]));
        }
        lemma_no_crlf_join(p);
        let j = join_lines(p, seq!['\n']);
        lemma_join_last_char(p, seq!['\n']);
        assert(!ends_with_cr(lines[lines.len() - 2]));
        let a = j + seq!['\n'];
        if has_crlf(a) {
            lemma_crlf_concat(j, seq!['\n']);
            let k = choose|k: int| crlf_at(seq!['\n'], k);
        }
        if has_crlf(a + l) {
            lemma_crlf_concat(a, l);
            if l.len() > 0 {
                assert(l[0] != '\n');
            }
        }
        assert(join_lines(lines, seq!['\n']) == a + l);
    }
}

/// Loading what saving writes gives back the saved content, for every
/// content that `reloads_intact` admits.
pub proof fn law_save_then_load(c: ContentView)
    requires
        reloads_intact(c),
    ensures
        parsed_content(c.path, saved_text(c)) == c,
{
    let n = c.lines.len();
    let e = ending_chars(c.line_ending);
    let nl = seq!['\n'];
    let t = join_lines(c.lines, nl) + if c.has_trailing_newline {
        nl
    } else {
        Seq::<char>::empty()
    };
    let s = saved_text(c);
    if n == 0 {
        assert(s =~= Seq::<char>::empty());
        assert(!has_crlf(s));
        assert(normalize_newlines(s) =~= s);
        assert(drop_empty_last(split_lines(s)) =~= c.lines);
        return;
    }
    lemma_split_join(c.lines);
    lemma_join_split(join_lines(c.lines, nl), e);
    // What is saved is `t` with each newline written in the content's style.
    assert(s == expand_newlines(t, e)) by {
        if c.has_trailing_newline {
            let j = join_lines(c.lines, nl);
            assert((j + nl).drop_last() =~= j);
        } else {
            assert(t =~= join_lines(c.lines, nl));
        }
    }
    // Its lines read back as the content's lines.
    assert(drop_empty_last(split_lines(t)) == c.lines) by {
        if c.has_trailing_newline {
            let j = join_lines(c.lines, nl);
            assert((j + nl).drop_last() =~= j);
        } else {
            assert(t =~= join_lines(c.lines, nl));
            assert(no_newline(c.lines[n - 1]));
        }
    }
    lemma_expand_ends(t, e);
    assert(ends_with_newline(t) == c.has_trailing_newline) by {
        if !c.has_trailing_newline {
            assert(t =~= join_lines(c.lines, nl));
            lemma_join_last_nonempty(c.lines, nl);
            assert(no_newline(c.lines[n - 1]));
        }
    }
    match c.line_ending {
        LineEnding::CrLf => {
            lemma_normalize_expand_crlf(t);
            let j = if c.has_trailing_newline {
                t.len() - 1
            } else {
                join_lines(c.lines.drop_last(), nl).len() as int
            };
            assert(0 <= j < t.len() && t[j] == '\n') by {
                if !c.has_trailing_newline {
                    let p = c.lines.drop_last();
                    assert(t =~= join_lines(p, nl) + nl + c.lines.last());
                }
            }
            lemma_newline_gives_crlf(t, j);
        },
        LineEnding::Lf => {
            lemma_expand_lf(t);
            assert forall|i: int| 0 <= i < n - 1 implies !ends_with_cr(#[trigger] c.lines[i]) by {}
            lemma_no_crlf_join(c.lines);
            if c.has_trailing_newline {
                let j = join_lines(c.lines, nl);
                if has_crlf(j + nl) {
                    lemma_crlf_concat(j, nl);
                    lemma_join_last_char(c.lines, nl);
                    let k = choose|k: int| crlf_at(nl, k);
                }
            } else {
                assert(t =~= join_lines(c.lines, nl));
            }
            lemma_normalize_no_crlf(t);
        },
    }
}

proof fn lemma_join_last_nonempty(lines: Seq<Seq<char>>, sep: Seq<char>)
    requires
        lines.len() > 0,
        lines.last().len() > 0,
    ensures
        join_lines(lines, sep).len() > 0,
        join_lines(lines, sep).last() == lines.last().last(),
{
    if lines.len() > 1 {
        let j = join_lines(lines.drop_last(), sep) + sep;
        assert(join_lines(lines, sep) == j + lines.last());
    }
}

/// The text of a loaded file is its raw text with every `\r\n` read as `\n`.
pub proof fn law_text_is_lf_normalized(path: Seq<char>, raw: Seq<char>)
    ensures
        lf_text(parsed_content(path, raw)) == normalize_newlines(raw),
{
    lemma_normalize_ends(raw);
    lemma_terminated(normalize_newlines(raw), seq!['\n']);
    lemma_expand_lf(normalize_newlines(raw));
}

/// What `Path::strip_prefix` leaves of `path` once the leading components
/// that make up `base` are taken off, shown as text (`None` where `base` is
/// not a prefix of `path`).
pub uninterp spec fn path_strip_prefix(path: Seq<char>, base: Seq<char>) -> Option<Seq<char>>;

/// Calls `std::path::Path::strip_prefix` on `path` and `base` and shows what
/// remains as text. Claimed: the result is `path_strip_prefix` of the two
/// arguments; nothing more is stated of how components are compared.
#[verifier::external_body]
fn strip_path_prefix(path: &str, base: &str) -> (r: Option<String>)
    ensures
        match r {
            Some(rest) => path_strip_prefix(path@, base@) == Some(rest@),
            None => path_strip_prefix(path@, base@) is None,
        },
{
    match std::path::Path::new(path).strip_prefix(base) {
        Ok(rest) => Some(rest.display().to_string()),
        Err(_) => None,
    }
}

/// The directory shown for `path` when the home directory is `home`.
pub open spec fn shortened_dir(path: Seq<char>, home: Option<Seq<char>>) -> Seq<char> {
    match home {
        Some(h) => match path_strip_prefix(path, h) {
            Some(rest) => if rest.len() == 0 {
                seq!['~']
            } else {
                seq!['~', '/'] + rest
            },
            None => path,
        },
        None => path,
    }
}

/// Replace the home directory prefix of `path` with `~` for display. The
/// prefix is matched by path components, so `/Users/al` does not match
/// `/Users/alice`.
pub fn shorten_dir_with_home(path: &str, home: Option<&str>) -> (s: String)
    ensures
        s@ == shortened_dir(
            path@,
            match home {
                Some(h) => Some(h@),
                None => None,
            },
        ),
{
    if let Some(h) = home {
        if let Some(rest) = strip_path_prefix(path, h) {
            if rest.as_str().is_empty() {
                let mut s = String::new();
                s.push('~');
                return s;
            } else {
                let mut s = String::new();
                s.push('~');
                s.push('/');
                s.append(rest.as_str());
                proof {
                    assert(s@ =~= seq!['~', '/'] + rest@);
                }
                return s;
            }
        }
    }
    String::from_str(path)
}

/// The characters of `s`, in order.
pub(crate) fn chars_of(s: &str) -> (v: Vec<char>)
    ensures
        v@ == s@,
{
    let mut v: Vec<char> = Vec::new();
    for c in it: s.chars()
        invariant
            it.seq() == s@,
            v@ == it.seq().take(it.index() as int),
    {
        v.push(c);
    }
    v
}

/// Whether the characters hold `\r\n` somewhere.
fn contains_crlf(v: &Vec<char>) -> (b: bool)
    ensures
        b == has_crlf(v@),
{
    let mut i: usize = 0;
    while v.len() - i > 1
        invariant
            i <= v.len(),
            forall|j: int| 0 <= j < i ==> !crlf_at(v@, j),
        decreases v.len() - i,
    {
        if v[i] == '\r' && v[i + 1] == '\n' {
            assert(crlf_at(v@, i as int));
            return true;
        }
        i += 1;
    }
    assert forall|j: int| !crlf_at(v@, j) by {
        if 0 <= j < i {
        }
    }
    false
}

/// The characters with every `\r\n` replaced by `\n`.
fn normalize_crlf(v: &Vec<char>) -> (r: Vec<char>)
    ensures
        r@ == normalize_newlines(v@),
{
    let mut out: Vec<char> = Vec::new();
    // A `\r` that was read but not yet written: it is dropped if `\n` follows.
    let mut held = false;
    let mut i: usize = 0;
    while i < v.len()
        invariant
            i <= v.len(),
            held <==> (i > 0 && v@[i - 1] == '\r'),
            (if held {
                out@.push('\r')
            } else {
                out@
            }) == normalize_newlines(v@.take(i as int)),
        decreases v.len() - i,
    {
        let c = v[i];
        let ghost p = v@.take(i as int);
        let ghost q = v@.take(i + 1);
        proof {
            assert(q.drop_last() =~= p);
            if i > 0 {
                assert(q.subrange(0, q.len() - 2) =~= p.drop_last());
                assert(q[q.len() - 2] == v@[i - 1]);
            }
        }
        if held {
            proof {
                assert(normalize_newlines(p) == normalize_newlines(p.drop_last()).push('\r'));
                assert(out@ =~= normalize_newlines(p.drop_last())) by {
                    assert(out@.push('\r').drop_last() =~= out@);
                    assert(normalize_newlines(p.drop_last()).push('\r').drop_last()
                        =~= normalize_newlines(p.drop_last()));
                }
            }
            if c == '\n' {
                out.push('\n');
                held = false;
            } else {
                out.push('\r');
                if c == '\r' {
                    held = true;
                } else {
                    out.push(c);
                    held = false;
                }
            }
        } else {
            if c == '\r' {
                held = true;
            } else {
                out.push(c);
            }
        }
        i += 1;
    }
    proof {
        assert(v@.take(v.len() as int) =~= v@);
    }
    if held {
        out.push('\r');
    }
    out
}

/// The pieces between `\n` separators, as strings.
fn split_on_newline(v: &Vec<char>) -> (r: Vec<String>)
    ensures
        r.deep_view() == split_lines(v@),
{
    let mut lines: Vec<String> = Vec::new();
    let mut cur = String::new();
    let mut i: usize = 0;
    while i < v.len()
        invariant
            i <= v.len(),
            lines.deep_view().push(cur@) == split_lines(v@.take(i as int)),
        decreases v.len() - i,
    {
        let c = v[i];
        let ghost p = v@.take(i as int);
        let ghost before = lines.deep_view();
        proof {
            assert(v@.take(i + 1).drop_last() =~= p);
        }
        if c == '\n' {
            lines.push(cur);
            cur = String::new();
            proof {
                assert(lines.deep_view() =~= before.push(split_lines(p).last()));
                assert(lines.deep_view().push(cur@) =~= split_lines(p).push(Seq::<char>::empty()));
            }
        } else {
            let ghost old_cur = cur@;
            cur.push(c);
            proof {
                assert(before.push(cur@) =~= before.push(old_cur).update(
                    before.len() as int,
                    old_cur.push(c),
                ));
            }
        }
        i += 1;
    }
    proof {
        assert(v@.take(v.len() as int) =~= v@);
    }
    let ghost before = lines.deep_view();
    lines.push(cur);
    proof {
        assert(lines.deep_view() =~= before.push(cur@));
    }
    lines
}

} // verus!
