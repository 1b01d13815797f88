use crate::command::Command;
use crate::render::render_cell;
use crate::render::column_width;
use crate::render::spec_col_width;
use crate::render::spec_dec;
use crate::render::spec_pad_left;
use vstd::prelude::*;
use vstd::string::StrSliceExecFns;
use vstd::string::StringExecFns;
use vstd::string::StringSliceAdditionalSpecFns;

verus! {

/// Whether `c` is a Unicode whitespace character (the `White_Space`
/// property). Word boundaries go by this predicate.
pub open spec fn is_unicode_whitespace(c: char) -> bool {
    let u = c as u32;
    (0x09 <= u && u <= 0x0d) || u == 0x20 || u == 0x85 || u == 0xa0 || u == 0x1680 || (0x2000
        <= u && u <= 0x200a) || u == 0x2028 || u == 0x2029 || u == 0x202f || u == 0x205f || u
        == 0x3000
}

/// Runtime test for [`is_unicode_whitespace`].
pub fn is_whitespace_char(c: char) -> (r: bool)
    ensures
        r == is_unicode_whitespace(c),
{
    let u = c as u32;
    (0x09 <= u && u <= 0x0d) || u == 0x20 || u == 0x85 || u == 0xa0 || u == 0x1680 || (0x2000
        <= u && u <= 0x200a) || u == 0x2028 || u == 0x2029 || u == 0x202f || u == 0x205f || u
        == 0x3000
}

/// How many characters of `s` are line feeds.
pub open spec fn spec_newline_count(s: Seq<char>) -> nat
    decreases s.len(),
{
    if s.len() == 0 {
        0
    } else {
        spec_newline_count(s.drop_last()) + if s.last() == '\n' {
            1nat
        } else {
            0nat
        }
    }
}

/// The number of lines of `s`: one per line feed, plus one for a final
/// segment that ends without a terminator. Splitting on line breaks and
/// counting the newline-terminated or final non-empty segments gives
/// exactly this number.
pub open spec fn spec_line_count(s: Seq<char>) -> nat {
    spec_newline_count(s) + if s.len() > 0 && s.last() != '\n' {
        1nat
    } else {
        0nat
    }
}

/// The number of maximal runs of non-whitespace characters in `s`, counted
/// by their first character: position `i` begins a run when it holds a
/// non-whitespace character and is either the start of the text or preceded
/// by whitespace.
pub open spec fn spec_word_count(s: Seq<char>) -> nat
    decreases s.len(),
{
    if s.len() == 0 {
        0
    } else {
        spec_word_count(s.drop_last()) + if !is_unicode_whitespace(s.last()) && (s.len() == 1
            || is_unicode_whitespace(s[s.len() - 2])) {
            1nat
        } else {
            0nat
        }
    }
}

/// The UTF-8 byte length of `s`, as `str::len` reports it.
pub open spec fn spec_byte_count(s: &str) -> nat {
    s.spec_bytes().len() as usize as nat
}

/// The count that `c` requests for the text `s`.
pub open spec fn spec_count(c: Command, s: &str) -> nat {
    match c {
        Command::CountLines => spec_line_count(s@),
        Command::CountWords => spec_word_count(s@),
        Command::CountChars => s@.len(),
        Command::CountBytes => spec_byte_count(s),
    }
}

proof fn lemma_newline_count_le(s: Seq<char>)
    ensures
        spec_newline_count(s) <= s.len(),
    decreases s.len(),
{
    if s.len() > 0 {
        lemma_newline_count_le(s.drop_last());
    }
}

/// Counts the line-terminated segments of `s`, a final unterminated
/// non-empty segment included.
pub fn count_lines(s: &str) -> (r: usize)
    ensures
        r as nat == spec_line_count(s@),
{
    let n = s.unicode_len();
    let mut acc: usize = 0;
    let mut i: usize = 0;
    proof {
        assert(s@.take(0) =~= Seq::<char>::empty());
    }
    while i < n
        invariant
            i <= n,
            n == s@.len(),
            acc <= i,
            acc as nat == spec_newline_count(s@.take(i as int)),
        decreases n - i,
    {
        let c = s.get_char(i);
        proof {
            assert(s@.take(i + 1).drop_last() =~= s@.take(i as int));
            assert(s@.take(i + 1).last() == s@[i as int]);
        }
        if c == '\n' {
            acc = acc + 1;
        }
        i = i + 1;
    }
    proof {
        assert(s@.take(n as int) =~= s@);
    }
    if n > 0 && s.get_char(n - 1) != '\n' {
        proof {
            assert(spec_newline_count(s@) == spec_newline_count(s@.drop_last()));
            lemma_newline_count_le(s@.drop_last());
        }
        acc + 1
    } else {
        acc
    }
}

/// Counts the maximal whitespace-separated runs of non-whitespace
/// characters in `s`.
pub fn count_words(s: &str) -> (r: usize)
    ensures
        r as nat == spec_word_count(s@),
{
    let n = s.unicode_len();
    let mut acc: usize = 0;
    let mut prev_ws: bool = true;
    let mut i: usize = 0;
    proof {
        assert(s@.take(0) =~= Seq::<char>::empty());
    }
    while i < n
        invariant
            i <= n,
            n == s@.len(),
            acc <= i,
            acc as nat == spec_word_count(s@.take(i as int)),
            i == 0 ==> prev_ws == true,
            i > 0 ==> prev_ws == is_unicode_whitespace(s@[i - 1]),
        decreases n - i,
    {
        let c = s.get_char(i);
        let cw = is_whitespace_char(c);
        proof {
            assert(s@.take(i + 1).drop_last() =~= s@.take(i as int));
            assert(s@.take(i + 1).last() == s@[i as int]);
            if i > 0 {
                assert(s@.take(i + 1)[i - 1] == s@[i - 1]);
            }
        }
        if !cw && prev_ws {
            acc = acc + 1;
        }
        prev_ws = cw;
        i = i + 1;
    }
    proof {
        assert(s@.take(n as int) =~= s@);
    }
    acc
}

/// Counts the Unicode scalar values of `s`: code points, not bytes and not
/// grapheme clusters.
pub fn count_chars(s: &str) -> (r: usize)
    ensures
        r as nat == s@.len(),
{
    s.unicode_len()
}

/// Counts the bytes of the UTF-8 encoding of `s`.
pub fn count_bytes(s: &str) -> (r: usize)
    ensures
        r as nat == spec_byte_count(s),
{
    s.len()
}

/// Computes the one count that `command` requests for `s`.
pub fn count_from_command(s: &str, command: Command) -> (r: usize)
    ensures
        r as nat == spec_count(command, s),
{
    match command {
        Command::CountLines => count_lines(s),
        Command::CountWords => count_words(s),
        Command::CountChars => count_chars(s),
        Command::CountBytes => count_bytes(s),
    }
}

/// The counts of one entry, at the specification level: for each metric,
/// either its non-negative count or nothing, when the metric was not
/// requested.
pub struct CountsView {
    pub lines: Option<nat>,
    pub words: Option<nat>,
    pub chars: Option<nat>,
    pub bytes: Option<nat>,
}

/// The mathematical image of one optional machine count.
pub open spec fn opt_nat(o: Option<usize>) -> Option<nat> {
    match o {
        Some(v) => Some(v as nat),
        None => None,
    }
}

/// The counts computed for one entry: one slot per metric, filled exactly
/// for the metrics of the active selection.
#[derive(Debug, PartialEq, Eq, Clone, Copy)]
pub struct CommandCounts {
    pub lines: Option<usize>,
    pub words: Option<usize>,
    pub chars: Option<usize>,
    pub bytes: Option<usize>,
}

impl View for CommandCounts {
    type V = CountsView;

    open spec fn view(&self) -> CountsView {
        CountsView {
            lines: opt_nat(self.lines),
            words: opt_nat(self.words),
            chars: opt_nat(self.chars),
            bytes: opt_nat(self.bytes),
        }
    }
}

/// The value of the missing-count-is-zero reading of `o`.
pub open spec fn spec_opt_zero(o: Option<nat>) -> nat {
    match o {
        Some(v) => v,
        None => 0,
    }
}

/// The largest count present in `v`, zero when none is.
pub open spec fn spec_max_count(v: CountsView) -> nat {
    let a = spec_opt_zero(v.lines);
    let b = spec_opt_zero(v.words);
    let c = spec_opt_zero(v.chars);
    let d = spec_opt_zero(v.bytes);
    let ab = if a >= b {
        a
    } else {
        b
    };
    let cd = if c >= d {
        c
    } else {
        d
    };
    if ab >= cd {
        ab
    } else {
        cd
    }
}

impl CommandCounts {
    /// The largest count present, zero when none is.
    pub fn max_value(&self) -> (r: usize)
        ensures
            r as nat == spec_max_count(self@),
    {
        let mut m: usize = 0;
        if let Some(v) = self.lines {
            if v > m {
                m = v;
            }
        }
        if let Some(v) = self.words {
            if v > m {
                m = v;
            }
        }
        if let Some(v) = self.chars {
            if v > m {
                m = v;
            }
        }
        if let Some(v) = self.bytes {
            if v > m {
                m = v;
            }
        }
        m
    }
}

/// The counts that counting `s` under the selection `commands` produces:
/// for every requested metric exactly its count of `s`, and nothing for the
/// others.
pub open spec fn spec_counts_for(s: &str, commands: Seq<Command>) -> CountsView {
    CountsView {
        lines: if commands.contains(Command::CountLines) {
            Some(spec_count(Command::CountLines, s))
        } else {
            None
        },
        words: if commands.contains(Command::CountWords) {
            Some(spec_count(Command::CountWords, s))
        } else {
            None
        },
        chars: if commands.contains(Command::CountChars) {
            Some(spec_count(Command::CountChars, s))
        } else {
            None
        },
        bytes: if commands.contains(Command::CountBytes) {
            Some(spec_count(Command::CountBytes, s))
        } else {
            None
        },
    }
}

/// Computes the counts of `s` for every metric in `commands`. Counting is
/// one read-only pass per metric and deterministic in `s`.
pub fn count(s: &str, commands: Vec<Command>) -> (r: CommandCounts)
    ensures
        r@ == spec_counts_for(s, commands@),
{
    let mut out = CommandCounts { lines: None, words: None, chars: None, bytes: None };
    let mut i: usize = 0;
    while i < commands.len()
        invariant
            i <= commands@.len(),
            out@.lines == (if commands@.take(i as int).contains(Command::CountLines) {
                Some(spec_count(Command::CountLines, s))
            } else {
                None::<nat>
            }),
            out@.words == (if commands@.take(i as int).contains(Command::CountWords) {
                Some(spec_count(Command::CountWords, s))
            } else {
                None::<nat>
            }),
            out@.chars == (if commands@.take(i as int).contains(Command::CountChars) {
                Some(spec_count(Command::CountChars, s))
            } else {
                None::<nat>
            }),
            out@.bytes == (if commands@.take(i as int).contains(Command::CountBytes) {
                Some(spec_count(Command::CountBytes, s))
            } else {
                None::<nat>
            }),
        decreases commands@.len() - i,
    {
        proof {
            assert(commands@.take(i + 1) =~= commands@.take(i as int).push(commands@[i as int]));
            lemma_take_push_contains(commands@.take(i as int), commands@[i as int]);
        }
        match commands[i] {
            Command::CountLines => {
                out.lines = Some(count_lines(s));
            },
            Command::CountWords => {
                out.words = Some(count_words(s));
            },
            Command::CountChars => {
                out.chars = Some(count_chars(s));
            },
            Command::CountBytes => {
                out.bytes = Some(count_bytes(s));
            },
        }
        i = i + 1;
    }
    proof {
        assert(commands@.take(commands@.len() as int) =~= commands@);
    }
    out
}

/// Membership in a sequence extended by one element.
proof fn lemma_take_push_contains(s: Seq<Command>, x: Command)
    ensures
        forall|c: Command| #[trigger] s.push(x).contains(c) <==> (s.contains(c) || c == x),
{
    assert forall|c: Command| #[trigger] s.push(x).contains(c) implies (s.contains(c) || c == x) by {
        let j = choose|j: int| 0 <= j < s.push(x).len() && s.push(x)[j] == c;
        if j < s.len() {
            assert(s[j] == c);
        }
    }
    assert forall|c: Command| (s.contains(c) || c == x) implies #[trigger] s.push(x).contains(c) by {
        if s.contains(c) {
            let j = choose|j: int| 0 <= j < s.len() && s[j] == c;
            assert(s.push(x)[j] == c);
        } else {
            assert(s.push(x)[s.len() as int] == c);
        }
    }
}

/// One labeled counting result: the name of the text it came from (or the
/// synthetic label of a total) and the counts themselves.
#[derive(Debug, PartialEq)]
pub struct Counter {
    pub file: String,
    pub counts: CommandCounts,
}

/// The specification-level image of a [`Counter`].
pub struct CounterView {
    pub file: Seq<char>,
    pub counts: CountsView,
}

impl View for Counter {
    type V = CounterView;

    open spec fn view(&self) -> CounterView {
        CounterView { file: self.file@, counts: self.counts@ }
    }
}

/// One metric column of a rendered entry: the count right-justified in a
/// `w`-character field when the metric is present, nothing when it is not.
pub open spec fn spec_cell_opt(o: Option<nat>, w: nat) -> Seq<char> {
    match o {
        Some(v) => spec_pad_left(spec_dec(v), w),
        None => Seq::empty(),
    }
}

/// One rendered report line: the present counts in canonical metric order,
/// each right-justified in a `w`-character column with no separator, then a
/// single space and the entry's label.
pub open spec fn spec_render_entry(e: CounterView, w: nat) -> Seq<char> {
    spec_cell_opt(e.counts.lines, w) + spec_cell_opt(e.counts.words, w) + spec_cell_opt(
        e.counts.chars,
        w,
    ) + spec_cell_opt(e.counts.bytes, w) + seq![' '] + e.file
}

/// Renders the one line for `c` with the column width `w`.
pub(crate) fn render_line(c: &Counter, w: usize) -> (r: String)
    ensures
        r@ == spec_render_entry(c@, w as nat),
{
    let mut out = String::new();
    if let Some(v) = c.counts.lines {
        let cell = render_cell(v, w);
        out.append(cell.as_str());
    }
    if let Some(v) = c.counts.words {
        let cell = render_cell(v, w);
        out.append(cell.as_str());
    }
    if let Some(v) = c.counts.chars {
        let cell = render_cell(v, w);
        out.append(cell.as_str());
    }
    if let Some(v) = c.counts.bytes {
        let cell = render_cell(v, w);
        out.append(cell.as_str());
    }
    out.append(" ");
    out.append(c.file.as_str());
    proof {
        reveal_strlit(" ");
        assert(" "@ =~= seq![' ']);
        assert(out@ =~= spec_render_entry(c@, w as nat));
    }
    out
}

impl Counter {
    /// Builds the entry for one text: its label and the counts of every
    /// metric in `commands`.
    pub fn from_contents(file: String, contents: &str, commands: Vec<Command>) -> (r: Counter)
        ensures
            r.file == file,
            r.counts@ == spec_counts_for(contents, commands@),
    {
        let counts = count(contents, commands);
        Counter { file, counts }
    }

    /// Renders this entry alone: the column width is governed by its own
    /// largest count.
    pub fn to_string(self) -> (r: String)
        ensures
            r@ == spec_render_entry(self@, spec_col_width(spec_max_count(self.counts@))),
    {
        let w = column_width(self.counts.max_value());
        render_line(&self, w)
    }
}

} // verus!
