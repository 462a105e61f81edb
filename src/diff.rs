//! Line diffs with line numbers, cut into chunks of changes with a little
//! unchanged context around them.
use vstd::prelude::*;
use crate::style::{Span, Style, span_views, plain_of, plain_text};
use crate::text::{chars_of, string_of_chars, nat_digits, pad_left, padded_left, spaces, u64_text};

verus! {

/// The kind of a diff line.
#[derive(Clone, Copy, Debug, PartialEq, Eq, Structural)]
pub enum Mode {
    Same,
    Add,
    Rem,
}

/// A line number on one side of a diff; `None` where the line is absent on
/// that side.
#[derive(Clone, Copy, Debug, PartialEq, Eq, Structural)]
pub struct Lineno(pub Option<usize>);

impl View for Lineno {
    type V = Option<int>;

    open spec fn view(&self) -> Option<int> {
        match self.0 {
            Some(n) => Some(n as int),
            None => None,
        }
    }
}

/// One line of a diff: its kind, its numbers in the old and the new text,
/// and its content.
#[derive(Debug)]
pub struct PrintInfo(pub Mode, pub Lineno, pub Lineno, pub String);

impl View for PrintInfo {
    type V = (Mode, Option<int>, Option<int>, Seq<char>);

    open spec fn view(&self) -> (Mode, Option<int>, Option<int>, Seq<char>) {
        (self.0, self.1@, self.2@, self.3@)
    }
}

/// A run of lines of an edit script: kept, added or removed. The text holds
/// the lines joined by newlines.
#[derive(Debug)]
pub enum Segment {
    Same(String),
    Add(String),
    Rem(String),
}

impl View for Segment {
    type V = (Mode, Seq<char>);

    open spec fn view(&self) -> (Mode, Seq<char>) {
        match self {
            Segment::Same(s) => (Mode::Same, s@),
            Segment::Add(s) => (Mode::Add, s@),
            Segment::Rem(s) => (Mode::Rem, s@),
        }
    }
}

/// The views of a sequence of segments.
pub open spec fn segment_views(s: Seq<Segment>) -> Seq<(Mode, Seq<char>)> {
    s.map_values(|g: Segment| g@)
}

/// The views of a sequence of diff lines.
pub open spec fn info_views(s: Seq<PrintInfo>) -> Seq<(Mode, Option<int>, Option<int>, Seq<char>)> {
    s.map_values(|p: PrintInfo| p@)
}

/// The line-level edit script that turns `orig` into `edit`.
pub uninterp spec fn line_changes(orig: Seq<char>, edit: Seq<char>) -> Seq<(Mode, Seq<char>)>;

/// The text with trailing whitespace removed.
pub uninterp spec fn trimmed_end(s: Seq<char>) -> Seq<char>;

/// The first `n` bytes of the text, where `n` falls on a character boundary.
pub uninterp spec fn byte_prefix(s: Seq<char>, n: nat) -> Option<Seq<char>>;

/// Whether every character is ASCII.
pub open spec fn all_ascii(s: Seq<char>) -> bool {
    forall|i: int| 0 <= i < s.len() ==> (s[i] as u32) < 128
}

/// Relies on `difference::Changeset::new` with a newline split: the edit
/// script between the two texts, its entries kept in order and each variant
/// mapped to the segment of the same name. Of two equal texts, every line is
/// common, so the script is one kept segment holding the text, or nothing
/// for empty texts.
#[verifier::external_body]
fn changeset(orig: &str, edit: &str) -> (r: Vec<Segment>)
    ensures
        segment_views(r@) == line_changes(orig@, edit@),
        orig@ == edit@ ==> segment_views(r@) == if orig@.len() == 0 {
            Seq::<(Mode, Seq<char>)>::empty()
        } else {
            seq![(Mode::Same, orig@)]
        },
{
    difference::Changeset::new(orig, edit, "\n").diffs.into_iter().map(|d| match d {
        difference::Difference::Same(s) => Segment::Same(s),
        difference::Difference::Add(s) => Segment::Add(s),
        difference::Difference::Rem(s) => Segment::Rem(s),
    }).collect()
}

/// Relies on `str::trim_end`: a prefix of the text, without trailing whitespace.
#[verifier::external_body]
fn trim_end(s: &str) -> (r: String)
    ensures
        r@ == trimmed_end(s@),
        r@.len() <= s@.len(),
        r@ == s@.subrange(0, r@.len() as int),
{
    s.trim_end().to_string()
}

/// Relies on `str::get` with a range `..n`: the first `n` bytes, if they end
/// on a character boundary within the text. For ASCII text, bytes are
/// characters.
#[verifier::external_body]
fn prefix_bytes(s: &str, n: usize) -> (r: Option<String>)
    ensures
        (match r {
            Some(p) => byte_prefix(s@, n as nat) == Some(p@),
            None => byte_prefix(s@, n as nat) is None,
        }),
        all_ascii(s@) ==> (r is Some <==> n <= s@.len()),
        all_ascii(s@) && r is Some ==> r->0@ == s@.subrange(0, n as int),
{
    s.get(..n).map(|p| p.to_string())
}

/// The text cut at each newline. An empty text is one empty line; a text
/// that ends in a newline ends with an empty line.
pub open spec fn split_lines(s: Seq<char>) -> Seq<Seq<char>>
    decreases s.len(),
{
    if s.len() == 0 {
        seq![Seq::empty()]
    } else {
        let prev = split_lines(s.drop_last());
        if s.last() == '\n' {
            prev.push(Seq::empty())
        } else {
            prev.update(prev.len() - 1, prev.last().push(s.last()))
        }
    }
}

proof fn lemma_split_lines_nonempty(s: Seq<char>)
    ensures
        split_lines(s).len() >= 1,
    decreases s.len(),
{
    if s.len() > 0 {
        lemma_split_lines_nonempty(s.drop_last());
    }
}

/// Splits `s` at each newline.
fn lines_of(s: &str) -> (r: Vec<String>)
    ensures
        r@.map_values(|l: String| l@) == split_lines(s@),
{
    let cs = chars_of(s);
    let mut done: Vec<String> = Vec::new();
    let mut cur: Vec<char> = Vec::new();
    let mut i: usize = 0;
    while i < cs.len()
        invariant
            i <= cs.len(),
            cs@ == s@,
            done@.map_values(|l: String| l@).push(cur@) == split_lines(s@.subrange(0, i as int)),
        decreases cs.len() - i,
    {
        let c = cs[i];
        proof {
            let pre = s@.subrange(0, i as int);
            let next = s@.subrange(0, i + 1);
            assert(next.drop_last() =~= pre);
            assert(next.last() == c);
            lemma_split_lines_nonempty(pre);
        }
        let ghost old_done = done@;
        let ghost old_cur = cur@;
        if c == '\n' {
            let line = string_of_chars(&cur);
            done.push(line);
            cur = Vec::new();
            proof {
                assert(done@.map_values(|l: String| l@) =~= old_done.map_values(|l: String| l@).push(old_cur));
                assert(done@.map_values(|l: String| l@).push(cur@) =~= split_lines(s@.subrange(0, i + 1)));
            }
        } else {
            cur.push(c);
            proof {
                let prev = old_done.map_values(|l: String| l@).push(old_cur);
                assert(prev.update(prev.len() - 1, prev.last().push(c)) =~= old_done.map_values(|l: String| l@).push(cur@));
            }
        }
        i = i + 1;
    }
    let ghost old_done = done@;
    done.push(string_of_chars(&cur));
    proof {
        assert(done@.map_values(|l: String| l@) =~= old_done.map_values(|l: String| l@).push(cur@));
        assert(s@.subrange(0, cs.len() as int) =~= s@);
    }
    done
}

/// The numbered diff lines of one segment whose lines are `lines`, when
/// `a` old and `b` new lines come before it.
pub open spec fn number_lines(mode: Mode, lines: Seq<Seq<char>>, a: int, b: int) -> Seq<
    (Mode, Option<int>, Option<int>, Seq<char>),
> {
    Seq::new(
        lines.len(),
        |k: int|
            (
                mode,
                if mode == Mode::Add { None } else { Some(a + k + 1) },
                if mode == Mode::Rem { None } else { Some(b + k + 1) },
                trimmed_end(lines[k]),
            ),
    )
}

/// How far a segment of `n` lines advances the old side.
pub open spec fn old_advance(mode: Mode, n: int) -> int {
    if mode == Mode::Add { 0 } else { n }
}

/// How far a segment of `n` lines advances the new side.
pub open spec fn new_advance(mode: Mode, n: int) -> int {
    if mode == Mode::Rem { 0 } else { n }
}

/// The numbered lines of an edit script, with the number of old and new
/// lines it spans. A kept line advances both sides, an added line only the
/// new side, a removed line only the old side.
pub open spec fn numbered(segs: Seq<(Mode, Seq<char>)>) -> (
    Seq<(Mode, Option<int>, Option<int>, Seq<char>)>,
    int,
    int,
)
    decreases segs.len(),
{
    if segs.len() == 0 {
        (Seq::empty(), 0, 0)
    } else {
        let prev = numbered(segs.drop_last());
        let mode = segs.last().0;
        let lines = split_lines(segs.last().1);
        (
            prev.0 + number_lines(mode, lines, prev.1, prev.2),
            prev.1 + old_advance(mode, lines.len() as int),
            prev.2 + new_advance(mode, lines.len() as int),
        )
    }
}

proof fn lemma_numbered_grows(segs: Seq<(Mode, Seq<char>)>, i: int)
    requires
        0 <= i <= segs.len(),
    ensures
        0 <= numbered(segs.subrange(0, i)).1 <= numbered(segs).1,
        0 <= numbered(segs.subrange(0, i)).2 <= numbered(segs).2,
    decreases segs.len(),
{
    if segs.len() > 0 {
        if i == segs.len() {
            assert(segs.subrange(0, i) =~= segs);
            lemma_numbered_grows(segs.drop_last(), i - 1);
            assert(segs.drop_last().subrange(0, i - 1) =~= segs.drop_last());
        } else {
            lemma_numbered_grows(segs.drop_last(), i);
            assert(segs.drop_last().subrange(0, i) =~= segs.subrange(0, i));
        }
    }
}

/// Numbers the lines of an edit script: each side has its own counter,
/// starting at one. Lines keep their kind and lose trailing whitespace.
/// When either side spans `usize::MAX` lines or more, the result stops short.
pub fn diff_with_lineno(changes: &Vec<Segment>) -> (r: Vec<PrintInfo>)
    ensures
        numbered(segment_views(changes@)).1 < usize::MAX
            && numbered(segment_views(changes@)).2 < usize::MAX
            ==> info_views(r@) == numbered(segment_views(changes@)).0,
        (forall|j: int| 0 <= j < changes@.len() ==> (#[trigger] changes@[j])@.0 == Mode::Same) ==> forall|
            i: int,
        |
            0 <= i < r@.len() ==> (#[trigger] r@[i]).0 == Mode::Same,
{
    let ghost all_same = forall|j: int| 0 <= j < changes@.len() ==> (#[trigger] changes@[j])@.0 == Mode::Same;
    let ghost segs = segment_views(changes@);
    let mut r: Vec<PrintInfo> = Vec::new();
    let mut line_a: usize = 0;
    let mut line_b: usize = 0;
    let mut i: usize = 0;
    while i < changes.len()
        invariant
            i <= changes.len(),
            segs == segment_views(changes@),
            info_views(r@) == numbered(segs.subrange(0, i as int)).0,
            line_a == numbered(segs.subrange(0, i as int)).1,
            line_b == numbered(segs.subrange(0, i as int)).2,
            all_same == forall|j: int| 0 <= j < changes@.len() ==> (#[trigger] changes@[j])@.0 == Mode::Same,
            all_same ==> forall|k: int| 0 <= k < r@.len() ==> (#[trigger] r@[k]).0 == Mode::Same,
        decreases changes.len() - i,
    {
        let (mode, text) = match &changes[i] {
            Segment::Same(t) => (Mode::Same, t),
            Segment::Add(t) => (Mode::Add, t),
            Segment::Rem(t) => (Mode::Rem, t),
        };
        assert((mode, text@) == segs[i as int]);
        assert(all_same ==> changes@[i as int]@.0 == Mode::Same);
        let lines = lines_of(text.as_str());
        let ghost ls = split_lines(text@);
        let ghost start = r@;
        let ghost a0 = line_a as int;
        let ghost b0 = line_b as int;
        proof {
            lemma_numbered_grows(segs, i + 1);
            let next = segs.subrange(0, i + 1);
            assert(next.drop_last() =~= segs.subrange(0, i as int));
        }
        let mut k: usize = 0;
        while k < lines.len()
            invariant
                k <= lines.len(),
                segs == segment_views(changes@),
                lines@.map_values(|l: String| l@) == ls,
                info_views(r@) == info_views(start) + number_lines(mode, ls.subrange(0, k as int), a0, b0),
                line_a == a0 + old_advance(mode, k as int),
                line_b == b0 + new_advance(mode, k as int),
                a0 + old_advance(mode, ls.len() as int) <= numbered(segs).1,
                b0 + new_advance(mode, ls.len() as int) <= numbered(segs).2,
                0 <= a0,
                0 <= b0,
                all_same == forall|j: int| 0 <= j < changes@.len() ==> (#[trigger] changes@[j])@.0 == Mode::Same,
                all_same ==> mode == Mode::Same,
                all_same ==> forall|k: int| 0 <= k < r@.len() ==> (#[trigger] r@[k]).0 == Mode::Same,
            decreases lines.len() - k,
        {
            if (mode != Mode::Add && line_a == usize::MAX) || (mode != Mode::Rem && line_b == usize::MAX) {
                proof {
                    assert(lines@.map_values(|l: String| l@).len() == lines@.len());
                    assert(numbered(segs).1 >= usize::MAX || numbered(segs).2 >= usize::MAX);
                }
                return r;
            }
            let a = if mode == Mode::Add { None } else { line_a = line_a + 1; Some(line_a) };
            let b = if mode == Mode::Rem { None } else { line_b = line_b + 1; Some(line_b) };
            let t = trim_end(lines[k].as_str());
            let ghost before = r@;
            r.push(PrintInfo(mode, Lineno(a), Lineno(b), t));
            proof {
                assert(info_views(r@) =~= info_views(before).push(r@.last()@));
                assert(number_lines(mode, ls.subrange(0, k + 1), a0, b0) =~= number_lines(
                    mode,
                    ls.subrange(0, k as int),
                    a0,
                    b0,
                ).push(r@.last()@));
            }
            k = k + 1;
        }
        proof {
            assert(ls.subrange(0, lines.len() as int) =~= ls);
        }
        i = i + 1;
    }
    proof {
        assert(segs.subrange(0, changes.len() as int) =~= segs);
    }
    r
}

/// The number of unchanged lines shown before and after a change.
pub const CONTEXT_LINES: usize = 2;

impl PrintInfo {
    /// A copy of this line.
    pub fn duplicate(&self) -> (r: PrintInfo)
        ensures
            r == *self,
    {
        PrintInfo(self.0, self.1, self.2, self.3.clone())
    }
}

/// The state of the chunking scan after the first `n` lines: whether a
/// change region is open, how many trailing context lines it may still take,
/// the chunks closed so far, and the chunk being filled.
///
/// A changed line opens a region, pulling in up to `CONTEXT_LINES` lines
/// before it, or joins the open one; either way the trailing countdown
/// starts again. An unchanged line outside a region is skipped. Inside a
/// region it is taken while the countdown lasts; once the countdown is spent
/// it closes the region and is itself left out.
pub open spec fn scan(infos: Seq<PrintInfo>, n: int) -> (bool, int, Seq<Seq<PrintInfo>>, Seq<PrintInfo>)
    decreases n,
{
    if n <= 0 {
        (false, CONTEXT_LINES as int, Seq::empty(), Seq::empty())
    } else {
        let st = scan(infos, n - 1);
        let idx = n - 1;
        let node = infos[idx];
        if node.0 != Mode::Same {
            if st.0 {
                (true, CONTEXT_LINES as int, st.2, st.3.push(node))
            } else {
                let lo = if idx >= CONTEXT_LINES { idx - CONTEXT_LINES } else { 0 };
                (true, CONTEXT_LINES as int, st.2, st.3 + infos.subrange(lo, idx).push(node))
            }
        } else if !st.0 {
            st
        } else if st.1 != 0 {
            (true, st.1 - 1, st.2, st.3.push(node))
        } else {
            (false, st.1, st.2.push(st.3), Seq::empty())
        }
    }
}

/// The chunks of a numbered diff: the closed chunks of the full scan, and
/// the last one if it holds any line.
pub open spec fn chunks_of(infos: Seq<PrintInfo>) -> Seq<Seq<PrintInfo>> {
    let st = scan(infos, infos.len() as int);
    if st.3.len() > 0 {
        st.2.push(st.3)
    } else {
        st.2
    }
}

/// Cuts a numbered diff into chunks, so that unchanged lines only show
/// within `CONTEXT_LINES` of a changed one.
pub fn get_chunks(print_info: &Vec<PrintInfo>) -> (r: Vec<Vec<PrintInfo>>)
    ensures
        r@.map_values(|c: Vec<PrintInfo>| c@) == chunks_of(print_info@),
{
    let mut printable: Vec<Vec<PrintInfo>> = Vec::new();
    let mut running = false;
    let mut end_window: usize = CONTEXT_LINES;
    let mut cur_slice: Vec<PrintInfo> = Vec::new();
    let mut idx: usize = 0;
    while idx < print_info.len()
        invariant
            idx <= print_info.len(),
            end_window <= CONTEXT_LINES,
            scan(print_info@, idx as int) == (
                running,
                end_window as int,
                printable@.map_values(|c: Vec<PrintInfo>| c@),
                cur_slice@,
            ),
        decreases print_info.len() - idx,
    {
        let node = &print_info[idx];
        let ghost st = scan(print_info@, idx as int);
        if node.0 != Mode::Same {
            if !running {
                running = true;
                let lo: usize = if idx >= CONTEXT_LINES { idx - CONTEXT_LINES } else { 0 };
                let mut j: usize = lo;
                while j < idx
                    invariant
                        lo <= j <= idx,
                        idx < print_info.len(),
                        cur_slice@ == st.3 + print_info@.subrange(lo as int, j as int),
                    decreases idx - j,
                {
                    cur_slice.push(print_info[j].duplicate());
                    proof {
                        assert(print_info@.subrange(lo as int, j + 1) =~= print_info@.subrange(
                            lo as int,
                            j as int,
                        ).push(print_info@[j as int]));
                    }
                    j = j + 1;
                }
                proof {
                    assert(st.3 + print_info@.subrange(lo as int, idx as int).push(*node) =~= (st.3
                        + print_info@.subrange(lo as int, idx as int)).push(*node));
                }
            }
            cur_slice.push(node.duplicate());
            end_window = CONTEXT_LINES;
        } else if running && end_window != 0 {
            end_window = end_window - 1;
            cur_slice.push(node.duplicate());
        } else if running {
            running = false;
            let ghost old_printable = printable@;
            printable.push(cur_slice);
            cur_slice = Vec::new();
            proof {
                assert(printable@.map_values(|c: Vec<PrintInfo>| c@) =~= old_printable.map_values(
                    |c: Vec<PrintInfo>| c@,
                ).push(st.3));
            }
        }
        idx = idx + 1;
    }
    if cur_slice.len() > 0 {
        let ghost old_printable = printable@;
        let ghost last = cur_slice@;
        printable.push(cur_slice);
        proof {
            assert(printable@.map_values(|c: Vec<PrintInfo>| c@) =~= old_printable.map_values(
                |c: Vec<PrintInfo>| c@,
            ).push(last));
        }
    }
    printable
}

/// Unchanged lines are shown up to this many bytes, then cut with an
/// ellipsis.
pub const SHOWN_PREFIX: usize = 80;

/// The span of a line number, right-aligned in `width` columns.
pub open spec fn lineno_span(l: Option<int>, width: nat) -> (Style, Seq<char>) {
    match l {
        None => (Style::Plain, spaces(width)),
        Some(n) => (Style::Dimmed, pad_left(nat_digits(n as nat), width)),
    }
}

/// The span of the sign column of a line.
pub open spec fn sign_span(mode: Mode) -> (Style, Seq<char>) {
    match mode {
        Mode::Add => (Style::Green, "+"@),
        Mode::Rem => (Style::Red, "-"@),
        Mode::Same => (Style::Plain, " "@),
    }
}

/// The span of a line's content: added lines green, removed lines red,
/// unchanged lines dimmed and cut after `SHOWN_PREFIX` bytes.
pub open spec fn content_span(mode: Mode, line: Seq<char>) -> (Style, Seq<char>) {
    match mode {
        Mode::Add => (Style::Green, line),
        Mode::Rem => (Style::Red, line),
        Mode::Same => (
            Style::Dimmed,
            match byte_prefix(line, SHOWN_PREFIX as nat) {
                Some(p) => p + " ..."@,
                None => line,
            },
        ),
    }
}

/// The spans of one rendered diff line:
/// `<old number> <new number>│<sign> <content>` and a newline.
pub open spec fn line_spans(info: (Mode, Option<int>, Option<int>, Seq<char>)) -> Seq<(Style, Seq<char>)> {
    seq![
        lineno_span(info.1, 5),
        (Style::Plain, " "@),
        lineno_span(info.2, 3),
        (Style::Plain, "\u{2502}"@),
        sign_span(info.0),
        (Style::Plain, " "@),
        content_span(info.0, info.3),
        (Style::Plain, "\n"@),
    ]
}

/// The spans of the lines of a chunk.
pub open spec fn chunk_spans(chunk: Seq<PrintInfo>) -> Seq<(Style, Seq<char>)>
    decreases chunk.len(),
{
    if chunk.len() == 0 {
        Seq::empty()
    } else {
        chunk_spans(chunk.drop_last()) + line_spans(chunk.last()@)
    }
}

/// The marker that opens a diff and follows each chunk.
pub open spec fn marker() -> (Style, Seq<char>) {
    (Style::Plain, "         ~\n"@)
}

/// The marker that ends a diff.
pub open spec fn end_marker() -> (Style, Seq<char>) {
    (Style::Plain, "         ~"@)
}

/// The chunks rendered one after the other, each followed by a marker.
pub open spec fn chunks_body(chunks: Seq<Seq<PrintInfo>>) -> Seq<(Style, Seq<char>)>
    decreases chunks.len(),
{
    if chunks.len() == 0 {
        Seq::empty()
    } else {
        chunks_body(chunks.drop_last()) + chunk_spans(chunks.last()).push(marker())
    }
}

/// A rendered diff: an opening marker, then the chunks, each closed by a
/// marker; the last marker has no newline.
pub open spec fn render_chunks(chunks: Seq<Seq<PrintInfo>>) -> Seq<(Style, Seq<char>)> {
    let all = seq![marker()] + chunks_body(chunks);
    all.update(all.len() - 1, end_marker())
}

fn lineno_to_span(l: Lineno, width: usize) -> (r: Span)
    requires
        width == 5 || width == 3,
    ensures
        r@ == lineno_span(l@, width as nat),
{
    match l.0 {
        None => {
            let v = crate::text::space_chars(width);
            Span { style: Style::Plain, text: string_of_chars(&v) }
        },
        Some(n) => {
            let t = u64_text(n as u64);
            Span { style: Style::Dimmed, text: padded_left(t.as_str(), width) }
        },
    }
}

impl PrintInfo {
    /// The spans of this line as shown in a diff.
    pub fn to_diff_spans(&self) -> (r: Vec<Span>)
        ensures
            span_views(r@) == line_spans(self@),
    {
        let mut r: Vec<Span> = Vec::new();
        r.push(lineno_to_span(self.1, 5));
        r.push(Span::new(Style::Plain, " "));
        r.push(lineno_to_span(self.2, 3));
        r.push(Span::new(Style::Plain, "\u{2502}"));
        let sign = match self.0 {
            Mode::Add => Span::new(Style::Green, "+"),
            Mode::Rem => Span::new(Style::Red, "-"),
            Mode::Same => Span::new(Style::Plain, " "),
        };
        r.push(sign);
        r.push(Span::new(Style::Plain, " "));
        let content = match self.0 {
            Mode::Add => Span::new(Style::Green, self.3.as_str()),
            Mode::Rem => Span::new(Style::Red, self.3.as_str()),
            Mode::Same => {
                let shown = match prefix_bytes(self.3.as_str(), SHOWN_PREFIX) {
                    Some(p) => p.concat(" ..."),
                    None => self.3.clone(),
                };
                Span { style: Style::Dimmed, text: shown }
            },
        };
        r.push(content);
        r.push(Span::new(Style::Plain, "\n"));
        assert(span_views(r@) =~= line_spans(self@));
        r
    }

    /// This line as shown in a diff, without styles.
    pub fn to_diff(&self) -> (r: String)
        ensures
            r@ == plain_of(line_spans(self@)),
    {
        plain_text(&self.to_diff_spans())
    }
}

fn push_chunk(spans: &mut Vec<Span>, chunk: &Vec<PrintInfo>)
    ensures
        span_views(final(spans)@) == span_views(old(spans)@) + chunk_spans(chunk@),
{
    let mut i: usize = 0;
    while i < chunk.len()
        invariant
            i <= chunk.len(),
            span_views(spans@) == span_views(old(spans)@) + chunk_spans(chunk@.subrange(0, i as int)),
        decreases chunk.len() - i,
    {
        let mut line = chunk[i].to_diff_spans();
        let ghost before = spans@;
        let ghost added = line@;
        spans.append(&mut line);
        proof {
            assert(chunk@.subrange(0, i + 1).drop_last() =~= chunk@.subrange(0, i as int));
            assert(span_views(spans@) =~= span_views(before) + span_views(added));
        }
        i = i + 1;
    }
    proof {
        assert(chunk@.subrange(0, chunk.len() as int) =~= chunk@);
    }
}

/// Renders chunks of a numbered diff as spans: an opening marker, then each
/// chunk followed by a marker; the final marker has no newline.
pub fn render_spans(chunks: &Vec<Vec<PrintInfo>>) -> (r: Vec<Span>)
    ensures
        span_views(r@) == render_chunks(chunks@.map_values(|c: Vec<PrintInfo>| c@)),
{
    let ghost cs = chunks@.map_values(|c: Vec<PrintInfo>| c@);
    let mut r: Vec<Span> = Vec::new();
    r.push(Span::new(Style::Plain, "         ~\n"));
    let mut i: usize = 0;
    while i < chunks.len()
        invariant
            i <= chunks.len(),
            cs == chunks@.map_values(|c: Vec<PrintInfo>| c@),
            span_views(r@) == seq![marker()] + chunks_body(cs.subrange(0, i as int)),
        decreases chunks.len() - i,
    {
        push_chunk(&mut r, &chunks[i]);
        let ghost before = r@;
        r.push(Span::new(Style::Plain, "         ~\n"));
        proof {
            assert(cs.subrange(0, i + 1).drop_last() =~= cs.subrange(0, i as int));
            assert(span_views(r@) =~= span_views(before).push(marker()));
        }
        i = i + 1;
    }
    proof {
        assert(cs.subrange(0, chunks.len() as int) =~= cs);
    }
    let ghost before = r@;
    r.pop();
    r.push(Span::new(Style::Plain, "         ~"));
    proof {
        assert(span_views(r@) =~= span_views(before).update(before.len() - 1, end_marker()));
    }
    r
}

/// The diff from `org` to `new` as spans: the line-level edit script,
/// numbered, cut into chunks of changes with context, and rendered.
pub fn gen_diff_spans(org: &str, new: &str) -> (r: Vec<Span>)
    ensures
        org@ == new@ ==> span_views(r@) == seq![end_marker()],
        numbered(line_changes(org@, new@)).1 < usize::MAX && numbered(line_changes(org@, new@)).2
            < usize::MAX ==> exists|infos: Seq<PrintInfo>|
            info_views(infos) == numbered(line_changes(org@, new@)).0 && span_views(r@)
                == render_chunks(chunks_of(infos)),
{
    let changes = changeset(org, new);
    let infos = diff_with_lineno(&changes);
    let chunks = get_chunks(&infos);
    proof {
        if org@ == new@ {
            assert forall|j: int| 0 <= j < changes@.len() implies (#[trigger] changes@[j])@.0 == Mode::Same by {
                assert(segment_views(changes@)[j] == changes@[j]@);
            }
            lemma_unchanged_diff_has_no_chunks(infos@);
        }
    }
    render_spans(&chunks)
}

/// The diff from `org` to `new` as text, without styles.
pub fn gen_diff(org: &str, new: &str) -> (r: String)
    ensures
        org@ == new@ ==> r@ == end_marker().1,
        numbered(line_changes(org@, new@)).1 < usize::MAX && numbered(line_changes(org@, new@)).2
            < usize::MAX ==> exists|infos: Seq<PrintInfo>|
            info_views(infos) == numbered(line_changes(org@, new@)).0 && r@ == plain_of(
                render_chunks(chunks_of(infos)),
            ),
{
    let spans = gen_diff_spans(org, new);
    proof {
        if org@ == new@ {
            let v = seq![end_marker()];
            assert(v.drop_last() =~= Seq::<(Style, Seq<char>)>::empty());
            assert(plain_of(v.drop_last()) == Seq::<char>::empty());
            assert(v.last() == end_marker());
            assert(plain_of(v) =~= Seq::<char>::empty() + end_marker().1);
        }
    }
    plain_text(&spans)
}

proof fn lemma_scan_unchanged(infos: Seq<PrintInfo>, n: int)
    requires
        0 <= n <= infos.len(),
        forall|i: int| 0 <= i < infos.len() ==> infos[i].0 == Mode::Same,
    ensures
        scan(infos, n) == (false, CONTEXT_LINES as int, Seq::<Seq<PrintInfo>>::empty(), Seq::<PrintInfo>::empty()),
    decreases n,
{
    if n > 0 {
        lemma_scan_unchanged(infos, n - 1);
    }
}

/// A diff in which no line changed has no chunk: rendered, it is the
/// closing marker alone, with no chunk separator.
pub proof fn lemma_unchanged_diff_has_no_chunks(infos: Seq<PrintInfo>)
    requires
        forall|i: int| 0 <= i < infos.len() ==> infos[i].0 == Mode::Same,
    ensures
        chunks_of(infos).len() == 0,
        render_chunks(chunks_of(infos)) == seq![end_marker()],
{
    lemma_scan_unchanged(infos, infos.len() as int);
    assert(render_chunks(chunks_of(infos)) =~= seq![end_marker()]);
}

proof fn lemma_scan_all_changed(infos: Seq<PrintInfo>, n: int)
    requires
        1 <= n <= infos.len(),
        forall|i: int| 0 <= i < infos.len() ==> infos[i].0 != Mode::Same,
    ensures
        scan(infos, n) == (true, CONTEXT_LINES as int, Seq::<Seq<PrintInfo>>::empty(), infos.subrange(0, n)),
    decreases n,
{
    if n == 1 {
        assert(scan(infos, 0).3 + infos.subrange(0, 0).push(infos[0]) =~= infos.subrange(0, 1));
    } else {
        lemma_scan_all_changed(infos, n - 1);
        assert(infos.subrange(0, n - 1).push(infos[n - 1]) =~= infos.subrange(0, n));
    }
}

/// A diff in which every line changed is one chunk that holds every line,
/// in order.
pub proof fn lemma_changed_diff_is_one_chunk(infos: Seq<PrintInfo>)
    requires
        infos.len() > 0,
        forall|i: int| 0 <= i < infos.len() ==> infos[i].0 != Mode::Same,
    ensures
        chunks_of(infos) == seq![infos],
{
    lemma_scan_all_changed(infos, infos.len() as int);
    assert(infos.subrange(0, infos.len() as int) =~= infos);
    assert(chunks_of(infos) =~= seq![infos]);
}

/// The number of diff lines, among `infos`, that are not of kind `skip`:
/// with `skip` = `Add`, the lines present in the old text; with `Rem`, those
/// present in the new text.
pub open spec fn side_count(infos: Seq<(Mode, Option<int>, Option<int>, Seq<char>)>, skip: Mode) -> int
    decreases infos.len(),
{
    if infos.len() == 0 {
        0
    } else {
        side_count(infos.drop_last(), skip) + if infos.last().0 != skip { 1int } else { 0int }
    }
}

proof fn lemma_side_count_concat(
    x: Seq<(Mode, Option<int>, Option<int>, Seq<char>)>,
    y: Seq<(Mode, Option<int>, Option<int>, Seq<char>)>,
    skip: Mode,
)
    ensures
        side_count(x + y, skip) == side_count(x, skip) + side_count(y, skip),
    decreases y.len(),
{
    if y.len() > 0 {
        lemma_side_count_concat(x, y.drop_last(), skip);
        assert((x + y).drop_last() =~= x + y.drop_last());
    } else {
        assert(x + y =~= x);
    }
}

proof fn lemma_side_count_uniform(mode: Mode, lines: Seq<Seq<char>>, a: int, b: int, j: int, skip: Mode)
    requires
        0 <= j <= lines.len(),
    ensures
        side_count(number_lines(mode, lines, a, b).subrange(0, j), skip) == if mode != skip { j } else { 0 },
    decreases j,
{
    if j > 0 {
        lemma_side_count_uniform(mode, lines, a, b, j - 1, skip);
        assert(number_lines(mode, lines, a, b).subrange(0, j).drop_last() =~= number_lines(
            mode,
            lines,
            a,
            b,
        ).subrange(0, j - 1));
    }
}

proof fn lemma_numbered_counts(segs: Seq<(Mode, Seq<char>)>)
    ensures
        numbered(segs).1 == side_count(numbered(segs).0, Mode::Add),
        numbered(segs).2 == side_count(numbered(segs).0, Mode::Rem),
    decreases segs.len(),
{
    if segs.len() > 0 {
        let prev = numbered(segs.drop_last());
        let mode = segs.last().0;
        let lines = split_lines(segs.last().1);
        let nl = number_lines(mode, lines, prev.1, prev.2);
        lemma_numbered_counts(segs.drop_last());
        lemma_side_count_concat(prev.0, nl, Mode::Add);
        lemma_side_count_concat(prev.0, nl, Mode::Rem);
        lemma_side_count_uniform(mode, lines, prev.1, prev.2, lines.len() as int, Mode::Add);
        lemma_side_count_uniform(mode, lines, prev.1, prev.2, lines.len() as int, Mode::Rem);
        assert(nl.subrange(0, lines.len() as int) =~= nl);
    }
}

/// Each side of a numbered diff counts its own lines: a line present in the
/// old text (kept or removed) is numbered one more than the old-side lines
/// before it, and has no new-side number if it was removed; the same holds
/// of the new side. So where no line is kept, removed lines are numbered
/// 1, 2, ... on the old side alone and added lines 1, 2, ... on the new side
/// alone.
pub proof fn lemma_sides_numbered_independently(segs: Seq<(Mode, Seq<char>)>, k: int)
    requires
        0 <= k < numbered(segs).0.len(),
    ensures
        numbered(segs).0[k].1 == if numbered(segs).0[k].0 == Mode::Add {
            None
        } else {
            Some(side_count(numbered(segs).0.subrange(0, k), Mode::Add) + 1)
        },
        numbered(segs).0[k].2 == if numbered(segs).0[k].0 == Mode::Rem {
            None
        } else {
            Some(side_count(numbered(segs).0.subrange(0, k), Mode::Rem) + 1)
        },
    decreases segs.len(),
{
    let infos = numbered(segs).0;
    if segs.len() > 0 {
        let prev = numbered(segs.drop_last());
        let mode = segs.last().0;
        let lines = split_lines(segs.last().1);
        let nl = number_lines(mode, lines, prev.1, prev.2);
        assert(infos == prev.0 + nl);
        if k < prev.0.len() {
            lemma_sides_numbered_independently(segs.drop_last(), k);
            assert(infos.subrange(0, k) =~= prev.0.subrange(0, k));
            assert(infos[k] == prev.0[k]);
        } else {
            let j = k - prev.0.len();
            lemma_numbered_counts(segs.drop_last());
            assert(infos.subrange(0, k) =~= prev.0 + nl.subrange(0, j));
            lemma_side_count_concat(prev.0, nl.subrange(0, j), Mode::Add);
            lemma_side_count_concat(prev.0, nl.subrange(0, j), Mode::Rem);
            lemma_side_count_uniform(mode, lines, prev.1, prev.2, j, Mode::Add);
            lemma_side_count_uniform(mode, lines, prev.1, prev.2, j, Mode::Rem);
            assert(infos[k] == nl[j]);
        }
    }
}

} // verus!
