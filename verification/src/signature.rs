//! The signature editor: what its buttons decide, and where its styles are drawn.
//!
//! A document is a text, the stretches of it that carry a style, and the nature of its lines. The
//! offsets are bytes of UTF-8. The editor shows a buffer that may be one keystroke ahead of the
//! document, so that the sections it draws are cut in the text they are given, and never in the
//! middle of a character.
use crate::text;
use crate::utf8;
use vstd::prelude::*;
use vstd::string::*;

verus! {

// ---------------------------------------------------------------------------------------------
// The document
// ---------------------------------------------------------------------------------------------

/// What a stretch of text carries.
#[derive(Debug)]
pub struct Style {
    pub bold: bool,
    pub italic: bool,
    pub link: Option<String>,
}

/// A stretch of text that carries a style.
#[derive(Debug)]
pub struct Span {
    /// Where it starts, in bytes.
    pub at: usize,
    /// How long it is, in bytes.
    pub len: usize,
    pub style: Style,
}

/// The nature of a line.
#[derive(Debug, Clone, Copy, PartialEq, Eq, Structural)]
pub enum Block {
    Paragraph,
    Bullet,
}

/// A styled text.
#[derive(Debug)]
pub struct Document {
    pub text: String,
    pub spans: Vec<Span>,
    pub blocks: Vec<Block>,
}

impl Style {
    /// No style at all.
    pub fn plain() -> (r: Style)
        ensures
            !r.bold,
            !r.italic,
            r.link is None,
    {
        Style { bold: false, italic: false, link: None }
    }

    /// The same style.
    pub fn copy(&self) -> (r: Style)
        ensures
            r == *self,
    {
        Style { bold: self.bold, italic: self.italic, link: text::copy_opt(&self.link) }
    }
}

/// Whether two documents say the same.
pub open spec fn same_document(a: Document, b: Document) -> bool {
    a.text@ == b.text@ && a.spans@ == b.spans@ && a.blocks@ == b.blocks@
}

impl Document {
    /// A document without a character.
    pub fn empty() -> (r: Document)
        ensures
            r.text@ == Seq::<char>::empty(),
            r.spans@ == Seq::<Span>::empty(),
            r.blocks@ == Seq::<Block>::empty(),
    {
        Document { text: String::new(), spans: Vec::new(), blocks: Vec::new() }
    }

    /// The same document.
    pub fn copy(&self) -> (r: Document)
        ensures
            same_document(r, *self),
    {
        let mut spans: Vec<Span> = Vec::new();
        let mut i: usize = 0;
        while i < self.spans.len()
            invariant
                i <= self.spans.len(),
                spans@ == self.spans@.take(i as int),
            decreases self.spans.len() - i,
        {
            let span = &self.spans[i];
            spans.push(Span { at: span.at, len: span.len, style: span.style.copy() });
            i = i + 1;
            assert(self.spans@.take(i as int) == self.spans@.take(i - 1).push(self.spans@[i - 1]));
        }
        assert(self.spans@.take(self.spans.len() as int) == self.spans@);
        let mut blocks: Vec<Block> = Vec::new();
        let mut j: usize = 0;
        while j < self.blocks.len()
            invariant
                j <= self.blocks.len(),
                blocks@ == self.blocks@.take(j as int),
            decreases self.blocks.len() - j,
        {
            blocks.push(self.blocks[j]);
            j = j + 1;
            assert(self.blocks@.take(j as int) == self.blocks@.take(j - 1).push(
                self.blocks@[j - 1],
            ));
        }
        assert(self.blocks@.take(self.blocks.len() as int) == self.blocks@);
        Document { text: self.text.clone(), spans, blocks }
    }

    /// Whether a line is a bullet.
    pub open spec fn bullet(self, line: int) -> bool {
        0 <= line < self.blocks@.len() && self.blocks@[line] == Block::Bullet
    }

    /// Whether a line is a bullet.
    pub fn is_bullet(&self, line: usize) -> (r: bool)
        ensures
            r == self.bullet(line as int),
    {
        line < self.blocks.len() && self.blocks[line] == Block::Bullet
    }
}

// ---------------------------------------------------------------------------------------------
// The sections that are drawn
// ---------------------------------------------------------------------------------------------

/// A stretch of the text that is drawn in one style.
#[derive(Debug, Clone, Copy, PartialEq, Eq)]
pub struct Section {
    /// Where it starts, in bytes.
    pub from: usize,
    /// Where it ends, in bytes.
    pub to: usize,
    /// The span that gives its style; none for plain text.
    pub span: Option<usize>,
    /// Whether it opens a bullet line.
    pub indent: bool,
}

/// A section, in numbers.
pub struct Placed {
    pub from: int,
    pub to: int,
    pub span: Option<int>,
    pub indent: bool,
}

/// A section, in numbers.
pub open spec fn place(s: Section) -> Placed {
    Placed {
        from: s.from as int,
        to: s.to as int,
        span: match s.span {
            Some(k) => Some(k as int),
            None => None,
        },
        indent: s.indent,
    }
}

/// The sections, in numbers.
pub open spec fn places(s: Seq<Section>) -> Seq<Placed> {
    Seq::new(s.len(), |i: int| place(s[i]))
}

pub open spec fn higher(a: int, b: int) -> int {
    if a >= b {
        a
    } else {
        b
    }
}

pub open spec fn lower(a: int, b: int) -> int {
    if a <= b {
        a
    } else {
        b
    }
}

/// Where a line starts, in bytes: each line before it takes its own bytes and one line feed.
pub open spec fn line_start(lines: Seq<Seq<char>>, rank: int) -> int
    decreases rank,
{
    if rank <= 0 {
        0
    } else {
        line_start(lines, rank - 1) + utf8::byte_len(lines[rank - 1]) + 1
    }
}

/// Whether a span has something to draw in a line whose end is `end`, from `cut` on: it is not
/// empty there, it does not run past the text, and it starts and ends between two characters.
pub open spec fn usable(t: Seq<char>, span: Span, cut: int, end: int) -> bool {
    let from = higher(span.at as int, cut);
    let to = lower(span.at + span.len, end);
    &&& from < to <= utf8::byte_len(t)
    &&& utf8::is_boundary(t, from)
    &&& utf8::is_boundary(t, to)
}

/// What the first `k` spans draw of a line, and up to where: each usable span draws the plain
/// text before it, then itself.
pub open spec fn span_sections(
    t: Seq<char>,
    spans: Seq<Span>,
    k: nat,
    start: int,
    end: int,
    bullet: bool,
) -> (Seq<Placed>, int)
    decreases k,
{
    if k == 0 {
        (Seq::empty(), start)
    } else {
        let (done, cut) = span_sections(t, spans, (k - 1) as nat, start, end, bullet);
        let span = spans[k - 1];
        if usable(t, span, cut, end) {
            let from = higher(span.at as int, cut);
            let to = lower(span.at + span.len, end);
            (
                done.push(
                    Placed { from: cut, to: from, span: None, indent: bullet && done.len() == 0 },
                ).push(Placed { from, to, span: Some(k - 1), indent: false }),
                to,
            )
        } else {
            (done, cut)
        }
    }
}

/// The sections of a line: those of the spans, then what is left of it, its line feed included.
pub open spec fn line_sections(
    t: Seq<char>,
    spans: Seq<Span>,
    start: int,
    end: int,
    bullet: bool,
) -> Seq<Placed> {
    let (done, cut) = span_sections(t, spans, spans.len(), start, end, bullet);
    done.push(
        Placed {
            from: cut,
            to: lower(end + 1, utf8::byte_len(t) as int),
            span: None,
            indent: bullet && done.len() == 0,
        },
    )
}

/// The sections of the first `n` lines.
pub open spec fn sections_of(document: Document, t: Seq<char>, n: nat) -> Seq<Placed>
    decreases n,
{
    if n == 0 {
        Seq::empty()
    } else {
        let lines = text::split(t, '\n');
        let start = line_start(lines, n - 1);
        sections_of(document, t, (n - 1) as nat) + line_sections(
            t,
            document.spans@,
            start,
            start + utf8::byte_len(lines[n - 1]),
            document.bullet(n - 1),
        )
    }
}

/// The sections of a text, as a document styles it.
pub open spec fn all_sections(document: Document, t: Seq<char>) -> Seq<Placed> {
    sections_of(document, t, text::split(t, '\n').len())
}

/// The lines of a text and the line feeds between them make up the text.
pub proof fn lemma_lines_fill_the_text(t: Seq<char>)
    ensures
        text::split(t, '\n').len() >= 1,
        line_start(text::split(t, '\n'), text::split(t, '\n').len() as int) == utf8::byte_len(t)
            + 1,
    decreases t.len(),
{
    let lines = text::split(t, '\n');
    if t.len() == 0 {
        assert(lines == seq![Seq::<char>::empty()]);
        assert(line_start(lines, 0) == 0);
        assert(utf8::byte_len(lines[0]) == 0);
    } else {
        let before = text::split(t.drop_last(), '\n');
        let n = before.len() as int;
        lemma_lines_fill_the_text(t.drop_last());
        if t.last() == '\n' {
            lemma_line_start_same(before, lines, n);
            assert(utf8::byte_len(lines[n]) == 0);
            assert(utf8::char_width('\n') == 1);
        } else {
            lemma_line_start_same(before, lines, n - 1);
            assert(lines[n - 1] == before.last().push(t.last()));
            assert(lines[n - 1].drop_last() == before.last());
        }
    }
}

/// Where a line starts depends on the lines before it alone.
pub proof fn lemma_line_start_same(a: Seq<Seq<char>>, b: Seq<Seq<char>>, rank: int)
    requires
        0 <= rank <= a.len(),
        rank <= b.len(),
        forall|i: int| 0 <= i < rank ==> a[i] == b[i],
    ensures
        line_start(a, rank) == line_start(b, rank),
    decreases rank,
{
    if rank > 0 {
        lemma_line_start_same(a, b, rank - 1);
        assert(a[rank - 1] == b[rank - 1]);
    }
}

pub proof fn lemma_line_start_grows(lines: Seq<Seq<char>>, i: int, j: int)
    requires
        0 <= i <= j <= lines.len(),
    ensures
        line_start(lines, i) + (j - i) <= line_start(lines, j),
    decreases j - i,
{
    if i < j {
        lemma_line_start_grows(lines, i, j - 1);
    }
}

/// Where the cut between two sections of a line may be.
pub proof fn lemma_span_sections(
    t: Seq<char>,
    spans: Seq<Span>,
    k: nat,
    start: int,
    end: int,
    bullet: bool,
)
    requires
        k <= spans.len(),
        0 <= start <= end <= utf8::byte_len(t),
        utf8::is_boundary(t, start),
    ensures
        ({
            let (done, cut) = span_sections(t, spans, k, start, end, bullet);
            &&& start <= cut <= end
            &&& utf8::is_boundary(t, cut)
            &&& covers(t, done, start, cut)
            &&& forall|i: int|
                0 <= i < done.len() ==> (#[trigger] done[i]).indent == (bullet && i == 0)
        }),
    decreases k,
{
    if k > 0 {
        lemma_span_sections(t, spans, (k - 1) as nat, start, end, bullet);
    }
}

/// Whether sections follow one another from an offset to another, between characters, without a
/// gap and without an overlap.
pub open spec fn covers(t: Seq<char>, s: Seq<Placed>, from: int, to: int) -> bool {
    &&& s.len() == 0 ==> from == to
    &&& s.len() > 0 ==> s[0].from == from && s.last().to == to
    &&& forall|i: int|
        0 <= i < s.len() ==> (#[trigger] s[i]).from <= s[i].to && utf8::is_boundary(t, s[i].from)
            && utf8::is_boundary(t, s[i].to)
    &&& forall|i: int, j: int|
        0 <= i && j == i + 1 && j < s.len() ==> (#[trigger] s[i]).to == (#[trigger] s[j]).from
}

proof fn lemma_covers_sum(t: Seq<char>, a: Seq<Placed>, b: Seq<Placed>, from: int, mid: int, to: int)
    requires
        covers(t, a, from, mid),
        covers(t, b, mid, to),
    ensures
        covers(t, a + b, from, to),
{
    let s = a + b;
    assert forall|i: int, j: int| 0 <= i && j == i + 1 && j < s.len() implies (#[trigger] s[i]).to
        == (#[trigger] s[j]).from by {
        if j < a.len() {
            assert(s[i] == a[i] && s[j] == a[j]);
        } else if i >= a.len() {
            assert(s[i] == b[i - a.len()] && s[j] == b[j - a.len()]);
        } else {
            assert(s[i] == a.last() && s[j] == b[0]);
        }
    }
    assert forall|i: int| 0 <= i < s.len() implies (#[trigger] s[i]).from <= s[i].to
        && utf8::is_boundary(t, s[i].from) && utf8::is_boundary(t, s[i].to) by {
        if i < a.len() {
            assert(s[i] == a[i]);
        } else {
            assert(s[i] == b[i - a.len()]);
        }
    }
}

/// The start of each line is between two characters.
pub proof fn lemma_line_starts_are_boundaries(t: Seq<char>, rank: int)
    requires
        0 <= rank < text::split(t, '\n').len(),
    ensures
        utf8::is_boundary(t, line_start(text::split(t, '\n'), rank)),
    decreases t.len(),
{
    let lines = text::split(t, '\n');
    if rank == 0 {
        assert(t.take(0) == Seq::<char>::empty());
        assert(utf8::byte_len(t.take(0)) == 0);
    } else {
        // A text with two lines is not empty.
        let front = t.drop_last();
        let before = text::split(front, '\n');
        lemma_lines_fill_the_text(front);
        if t.last() == '\n' && rank == before.len() {
            lemma_line_start_same(before, lines, rank);
            assert(t.take(t.len() as int) == t);
            assert(utf8::byte_len(t.take(t.len() as int)) == line_start(lines, rank));
        } else {
            lemma_line_starts_are_boundaries(front, rank);
            lemma_line_start_same(before, lines, rank);
            let k = choose|k: int|
                0 <= k <= front.len() && #[trigger] utf8::byte_len(front.take(k)) == line_start(
                    before,
                    rank,
                );
            assert(front.take(k) == t.take(k));
            assert(utf8::byte_len(t.take(k)) == line_start(lines, rank));
        }
    }
}

proof fn lemma_sections_cover(document: Document, t: Seq<char>, n: nat)
    requires
        n <= text::split(t, '\n').len(),
    ensures
        ({
            let lines = text::split(t, '\n');
            covers(
                t,
                sections_of(document, t, n),
                0,
                lower(line_start(lines, n as int), utf8::byte_len(t) as int),
            )
        }),
    decreases n,
{
    let lines = text::split(t, '\n');
    let size = utf8::byte_len(t) as int;
    lemma_lines_fill_the_text(t);
    if n > 0 {
        let start = line_start(lines, n - 1);
        let end = start + utf8::byte_len(lines[n - 1]);
        lemma_line_start_grows(lines, n as int, lines.len() as int);
        lemma_sections_cover(document, t, (n - 1) as nat);
        lemma_line_starts_are_boundaries(t, n - 1);
        let bullet = document.bullet(n - 1);
        lemma_span_sections(t, document.spans@, document.spans@.len(), start, end, bullet);
        let (done, cut) = span_sections(
            t,
            document.spans@,
            document.spans@.len(),
            start,
            end,
            bullet,
        );
        let tail = lower(end + 1, size);
        if n < lines.len() {
            lemma_line_starts_are_boundaries(t, n as int);
        } else {
            assert(t.take(t.len() as int) == t);
            assert(utf8::byte_len(t.take(t.len() as int)) == size);
        }
        assert(utf8::is_boundary(t, tail));
        let rest = Placed { from: cut, to: tail, span: None, indent: bullet && done.len() == 0 };
        assert(covers(t, seq![rest], cut, tail));
        lemma_covers_sum(t, done, seq![rest], start, cut, tail);
        assert(done.push(rest) == done + seq![rest]);
        lemma_covers_sum(
            t,
            sections_of(document, t, (n - 1) as nat),
            done.push(rest),
            0,
            start,
            tail,
        );
    }
}

/// The sections cover the text they were given exactly: from its start to its end, one behind the
/// other, and never in the middle of a character, whatever the spans of the document are.
pub proof fn sections_cover_the_text(document: Document, t: Seq<char>)
    ensures
        covers(t, all_sections(document, t), 0, utf8::byte_len(t) as int),
{
    lemma_lines_fill_the_text(t);
    lemma_sections_cover(document, t, text::split(t, '\n').len());
}

/// A bullet line is indented once, by its first section, and a paragraph never.
pub proof fn a_bullet_line_is_indented_once(
    t: Seq<char>,
    spans: Seq<Span>,
    start: int,
    end: int,
    bullet: bool,
)
    requires
        0 <= start <= end <= utf8::byte_len(t),
        utf8::is_boundary(t, start),
    ensures
        line_sections(t, spans, start, end, bullet).len() > 0,
        forall|i: int|
            0 <= i < line_sections(t, spans, start, end, bullet).len() ==> (
            #[trigger] line_sections(t, spans, start, end, bullet)[i]).indent == (bullet && i == 0),
{
    lemma_span_sections(t, spans, spans.len(), start, end, bullet);
}

/// The sections of one line of the text that the field shows.
fn sections_of_line(
    spans: &Vec<Span>,
    shown: &str,
    offsets: &Vec<usize>,
    size: usize,
    start: usize,
    end: usize,
    bullet: bool,
) -> (r: Vec<Section>)
    requires
        size == utf8::byte_len(shown@),
        start <= end <= size,
        offsets.len() == shown@.len() + 1,
        forall|k: int|
            0 <= k <= shown@.len() ==> #[trigger] offsets@[k] == utf8::byte_len(shown@.take(k)),
        forall|i: int|
            0 <= i < spans@.len() ==> (#[trigger] spans@[i]).at + spans@[i].len <= usize::MAX,
    ensures
        places(r@) == line_sections(shown@, spans@, start as int, end as int, bullet),
{
    let ghost t = shown@;
    let mut out: Vec<Section> = Vec::new();
    let mut indent = bullet;
    let mut cut: usize = start;
    let mut k: usize = 0;
    while k < spans.len()
        invariant
            k <= spans.len(),
            t == shown@,
            size == utf8::byte_len(t),
            start <= cut <= end <= size,
            offsets.len() == t.len() + 1,
            forall|i: int|
                0 <= i <= t.len() ==> #[trigger] offsets@[i] == utf8::byte_len(t.take(i)),
            forall|i: int|
                0 <= i < spans@.len() ==> (#[trigger] spans@[i]).at + spans@[i].len <= usize::MAX,
            (places(out@), cut as int) == span_sections(
                t,
                spans@,
                k as nat,
                start as int,
                end as int,
                bullet,
            ),
            indent == (bullet && out@.len() == 0),
        decreases spans.len() - k,
    {
        let span = &spans[k];
        let from: usize = if span.at >= cut {
            span.at
        } else {
            cut
        };
        let stop: usize = span.at + span.len;
        let to: usize = if stop <= end {
            stop
        } else {
            end
        };
        if from < to && to <= size && utf8::boundary(shown, offsets, from) && utf8::boundary(
            shown,
            offsets,
            to,
        ) {
            let ghost done = out@;
            let plain = Section { from: cut, to: from, span: None, indent };
            let styled = Section { from, to, span: Some(k), indent: false };
            out.push(plain);
            out.push(styled);
            assert(places(out@) == places(done).push(place(plain)).push(place(styled)));
            indent = false;
            cut = to;
        }
        k = k + 1;
    }
    let tail: usize = if end < size {
        end + 1
    } else {
        size
    };
    let ghost done = out@;
    let rest = Section { from: cut, to: tail, span: None, indent };
    out.push(rest);
    assert(places(out@) == places(done).push(place(rest)));
    out
}

/// Cuts the text that the field shows into the sections that are drawn.
pub fn sections(document: &Document, shown: &str) -> (r: Vec<Section>)
    requires
        forall|i: int|
            0 <= i < document.spans@.len() ==> (#[trigger] document.spans@[i]).at
                + document.spans@[i].len <= usize::MAX,
    ensures
        places(r@) == all_sections(*document, shown@),
{
    let lines = text::split_at(shown, '\n');
    let offsets = utf8::offsets(shown);
    let size: usize = utf8::len_of(shown);
    let ghost t = shown@;
    let ghost parts = text::split(t, '\n');
    let mut out: Vec<Section> = Vec::new();
    let mut start: usize = 0;
    let mut rank: usize = 0;
    proof {
        lemma_lines_fill_the_text(t);
    }
    while rank < lines.len()
        invariant
            rank <= lines.len(),
            t == shown@,
            parts == text::split(t, '\n'),
            text::texts(lines@) == parts,
            size == utf8::byte_len(t),
            line_start(parts, parts.len() as int) == size + 1,
            rank < lines.len() ==> start == line_start(parts, rank as int),
            offsets.len() == t.len() + 1,
            forall|k: int| 0 <= k <= t.len() ==> #[trigger] offsets@[k] == utf8::byte_len(t.take(k)),
            forall|i: int|
                0 <= i < document.spans@.len() ==> (#[trigger] document.spans@[i]).at
                    + document.spans@[i].len <= usize::MAX,
            places(out@) == sections_of(*document, t, rank as nat),
        decreases lines.len() - rank,
    {
        let line_len: usize = utf8::len_of(lines[rank].as_str());
        proof {
            assert(lines@[rank as int]@ == parts[rank as int]);
            lemma_line_start_grows(parts, rank + 1, parts.len() as int);
        }
        let end: usize = start + line_len;
        let mut line = sections_of_line(
            &document.spans,
            shown,
            &offsets,
            size,
            start,
            end,
            document.is_bullet(rank),
        );
        let ghost before = out@;
        let ghost added = line@;
        out.append(&mut line);
        assert(places(out@) == places(before) + places(added));
        if end < size {
            start = end + 1;
        }
        rank = rank + 1;
        proof {
            if rank < lines.len() {
                lemma_line_start_grows(parts, rank + 1, parts.len() as int);
            }
        }
    }
    out
}

// ---------------------------------------------------------------------------------------------
// The buttons
// ---------------------------------------------------------------------------------------------

/// Which style of character a button switches.
#[derive(Debug, Clone, Copy, PartialEq, Eq, Structural)]
pub enum Toggle {
    Bold,
    Italic,
}

/// What the user asked for while the editor was drawn.
#[derive(Debug, Clone, Copy, PartialEq, Eq, Structural)]
pub enum Outcome {
    /// Nothing decisive: they are writing.
    Idle,
    /// Save, and close.
    Save,
    /// Close without saving.
    Cancel,
}

/// A stretch of the selection in one style, as the document hands it out.
#[derive(Debug)]
pub struct Fragment {
    pub text: String,
    pub style: Style,
}

/// A style to put on a stretch of the document.
#[derive(Debug)]
pub struct Piece {
    /// Where it starts, in bytes.
    pub from: usize,
    /// Where it ends, in bytes.
    pub to: usize,
    pub style: Style,
}

/// Whether a style carries what a button switches.
pub open spec fn carries(style: Style, what: Toggle) -> bool {
    match what {
        Toggle::Bold => style.bold,
        Toggle::Italic => style.italic,
    }
}

/// A style in which one bit has a given value, and the rest is kept.
pub open spec fn with(style: Style, what: Toggle, value: bool) -> Style {
    match what {
        Toggle::Bold => Style { bold: value, ..style },
        Toggle::Italic => Style { italic: value, ..style },
    }
}

/// Whether a selection holds something and carries a style throughout.
pub open spec fn all_carry(pieces: Seq<Piece>, what: Toggle) -> bool {
    pieces.len() > 0 && forall|i: int|
        0 <= i < pieces.len() ==> carries((#[trigger] pieces[i]).style, what)
}

/// Where a fragment of the selection starts, in bytes.
pub open spec fn fragment_start(from: int, fragments: Seq<Fragment>, i: int) -> int
    decreases i,
{
    if i <= 0 {
        from
    } else {
        fragment_start(from, fragments, i - 1) + utf8::byte_len(fragments[i - 1].text@)
    }
}

proof fn lemma_fragments_grow(from: int, fragments: Seq<Fragment>, i: int, j: int)
    requires
        0 <= i <= j <= fragments.len(),
    ensures
        fragment_start(from, fragments, i) <= fragment_start(from, fragments, j),
    decreases j - i,
{
    if i < j {
        lemma_fragments_grow(from, fragments, i, j - 1);
    }
}

/// The homogeneous stretches of the selection, with their bounds in bytes: one behind the other
/// from the start of the selection on, and none where nothing is selected.
pub fn selected_fragments(selection: Option<(usize, usize)>, fragments: Vec<Fragment>) -> (r: Vec<
    Piece,
>)
    requires
        selection matches Some(s) ==> fragment_start(
            s.0 as int,
            fragments@,
            fragments@.len() as int,
        ) <= usize::MAX,
    ensures
        selection is None ==> r.len() == 0,
        selection matches Some(s) ==> {
            &&& r.len() == fragments.len()
            &&& forall|i: int|
                0 <= i < r.len() ==> {
                    &&& (#[trigger] r@[i]).from == fragment_start(s.0 as int, fragments@, i)
                    &&& r@[i].to == fragment_start(s.0 as int, fragments@, i + 1)
                    &&& r@[i].style == fragments@[i].style
                }
        },
{
    let mut out: Vec<Piece> = Vec::new();
    let (from, _) = match selection {
        Some(s) => s,
        None => {
            return out;
        },
    };
    let ghost all = fragments@;
    let mut at: usize = from;
    for fragment in it: fragments
        invariant
            it.seq() == all,
            fragment_start(from as int, all, all.len() as int) <= usize::MAX,
            at == fragment_start(from as int, all, it.index() as int),
            out.len() == it.index(),
            forall|i: int|
                0 <= i < out.len() ==> {
                    &&& (#[trigger] out@[i]).from == fragment_start(from as int, all, i)
                    &&& out@[i].to == fragment_start(from as int, all, i + 1)
                    &&& out@[i].style == all[i].style
                },
    {
        let start: usize = at;
        proof {
            lemma_fragments_grow(from as int, all, it.index() + 1, all.len() as int);
        }
        at = at + utf8::len_of(fragment.text.as_str());
        out.push(Piece { from: start, to: at, style: fragment.style });
    }
    out
}

/// Switches a style of character on the selection. The sense is decided once: where everything
/// carries the style, it is taken away; otherwise it is put everywhere. Each stretch keeps the
/// rest of its own style.
pub fn toggle(pieces: Vec<Piece>, what: Toggle) -> (r: Vec<Piece>)
    ensures
        r.len() == pieces.len(),
        forall|i: int|
            0 <= i < r.len() ==> #[trigger] r@[i] == (Piece {
                style: with(pieces@[i].style, what, !all_carry(pieces@, what)),
                ..pieces@[i]
            }),
{
    let ghost all_pieces = pieces@;
    let mut all = pieces.len() > 0;
    let mut i: usize = 0;
    while i < pieces.len()
        invariant
            i <= pieces.len(),
            pieces@ == all_pieces,
            all == (pieces.len() > 0 && forall|k: int|
                0 <= k < i ==> carries((#[trigger] pieces@[k]).style, what)),
        decreases pieces.len() - i,
    {
        let carried = match what {
            Toggle::Bold => pieces[i].style.bold,
            Toggle::Italic => pieces[i].style.italic,
        };
        if !carried {
            all = false;
        }
        i = i + 1;
    }
    let mut out: Vec<Piece> = Vec::new();
    for piece in it: pieces
        invariant
            it.seq() == all_pieces,
            all == all_carry(all_pieces, what),
            out.len() == it.index(),
            forall|k: int|
                0 <= k < out.len() ==> #[trigger] out@[k] == (Piece {
                    style: with(all_pieces[k].style, what, !all),
                    ..all_pieces[k]
                }),
    {
        let style = match what {
            Toggle::Bold => Style {
                bold: !all,
                italic: piece.style.italic,
                link: piece.style.link,
            },
            Toggle::Italic => Style {
                bold: piece.style.bold,
                italic: !all,
                link: piece.style.link,
            },
        };
        out.push(Piece { from: piece.from, to: piece.to, style });
    }
    out
}

/// Puts a link on the selection, or takes it away, and keeps the rest of each style.
pub fn set_link(pieces: Vec<Piece>, target: &Option<String>) -> (r: Vec<Piece>)
    ensures
        r.len() == pieces.len(),
        forall|i: int|
            0 <= i < r.len() ==> #[trigger] r@[i] == (Piece {
                style: Style { link: *target, ..pieces@[i].style },
                ..pieces@[i]
            }),
{
    let ghost all = pieces@;
    let mut out: Vec<Piece> = Vec::new();
    for piece in it: pieces
        invariant
            it.seq() == all,
            out.len() == it.index(),
            forall|k: int|
                0 <= k < out.len() ==> #[trigger] out@[k] == (Piece {
                    style: Style { link: *target, ..all[k].style },
                    ..all[k]
                }),
    {
        let style = Style {
            bold: piece.style.bold,
            italic: piece.style.italic,
            link: text::copy_opt(target),
        };
        out.push(Piece { from: piece.from, to: piece.to, style });
    }
    out
}

/// A button pressed twice on a selection in one style leaves it as it was.
pub proof fn toggling_twice_restores_a_uniform_selection(
    before: Seq<Piece>,
    once: Seq<Piece>,
    twice: Seq<Piece>,
    what: Toggle,
)
    requires
        forall|i: int, j: int|
            0 <= i < before.len() && 0 <= j < before.len() ==> carries(
                (#[trigger] before[i]).style,
                what,
            ) == carries((#[trigger] before[j]).style, what),
        once.len() == before.len(),
        forall|i: int|
            0 <= i < once.len() ==> #[trigger] once[i] == (Piece {
                style: with(before[i].style, what, !all_carry(before, what)),
                ..before[i]
            }),
        twice.len() == once.len(),
        forall|i: int|
            0 <= i < twice.len() ==> #[trigger] twice[i] == (Piece {
                style: with(once[i].style, what, !all_carry(once, what)),
                ..once[i]
            }),
    ensures
        twice == before,
{
    if before.len() > 0 {
        let first = carries(before[0].style, what);
        assert(all_carry(before, what) == first) by {
            assert forall|i: int| first && 0 <= i < before.len() implies carries(
                (#[trigger] before[i]).style,
                what,
            ) by {
                assert(carries(before[0].style, what) == carries(before[i].style, what));
            }
        }
        assert(carries(once[0].style, what) == !first);
        assert(all_carry(once, what) == !first) by {
            assert forall|i: int| 0 <= i < once.len() implies carries(
                (#[trigger] once[i]).style,
                what,
            ) == !first by {
                assert(once[i].style == with(before[i].style, what, !first));
            }
        }
        assert forall|i: int| 0 <= i < twice.len() implies twice[i] == before[i] by {
            assert(once[i].style == with(before[i].style, what, !first));
            assert(carries(before[0].style, what) == carries(before[i].style, what));
        }
    }
    assert(twice =~= before);
}

/// Whether all the lines of a range are bullets.
pub open spec fn all_bullets(document: Document, first: int, last: int) -> bool {
    forall|line: int| first <= line <= last ==> #[trigger] document.bullet(line)
}

/// The lines of a range whose nature changes, from the first one on, where the button makes
/// paragraphs (`all`) or bullets.
pub open spec fn changed_lines(document: Document, first: int, last: int, all: bool) -> Seq<int>
    decreases last - first + 1,
{
    if first > last {
        Seq::empty()
    } else {
        let before = changed_lines(document, first, last - 1, all);
        if document.bullet(last) == all {
            before.push(last)
        } else {
            before
        }
    }
}

/// The lines of a list, in numbers.
pub open spec fn numbers(v: Seq<usize>) -> Seq<int> {
    Seq::new(v.len(), |i: int| v[i] as int)
}

/// The lines whose nature the bullet button changes, where the selection touches the lines from
/// `first` to `last`. The sense is decided once: where all are bullets, they become paragraphs.
pub fn toggle_bullets(document: &Document, first: usize, last: usize) -> (r: Vec<usize>)
    requires
        first <= last < usize::MAX,
    ensures
        numbers(r@) == changed_lines(
            *document,
            first as int,
            last as int,
            all_bullets(*document, first as int, last as int),
        ),
{
    let mut all = true;
    let mut line: usize = first;
    while line <= last
        invariant
            first <= line <= last + 1,
            last < usize::MAX,
            all == (forall|k: int| first <= k < line ==> #[trigger] document.bullet(k)),
        decreases last + 1 - line,
    {
        if !document.is_bullet(line) {
            all = false;
        }
        line = line + 1;
    }
    assert(all == all_bullets(*document, first as int, last as int));
    let mut out: Vec<usize> = Vec::new();
    line = first;
    while line <= last
        invariant
            first <= line <= last + 1,
            last < usize::MAX,
            numbers(out@) == changed_lines(*document, first as int, line - 1, all),
        decreases last + 1 - line,
    {
        let ghost before = out@;
        if document.is_bullet(line) == all {
            out.push(line);
            assert(numbers(out@) == numbers(before).push(line as int));
        }
        line = line + 1;
    }
    out
}

pub proof fn lemma_changed_lines(document: Document, first: int, last: int, all: bool)
    ensures
        forall|line: int| #[trigger]
            changed_lines(document, first, last, all).contains(line) <==> (first <= line <= last
                && document.bullet(line) == all),
    decreases last - first + 1,
{
    if first <= last {
        lemma_changed_lines(document, first, last - 1, all);
        let before = changed_lines(document, first, last - 1, all);
        let now = changed_lines(document, first, last, all);
        assert forall|line: int| #[trigger] now.contains(line) <==> (first <= line <= last
            && document.bullet(line) == all) by {
            assert(before.contains(line) <==> (first <= line <= last - 1 && document.bullet(line)
                == all));
            if document.bullet(last) == all {
                if line == last {
                    assert(now[now.len() - 1] == last);
                } else if before.contains(line) {
                    let k = choose|k: int| 0 <= k < before.len() && before[k] == line;
                    assert(now[k] == line);
                } else if now.contains(line) {
                    let k = choose|k: int| 0 <= k < now.len() && now[k] == line;
                    assert(k < before.len());
                    assert(before[k] == line);
                }
            }
        }
    } else {
        assert forall|line: int| !(#[trigger] changed_lines(document, first, last, all).contains(
            line,
        )) by {}
    }
}

/// Once the changed lines have changed, every line of the range has the same nature: paragraph
/// where all were bullets, bullet otherwise.
pub proof fn the_bullet_button_makes_the_range_uniform(
    document: Document,
    first: int,
    last: int,
    line: int,
)
    requires
        first <= line <= last,
    ensures
        ({
            let all = all_bullets(document, first, last);
            let changed = changed_lines(document, first, last, all);
            let now = if changed.contains(line) {
                !document.bullet(line)
            } else {
                document.bullet(line)
            };
            now == !all
        }),
{
    lemma_changed_lines(document, first, last, all_bullets(document, first, last));
}

// ---------------------------------------------------------------------------------------------
// The editor
// ---------------------------------------------------------------------------------------------

/// The editor, open on the signature of an account.
#[derive(Debug)]
pub struct Editor {
    /// The account whose signature it is.
    pub account: i64,
    /// True while the saving is under way.
    pub saving: bool,
    pub document: Document,
    /// What the text field edits.
    pub buffer: String,
    /// The selection, in bytes, as the last frame saw it.
    pub selection: Option<(usize, usize)>,
    /// The target of the next link, as typed.
    pub target: String,
}

/// Which buttons of the editor can be pressed.
#[derive(Debug, Clone, Copy, PartialEq, Eq, Structural)]
pub struct Toolbar {
    /// Bold, italic, and taking a link away: they need a selection.
    pub styles: bool,
    /// Putting a link: it needs a selection, and a target that a message may carry.
    pub link: bool,
    /// The target is refused, and the editor says why.
    pub refused: bool,
    pub save: bool,
}

/// Whether a document was pasted in place of what an editor held.
pub open spec fn pasted(pre: Editor, document: Document, post: Editor) -> bool {
    &&& post == (Editor { document, buffer: post.buffer, selection: None, ..pre })
    &&& post.buffer@ == document.text@
}

/// Whether a character was typed in the middle of the buffer of an editor.
pub open spec fn typed(pre: Editor, glyph: char, post: Editor) -> bool {
    &&& post == (Editor { buffer: post.buffer, ..pre })
    &&& post.buffer@ == pre.buffer@.insert(utf8::middle(pre.buffer@), glyph)
}

impl Editor {
    /// Opens the editor on the signature of an account, or on a blank page.
    pub fn new(account: i64, signature: Option<Document>) -> (r: Editor)
        ensures
            r.account == account,
            !r.saving,
            signature matches Some(d) ==> r.document == d,
            signature is None ==> r.document.text@.len() == 0 && r.document.spans@.len() == 0
                && r.document.blocks@.len() == 0,
            r.buffer@ == r.document.text@,
            r.selection is None,
            r.target@.len() == 0,
    {
        let document = match signature {
            Some(d) => d,
            None => Document::empty(),
        };
        Editor {
            account,
            saving: false,
            buffer: document.text.clone(),
            document,
            selection: None,
            target: String::new(),
        }
    }

    /// Whether the selection holds at least one byte.
    pub open spec fn has_selection(self) -> bool {
        self.selection matches Some(s) && s.0 < s.1
    }

    /// Whether the selection holds at least one character.
    pub fn selected(&self) -> (r: bool)
        ensures
            r == self.has_selection(),
    {
        match self.selection {
            Some((from, to)) => from < to,
            None => false,
        }
    }

    /// How many characters the document has.
    pub fn glyphs(&self) -> (r: usize)
        ensures
            r == self.document.text@.len(),
    {
        self.document.text.as_str().unicode_len()
    }

    /// How many styled stretches the document has.
    pub fn styles(&self) -> (r: usize)
        ensures
            r == self.document.spans@.len(),
    {
        self.document.spans.len()
    }

    /// Takes note of where the field says that the selection is. The field counts characters,
    /// and gives the two ends in any order.
    pub fn select(&mut self, range: Option<(usize, usize)>)
        ensures
            *final(self) == (Editor { selection: final(self).selection, ..*old(self) }),
            range is None ==> final(self).selection is None,
            range matches Some(r) ==> final(self).selection == Some(
                (
                    utf8::byte_offset(
                        old(self).buffer@,
                        lower(r.0 as int, r.1 as int),
                    ) as usize,
                    utf8::byte_offset(old(self).buffer@, higher(r.0 as int, r.1 as int)) as usize,
                ),
            ),
    {
        self.selection = match range {
            Some((a, b)) => {
                let (from, to) = if a <= b {
                    (a, b)
                } else {
                    (b, a)
                };
                Some(
                    (
                        utf8::byte_of(self.buffer.as_str(), from),
                        utf8::byte_of(self.buffer.as_str(), to),
                    ),
                )
            },
            None => None,
        };
    }

    /// Which buttons can be pressed, where `may_leave` says whether the target of the next link
    /// is one that a message may carry.
    pub fn toolbar(&self, may_leave: bool) -> (r: Toolbar)
        ensures
            r == (Toolbar {
                styles: self.has_selection(),
                link: self.has_selection() && may_leave,
                refused: text::trimmed(self.target@).len() > 0 && !may_leave,
                save: !self.saving,
            }),
    {
        let selected = self.selected();
        Toolbar {
            styles: selected,
            link: selected && may_leave,
            refused: text::trim(self.target.as_str()).as_str().unicode_len() > 0 && !may_leave,
            save: !self.saving,
        }
    }

    /// What was decided: cancelling goes before saving.
    pub fn outcome(save: bool, cancel: bool) -> (r: Outcome)
        ensures
            r == if cancel {
                Outcome::Cancel
            } else if save {
                Outcome::Save
            } else {
                Outcome::Idle
            },
    {
        if cancel {
            Outcome::Cancel
        } else if save {
            Outcome::Save
        } else {
            Outcome::Idle
        }
    }

    /// Replaces the content by a pasted document.
    pub fn paste(&mut self, document: Document)
        ensures
            pasted(*old(self), document, *final(self)),
    {
        self.buffer = document.text.clone();
        self.document = document;
        self.selection = None;
    }

    /// Puts a character in the middle of the buffer, between two characters, as typing would.
    pub fn type_in_the_middle(&mut self, glyph: char)
        ensures
            typed(*old(self), glyph, *final(self)),
    {
        let size: usize = utf8::len_of(self.buffer.as_str());
        let v = text::chars_of(self.buffer.as_str());
        let at: usize = utf8::fit(&v, size / 2);
        let n: usize = v.len();
        let mut out = text::text_of(&v, 0, at);
        out.push(glyph);
        out.append(text::text_of(&v, at, n).as_str());
        assert(out@ == v@.insert(at as int, glyph));
        self.buffer = out;
    }
}

// ---------------------------------------------------------------------------------------------
// The document that is measured
// ---------------------------------------------------------------------------------------------

/// Which style a measured stretch carries.
#[derive(Debug, Clone, Copy, PartialEq, Eq, Structural)]
pub enum Mark {
    Bold,
    Italic,
    Link,
}

/// Whether a span puts a mark on the bytes from `at` on.
pub open spec fn is_mark(span: Span, at: int, len: int, mark: Mark) -> bool {
    &&& span.at == at
    &&& span.len == len
    &&& span.style.bold == (mark == Mark::Bold)
    &&& span.style.italic == (mark == Mark::Italic)
    &&& text::opt_text(span.style.link) == if mark == Mark::Link {
        Some("https://exemple.fr/une/page/assez/longue"@)
    } else {
        None
    }
}

/// The text of a measured line.
pub open spec fn bench_line(line: int) -> Seq<char> {
    if line % 5 == 0 {
        "Cordialement, "@
    } else if line % 5 == 1 {
        "Éloïse Durand"@ + " — "@ + "directrice technique"@
    } else if line % 5 == 2 {
        "un élément de liste avec un peu de texte courant"@
    } else if line % 5 == 3 {
        "https://exemple.fr/une/page"@
    } else {
        "Une ligne de texte courant, assez longue pour que la mise en page ait quelque chose à faire dessus."@
    }
}

/// The text of the first `n` of the measured lines, with a line feed between two of them.
pub open spec fn bench_text(lines: int, n: int) -> Seq<char>
    decreases n,
{
    if n <= 0 {
        Seq::empty()
    } else {
        let line = bench_text(lines, n - 1) + bench_line(n - 1);
        if n < lines {
            line + "\n"@
        } else {
            line
        }
    }
}

/// The marks of the first `n` of the measured lines: where each starts, its length, its kind.
pub open spec fn bench_marks(lines: int, n: int) -> Seq<(int, int, Mark)>
    decreases n,
{
    if n <= 0 {
        Seq::empty()
    } else {
        let before = bench_marks(lines, n - 1);
        let at = utf8::byte_len(bench_text(lines, n - 1)) as int;
        let name = utf8::byte_len("Éloïse Durand"@) as int;
        let title = utf8::byte_len("directrice technique"@) as int;
        if (n - 1) % 5 == 1 {
            before.push((at, name, Mark::Bold)).push(
                (
                    utf8::byte_len(bench_text(lines, n - 1) + "Éloïse Durand"@ + " — "@) as int,
                    title,
                    Mark::Italic,
                ),
            )
        } else if (n - 1) % 5 == 3 {
            before.push((at, utf8::byte_len("https://exemple.fr/une/page"@) as int, Mark::Link))
        } else {
            before
        }
    }
}

/// Whether spans put the given marks, in order.
pub open spec fn carry_marks(spans: Seq<Span>, marks: Seq<(int, int, Mark)>) -> bool {
    &&& spans.len() == marks.len()
    &&& forall|i: int|
        0 <= i < spans.len() ==> is_mark(#[trigger] spans[i], marks[i].0, marks[i].1, marks[i].2)
}

/// Whether an editor is on the document that is measured.
pub open spec fn is_measured(editor: Editor, lines: usize) -> bool {
    &&& editor.account == 0
    &&& !editor.saving
    &&& editor.selection is None
    &&& editor.target@.len() == 0
    &&& editor.document.text@ == bench_text(lines as int, lines as int)
    &&& editor.buffer@ == editor.document.text@
    &&& carry_marks(editor.document.spans@, bench_marks(lines as int, lines as int))
    &&& editor.document.blocks@ == Seq::new(
        lines as nat,
        |i: int|
            if i % 5 == 2 {
                Block::Bullet
            } else {
                Block::Paragraph
            },
    )
}

/// Puts a marked fragment at the end of a document.
fn push_marked(document: &mut Document, fragment: &str, mark: Mark)
    ensures
        final(document).text@ == old(document).text@ + fragment@,
        final(document).blocks@ == old(document).blocks@,
        final(document).spans@.len() == old(document).spans@.len() + 1,
        forall|i: int|
            0 <= i < old(document).spans@.len() ==> final(document).spans@[i]
                == old(document).spans@[i],
        is_mark(
            final(document).spans@.last(),
            utf8::byte_len(old(document).text@) as int,
            utf8::byte_len(fragment@) as int,
            mark,
        ),
{
    let at: usize = utf8::len_of(document.text.as_str());
    let len: usize = utf8::len_of(fragment);
    let link = match mark {
        Mark::Link => Some("https://exemple.fr/une/page/assez/longue".to_owned()),
        _ => None,
    };
    let style = Style {
        bold: match mark {
            Mark::Bold => true,
            _ => false,
        },
        italic: match mark {
            Mark::Italic => true,
            _ => false,
        },
        link,
    };
    document.spans.push(Span { at, len, style });
    document.text.append(fragment);
}

impl Editor {
    /// An editor on a document to be measured: `lines` lines in which the four styles meet, of
    /// the shape that a real rich signature has.
    pub fn for_bench(lines: usize) -> (r: Editor)
        ensures
            is_measured(r, lines),
    {
        let mut document = Document::empty();
        let mut line: usize = 0;
        while line < lines
            invariant
                line <= lines,
                document.text@ == bench_text(lines as int, line as int),
                carry_marks(document.spans@, bench_marks(lines as int, line as int)),
                document.blocks@ == Seq::new(
                    line as nat,
                    |i: int|
                        if i % 5 == 2 {
                            Block::Bullet
                        } else {
                            Block::Paragraph
                        },
                ),
            decreases lines - line,
        {
            let ghost before = document.text@;
            let kind: usize = line % 5;
            if kind == 0 {
                document.text.append("Cordialement, ");
            } else if kind == 1 {
                push_marked(&mut document, "Éloïse Durand", Mark::Bold);
                document.text.append(" — ");
                push_marked(&mut document, "directrice technique", Mark::Italic);
                assert(document.text@ == before + bench_line(line as int));
            } else if kind == 2 {
                document.text.append("un élément de liste avec un peu de texte courant");
            } else if kind == 3 {
                push_marked(&mut document, "https://exemple.fr/une/page", Mark::Link);
            } else {
                document.text.append(
                    "Une ligne de texte courant, assez longue pour que la mise en page ait quelque chose à faire dessus.",
                );
            }
            document.blocks.push(
                if kind == 2 {
                    Block::Bullet
                } else {
                    Block::Paragraph
                },
            );
            if line + 1 < lines {
                document.text.append("\n");
            }
            line = line + 1;
        }
        Editor::new(0, Some(document))
    }
}

// ---------------------------------------------------------------------------------------------
// The preview
// ---------------------------------------------------------------------------------------------

/// A line of the preview of a signature.
#[derive(Debug, Clone, Copy, PartialEq, Eq)]
pub struct PreviewLine {
    /// Where the line starts, in bytes.
    pub from: usize,
    /// Where it ends, in bytes, its line feed left out.
    pub to: usize,
    /// Whether a bullet is written before it.
    pub bullet: bool,
    /// Whether it is empty, and shown as a blank.
    pub blank: bool,
}

/// The lines of the preview of a signature, as it will leave.
pub fn preview(document: &Document) -> (r: Vec<PreviewLine>)
    ensures
        ({
            let lines = text::split(document.text@, '\n');
            &&& r.len() == lines.len()
            &&& forall|i: int|
                0 <= i < r.len() ==> {
                    &&& (#[trigger] r@[i]).from == line_start(lines, i)
                    &&& r@[i].to == line_start(lines, i) + utf8::byte_len(lines[i])
                    &&& r@[i].bullet == document.bullet(i)
                    &&& r@[i].blank == (lines[i].len() == 0)
                }
        }),
{
    let lines = text::split_at(document.text.as_str(), '\n');
    let size: usize = utf8::len_of(document.text.as_str());
    let ghost t = document.text@;
    let ghost parts = text::split(t, '\n');
    let mut out: Vec<PreviewLine> = Vec::new();
    let mut start: usize = 0;
    let mut rank: usize = 0;
    proof {
        lemma_lines_fill_the_text(t);
    }
    while rank < lines.len()
        invariant
            rank <= lines.len(),
            t == document.text@,
            parts == text::split(t, '\n'),
            text::texts(lines@) == parts,
            size == utf8::byte_len(t),
            line_start(parts, parts.len() as int) == size + 1,
            rank < lines.len() ==> start == line_start(parts, rank as int),
            out.len() == rank,
            forall|i: int|
                0 <= i < out.len() ==> {
                    &&& (#[trigger] out@[i]).from == line_start(parts, i)
                    &&& out@[i].to == line_start(parts, i) + utf8::byte_len(parts[i])
                    &&& out@[i].bullet == document.bullet(i)
                    &&& out@[i].blank == (parts[i].len() == 0)
                },
        decreases lines.len() - rank,
    {
        let line = lines[rank].as_str();
        proof {
            assert(lines@[rank as int]@ == parts[rank as int]);
            lemma_line_start_grows(parts, rank + 1, parts.len() as int);
        }
        let end: usize = start + utf8::len_of(line);
        out.push(
            PreviewLine {
                from: start,
                to: end,
                bullet: document.is_bullet(rank),
                blank: line.unicode_len() == 0,
            },
        );
        rank = rank + 1;
        if rank < lines.len() {
            proof {
                lemma_line_start_grows(parts, rank + 1, parts.len() as int);
            }
            start = end + 1;
        }
    }
    out
}

} // verus!
