//! The signature editor: a style is put where it was asked for and drawn where it was put, and what
//! is not styled stays as it was.
use crate::signature;
use crate::signature::{
    Document, Editor, Fragment, Outcome, Piece, PreviewLine, Section, Span, Toggle, Toolbar,
};
use crate::text;
use crate::utf8;
use vstd::prelude::*;
use vstd::string::*;

verus! {

// ---------------------------------------------------------------------------------------------
// The buttons
// ---------------------------------------------------------------------------------------------

/// The button for bold makes the whole selection bold, unless all of it is, and then nothing of it;
/// each stretch keeps its place, its slant and its link.
pub proof fn the_bold_button_decides_once(pieces: Vec<Piece>, r: Vec<Piece>)
    requires
        call_ensures(signature::toggle, (pieces, Toggle::Bold), r),
    ensures
        r@.len() == pieces@.len(),
        forall|i: int|
            0 <= i < r@.len() ==> {
                let was = pieces@[i];
                let is = #[trigger] r@[i];
                &&& is.from == was.from && is.to == was.to
                &&& is.style.italic == was.style.italic
                &&& text::opt_text(is.style.link) == text::opt_text(was.style.link)
            },
        (exists|i: int| 0 <= i < pieces@.len() && !(#[trigger] pieces@[i]).style.bold)
            ==> forall|i: int| 0 <= i < r@.len() ==> (#[trigger] r@[i]).style.bold,
        (forall|i: int| 0 <= i < pieces@.len() ==> (#[trigger] pieces@[i]).style.bold)
            ==> forall|i: int| 0 <= i < r@.len() ==> !(#[trigger] r@[i]).style.bold,
{
    if exists|i: int| 0 <= i < pieces@.len() && !(#[trigger] pieces@[i]).style.bold {
        let i = choose|i: int| 0 <= i < pieces@.len() && !(#[trigger] pieces@[i]).style.bold;
        assert(!signature::carries(pieces@[i].style, Toggle::Bold));
    }
}

/// The button for italics makes the whole selection slanted, unless all of it is, and then nothing
/// of it; each stretch keeps its place, its weight and its link.
pub proof fn the_italic_button_decides_once(pieces: Vec<Piece>, r: Vec<Piece>)
    requires
        call_ensures(signature::toggle, (pieces, Toggle::Italic), r),
    ensures
        r@.len() == pieces@.len(),
        forall|i: int|
            0 <= i < r@.len() ==> {
                let was = pieces@[i];
                let is = #[trigger] r@[i];
                &&& is.from == was.from && is.to == was.to
                &&& is.style.bold == was.style.bold
                &&& text::opt_text(is.style.link) == text::opt_text(was.style.link)
            },
        (exists|i: int| 0 <= i < pieces@.len() && !(#[trigger] pieces@[i]).style.italic)
            ==> forall|i: int| 0 <= i < r@.len() ==> (#[trigger] r@[i]).style.italic,
        (forall|i: int| 0 <= i < pieces@.len() ==> (#[trigger] pieces@[i]).style.italic)
            ==> forall|i: int| 0 <= i < r@.len() ==> !(#[trigger] r@[i]).style.italic,
{
    if exists|i: int| 0 <= i < pieces@.len() && !(#[trigger] pieces@[i]).style.italic {
        let i = choose|i: int| 0 <= i < pieces@.len() && !(#[trigger] pieces@[i]).style.italic;
        assert(!signature::carries(pieces@[i].style, Toggle::Italic));
    }
}

/// A link is put on the whole selection, or taken off it, and nothing else of a style changes.
pub proof fn a_link_is_put_on_the_selection(pieces: Vec<Piece>, target: &Option<String>, r: Vec<Piece>)
    requires
        call_ensures(signature::set_link, (pieces, target), r),
    ensures
        r@.len() == pieces@.len(),
        forall|i: int|
            0 <= i < r@.len() ==> {
                let was = pieces@[i];
                let is = #[trigger] r@[i];
                &&& is.from == was.from && is.to == was.to
                &&& is.style.bold == was.style.bold
                &&& is.style.italic == was.style.italic
                &&& text::opt_text(is.style.link) == text::opt_text(*target)
            },
{
}

/// The stretches of a selection lie one behind the other from its start on, each as long as its
/// text and in its own style.
pub proof fn a_selection_is_cut_without_a_gap(
    from: usize,
    to: usize,
    fragments: Vec<Fragment>,
    r: Vec<Piece>,
    nothing: Vec<Piece>,
)
    requires
        call_ensures(signature::selected_fragments, (Some((from, to)), fragments), r),
        call_ensures(signature::selected_fragments, (None, fragments), nothing),
    ensures
        nothing@.len() == 0,
        r@.len() == fragments@.len(),
        r@.len() > 0 ==> r@[0].from == from,
        forall|i: int|
            0 <= i < r@.len() ==> {
                &&& (#[trigger] r@[i]).to == r@[i].from + utf8::byte_len(fragments@[i].text@)
                &&& r@[i].style == fragments@[i].style
            },
        forall|i: int, j: int|
            0 <= i && j == i + 1 && j < r@.len() ==> (#[trigger] r@[j]).from == (
            #[trigger] r@[i]).to,
{
}

/// The bullet button changes lines of the selection alone, and afterwards all of them have one
/// nature: paragraphs where all were bullets, bullets otherwise.
pub proof fn the_bullet_button_decides_once(
    document: &Document,
    first: usize,
    last: usize,
    r: Vec<usize>,
    line: usize,
)
    requires
        call_ensures(signature::toggle_bullets, (document, first, last), r),
        first <= last,
    ensures
        r@.contains(line) ==> first <= line <= last,
        first <= line <= last && (exists|k: int|
            first <= k <= last && !(#[trigger] document.bullet(k))) ==> (r@.contains(line)
            <==> !document.bullet(line as int)),
        first <= line <= last && (forall|k: int|
            first <= k <= last ==> #[trigger] document.bullet(k)) ==> r@.contains(line),
{
    let all = signature::all_bullets(*document, first as int, last as int);
    let changed = signature::changed_lines(*document, first as int, last as int, all);
    signature::lemma_changed_lines(*document, first as int, last as int, all);
    assert(r@.contains(line) <==> changed.contains(line as int)) by {
        if r@.contains(line) {
            let k = choose|k: int| 0 <= k < r@.len() && r@[k] == line;
            assert(signature::numbers(r@)[k] == line);
        }
        if changed.contains(line as int) {
            let k = choose|k: int| 0 <= k < changed.len() && changed[k] == line;
            assert(signature::numbers(r@)[k] == line);
            assert(r@[k] == line);
        }
    }
    if exists|k: int| first <= k <= last && !(#[trigger] document.bullet(k)) {
        let k = choose|k: int| first <= k <= last && !(#[trigger] document.bullet(k));
        assert(!all);
    }
}

/// A style needs a selection, a link a target that may leave besides, and a saving that is under
/// way is not started again; leaving goes before saving.
pub proof fn a_button_can_be_pressed_where_it_does_something(
    editor: &Editor,
    may_leave: bool,
    bar: Toolbar,
    save: bool,
    cancel: bool,
    outcome: Outcome,
)
    requires
        call_ensures(Editor::toolbar, (editor, may_leave), bar),
        call_ensures(Editor::outcome, (save, cancel), outcome),
    ensures
        editor.selection is None ==> !bar.styles && !bar.link,
        editor.selection matches Some(s) ==> bar.styles == (s.0 < s.1),
        bar.link == (bar.styles && may_leave),
        bar.refused ==> !may_leave,
        bar.save == !editor.saving,
        cancel ==> outcome == Outcome::Cancel,
        save && !cancel ==> outcome == Outcome::Save,
        !save && !cancel ==> outcome == Outcome::Idle,
{
}

/// The ends of a selection may come in any order, and it holds the bytes of the characters between
/// them; nothing else of the editor moves.
pub proof fn a_selection_holds_the_characters_between_its_ends(
    it: &mut Editor,
    back: &mut Editor,
    a: usize,
    b: usize,
)
    requires
        call_ensures(Editor::select, (it, Some((a, b))), ()),
        call_ensures(Editor::select, (back, Some((b, a))), ()),
        *old(back) == *old(it),
        a <= b,
        b <= old(it).buffer@.len(),
        utf8::byte_len(old(it).buffer@) <= usize::MAX,
    ensures
        final(it).selection == final(back).selection,
        final(it).selection matches Some(s) && s.0 == utf8::byte_len(
            old(it).buffer@.take(a as int),
        ) && s.1 == utf8::byte_len(old(it).buffer@.take(b as int)),
        final(it).buffer == old(it).buffer,
        final(it).document == old(it).document,
        final(it).account == old(it).account,
{
    let t = old(it).buffer@;
    assert(t.take(t.len() as int) == t);
    utf8::lemma_byte_len_grows(t, a as int, t.len() as int);
    utf8::lemma_byte_len_grows(t, b as int, t.len() as int);
}

/// The editor opens on the signature of the account, and on nothing where it has none.
pub proof fn the_editor_opens_on_the_signature(
    account: i64,
    signature: Document,
    on: Editor,
    blank: Editor,
)
    requires
        call_ensures(Editor::new, (account, Some(signature)), on),
        call_ensures(Editor::new, (account, None), blank),
    ensures
        on.account == account,
        on.document == signature,
        on.buffer@ == signature.text@,
        on.selection is None,
        !on.saving,
        blank.account == account,
        blank.buffer@.len() == 0,
        blank.document.spans@.len() == 0,
{
}

/// What is pasted takes the place of what was there, and a character that is typed is put between
/// two others, which stay.
pub proof fn what_is_pasted_or_typed_is_there(
    pasted: &mut Editor,
    document: Document,
    typed: &mut Editor,
    glyph: char,
) -> (at: int)
    requires
        call_ensures(Editor::paste, (pasted, document), ()),
        call_ensures(Editor::type_in_the_middle, (typed, glyph), ()),
    ensures
        final(pasted).document == document,
        final(pasted).buffer@ == document.text@,
        final(pasted).account == old(pasted).account,
        0 <= at <= old(typed).buffer@.len(),
        final(typed).buffer@ == old(typed).buffer@.take(at).push(glyph) + old(typed).buffer@.skip(at),
        utf8::byte_len(old(typed).buffer@.take(at)) <= utf8::byte_len(old(typed).buffer@) / 2,
        at < old(typed).buffer@.len() ==> utf8::byte_len(old(typed).buffer@.take(at + 1))
            > utf8::byte_len(old(typed).buffer@) / 2,
        final(typed).document == old(typed).document,
        final(typed).account == old(typed).account,
{
    let t = old(typed).buffer@;
    let at = utf8::middle(t);
    utf8::lemma_fitting_fits(t, utf8::byte_len(t) / 2);
    assert(t.insert(at, glyph) == t.take(at).push(glyph) + t.skip(at));
    at
}

// ---------------------------------------------------------------------------------------------
// The preview
// ---------------------------------------------------------------------------------------------

/// The preview shows the whole signature, line by line: from its first byte to its last, with one
/// line feed between two lines, and a bullet before the lines that have one.
pub proof fn the_preview_shows_every_line(document: &Document, lines: Vec<PreviewLine>)
    requires
        call_ensures(signature::preview, (document,), lines),
    ensures
        lines@.len() >= 1,
        lines@[0].from == 0,
        lines@[lines@.len() - 1].to == utf8::byte_len(document.text@),
        forall|i: int, j: int|
            0 <= i && j == i + 1 && j < lines@.len() ==> (#[trigger] lines@[j]).from == (
            #[trigger] lines@[i]).to + 1,
        forall|i: int|
            0 <= i < lines@.len() ==> {
                &&& (#[trigger] lines@[i]).bullet == document.bullet(i)
                &&& lines@[i].blank ==> lines@[i].from == lines@[i].to
            },
{
    let t = document.text@;
    let parts = text::split(t, '\n');
    signature::lemma_lines_fill_the_text(t);
    let n = parts.len() as int;
    assert(signature::line_start(parts, n) == signature::line_start(parts, n - 1) + utf8::byte_len(
        parts[n - 1],
    ) + 1);
}

// ---------------------------------------------------------------------------------------------
// The sections
// ---------------------------------------------------------------------------------------------

/// Whether a span lies in a text, between characters.
pub open spec fn lies_in(span: Span, t: Seq<char>) -> bool {
    &&& utf8::is_boundary(t, span.at as int)
    &&& utf8::is_boundary(t, span.at + span.len)
}

/// Whether the spans of a document lie in a text one behind the other.
pub open spec fn well_laid(spans: Seq<Span>, t: Seq<char>) -> bool {
    &&& forall|i: int| 0 <= i < spans.len() ==> lies_in(#[trigger] spans[i], t)
    &&& forall|i: int, j: int|
        0 <= i < j < spans.len() ==> (#[trigger] spans[i]).at + spans[i].len <= (
        #[trigger] spans[j]).at
}

proof fn lemma_line_ends_are_boundaries(t: Seq<char>, rank: int)
    requires
        0 <= rank < text::split(t, '\n').len(),
    ensures
        utf8::is_boundary(
            t,
            signature::line_start(text::split(t, '\n'), rank) + utf8::byte_len(
                text::split(t, '\n')[rank],
            ),
        ),
    decreases t.len(),
{
    let lines = text::split(t, '\n');
    signature::lemma_lines_fill_the_text(t);
    if rank == lines.len() - 1 {
        assert(t.take(t.len() as int) == t);
        assert(utf8::byte_len(t.take(t.len() as int)) == signature::line_start(lines, rank)
            + utf8::byte_len(lines[rank]));
    } else {
        let front = t.drop_last();
        let before = text::split(front, '\n');
        signature::lemma_lines_fill_the_text(front);
        lemma_line_ends_are_boundaries(front, rank);
        signature::lemma_line_start_same(before, lines, rank);
        assert(before[rank] == lines[rank]);
        let end = signature::line_start(before, rank) + utf8::byte_len(before[rank]);
        let k = choose|k: int|
            0 <= k <= front.len() && #[trigger] utf8::byte_len(front.take(k)) == end;
        assert(front.take(k) == t.take(k));
        assert(utf8::byte_len(t.take(k)) == end);
    }
}

/// Whether a byte is drawn by a section in the style of a span.
pub open spec fn drawn(s: Seq<signature::Placed>, p: int, span: int) -> bool {
    exists|i: int|
        0 <= i < s.len() && (#[trigger] s[i]).span == Some(span) && s[i].from <= p < s[i].to
}

/// Whether sections draw the style of a span on its own bytes alone.
pub open spec fn keeps_to_its_span(s: Seq<signature::Placed>, spans: Seq<Span>) -> bool {
    forall|i: int|
        0 <= i < s.len() ==> ((#[trigger] s[i]).span matches Some(k) ==> 0 <= k < spans.len()
            && spans[k].at <= s[i].from && s[i].to <= spans[k].at + spans[k].len)
}

proof fn lemma_drawn_stays(a: Seq<signature::Placed>, b: Seq<signature::Placed>, p: int, span: int)
    ensures
        drawn(a, p, span) ==> drawn(a + b, p, span),
        drawn(b, p, span) ==> drawn(a + b, p, span),
{
    let s = a + b;
    if drawn(a, p, span) {
        let i = choose|i: int|
            0 <= i < a.len() && (#[trigger] a[i]).span == Some(span) && a[i].from <= p < a[i].to;
        assert(s[i] == a[i]);
    }
    if drawn(b, p, span) {
        let i = choose|i: int|
            0 <= i < b.len() && (#[trigger] b[i]).span == Some(span) && b[i].from <= p < b[i].to;
        assert(s[a.len() + i] == b[i]);
    }
}

proof fn lemma_spans_are_drawn(
    t: Seq<char>,
    spans: Seq<Span>,
    k: nat,
    start: int,
    end: int,
    bullet: bool,
)
    requires
        k <= spans.len(),
        0 <= start <= end <= utf8::byte_len(t),
        utf8::is_boundary(t, start),
        utf8::is_boundary(t, end),
        well_laid(spans, t),
    ensures
        ({
            let (done, cut) = signature::span_sections(t, spans, k, start, end, bullet);
            &&& cut == start || (k > 0 && cut <= spans[k - 1].at + spans[k - 1].len)
            &&& forall|j: int, p: int|
                0 <= j < k && start <= p < end && spans[j].at <= p < spans[j].at + spans[j].len
                    ==> #[trigger] drawn(done, p, j)
        }),
    decreases k,
{
    if k > 0 {
        let before = (k - 1) as nat;
        lemma_spans_are_drawn(t, spans, before, start, end, bullet);
        let (done, cut) = signature::span_sections(t, spans, before, start, end, bullet);
        let (now, upto) = signature::span_sections(t, spans, k, start, end, bullet);
        let span = spans[k - 1];
        assert(lies_in(span, t));
        if k > 1 {
            assert(spans[k - 2].at + spans[k - 2].len <= span.at);
        }
        assert forall|j: int, p: int|
            0 <= j < k && start <= p < end && spans[j].at <= p < spans[j].at
                + spans[j].len implies #[trigger] drawn(now, p, j) by {
            if j < k - 1 {
                assert(drawn(done, p, j));
                if signature::usable(t, span, cut, end) {
                    lemma_drawn_stays(done, now.skip(done.len() as int), p, j);
                    assert(now == done + now.skip(done.len() as int));
                }
            } else {
                let from = signature::higher(span.at as int, cut);
                let to = signature::lower(span.at + span.len, end);
                assert(from <= p < to);
                assert(from == span.at || from == start);
                assert(signature::usable(t, span, cut, end));
                assert(now[now.len() - 1].span == Some(j));
            }
        }
    }
}

proof fn lemma_spans_are_kept_to(
    t: Seq<char>,
    spans: Seq<Span>,
    k: nat,
    start: int,
    end: int,
    bullet: bool,
)
    requires
        k <= spans.len(),
    ensures
        keeps_to_its_span(signature::span_sections(t, spans, k, start, end, bullet).0, spans),
    decreases k,
{
    if k > 0 {
        lemma_spans_are_kept_to(t, spans, (k - 1) as nat, start, end, bullet);
    }
}

proof fn lemma_sections_keep(document: Document, t: Seq<char>, n: nat)
    ensures
        keeps_to_its_span(signature::sections_of(document, t, n), document.spans@),
    decreases n,
{
    if n > 0 {
        let spans = document.spans@;
        lemma_sections_keep(document, t, (n - 1) as nat);
        let lines = text::split(t, '\n');
        let start = signature::line_start(lines, n - 1);
        let end = start + utf8::byte_len(lines[n - 1]);
        let bullet = document.bullet(n - 1);
        lemma_spans_are_kept_to(t, spans, spans.len(), start, end, bullet);
        let before = signature::sections_of(document, t, (n - 1) as nat);
        let line = signature::line_sections(t, spans, start, end, bullet);
        let all = signature::sections_of(document, t, n);
        assert forall|i: int| 0 <= i < all.len() implies ((#[trigger] all[i]).span matches Some(k)
            ==> 0 <= k < spans.len() && spans[k].at <= all[i].from && all[i].to <= spans[k].at
            + spans[k].len) by {
            if i < before.len() {
                assert(all[i] == before[i]);
            } else {
                assert(all[i] == line[i - before.len()]);
            }
        }
    }
}

proof fn lemma_line_is_drawn(document: Document, t: Seq<char>, n: nat, rank: int, k: int, p: int)
    requires
        n <= text::split(t, '\n').len(),
        0 <= rank < n,
        well_laid(document.spans@, t),
        0 <= k < document.spans@.len(),
        signature::line_start(text::split(t, '\n'), rank) <= p < signature::line_start(
            text::split(t, '\n'),
            rank,
        ) + utf8::byte_len(text::split(t, '\n')[rank]),
        document.spans@[k].at <= p < document.spans@[k].at + document.spans@[k].len,
    ensures
        drawn(signature::sections_of(document, t, n), p, k),
    decreases n,
{
    let spans = document.spans@;
    let lines = text::split(t, '\n');
    let before = signature::sections_of(document, t, (n - 1) as nat);
    let start = signature::line_start(lines, n - 1);
    let end = start + utf8::byte_len(lines[n - 1]);
    let bullet = document.bullet(n - 1);
    let line = signature::line_sections(t, spans, start, end, bullet);
    lemma_drawn_stays(before, line, p, k);
    if rank < n - 1 {
        lemma_line_is_drawn(document, t, (n - 1) as nat, rank, k, p);
    } else {
        signature::lemma_lines_fill_the_text(t);
        signature::lemma_line_start_grows(lines, n as int, lines.len() as int);
        signature::lemma_line_starts_are_boundaries(t, rank);
        lemma_line_ends_are_boundaries(t, rank);
        lemma_spans_are_drawn(t, spans, spans.len(), start, end, bullet);
        let (done, cut) = signature::span_sections(t, spans, spans.len(), start, end, bullet);
        assert(drawn(done, p, k));
        lemma_drawn_stays(done, line.skip(done.len() as int), p, k);
        assert(line == done + line.skip(done.len() as int));
    }
}

/// Every byte of a line is drawn once, in the style of the span that it lies in, and a style is
/// drawn nowhere else: the sections cover the text without a gap, none reaches out of its span, and
/// each byte of a span that is no line feed is in a section of that span.
pub proof fn a_style_is_drawn_where_it_was_put(
    document: &Document,
    shown: &str,
    sections: Vec<Section>,
    rank: int,
    k: int,
    p: int,
)
    requires
        call_ensures(signature::sections, (document, shown), sections),
        well_laid(document.spans@, shown@),
        0 <= rank < text::split(shown@, '\n').len(),
        0 <= k < document.spans@.len(),
        signature::line_start(text::split(shown@, '\n'), rank) <= p < signature::line_start(
            text::split(shown@, '\n'),
            rank,
        ) + utf8::byte_len(text::split(shown@, '\n')[rank]),
    ensures
        sections@.len() > 0,
        sections@[0].from == 0,
        sections@[sections@.len() - 1].to == utf8::byte_len(shown@),
        forall|i: int, j: int|
            0 <= i && j == i + 1 && j < sections@.len() ==> (#[trigger] sections@[i]).to == (
            #[trigger] sections@[j]).from,
        forall|i: int|
            0 <= i < sections@.len() ==> ((#[trigger] sections@[i]).span matches Some(of) ==> of
                < document.spans@.len() && document.spans@[of as int].at <= sections@[i].from
                && sections@[i].to <= document.spans@[of as int].at
                + document.spans@[of as int].len),
        document.spans@[k].at <= p < document.spans@[k].at + document.spans@[k].len ==> exists|i: int|
            0 <= i < sections@.len() && (#[trigger] sections@[i]).span == Some(k as usize)
                && sections@[i].from <= p < sections@[i].to,
{
    let t = shown@;
    let n = text::split(t, '\n').len();
    let placed = signature::places(sections@);
    signature::sections_cover_the_text(*document, t);
    lemma_sections_keep(*document, t, n);
    assert(placed == signature::all_sections(*document, t));
    assert forall|i: int, j: int| 0 <= i && j == i + 1 && j < sections@.len() implies (
    #[trigger] sections@[i]).to == (#[trigger] sections@[j]).from by {
        assert(placed[i].to == placed[j].from);
    }
    assert forall|i: int| 0 <= i < sections@.len() implies ((
    #[trigger] sections@[i]).span matches Some(of) ==> of < document.spans@.len()
        && document.spans@[of as int].at <= sections@[i].from && sections@[i].to
        <= document.spans@[of as int].at + document.spans@[of as int].len) by {
        assert(placed[i] == signature::place(sections@[i]));
    }
    if document.spans@[k].at <= p < document.spans@[k].at + document.spans@[k].len {
        lemma_line_is_drawn(*document, t, n, rank, k, p);
        let i = choose|i: int|
            0 <= i < placed.len() && (#[trigger] placed[i]).span == Some(k) && placed[i].from <= p
                < placed[i].to;
        assert(placed[i] == signature::place(sections@[i]));
        assert(sections@[i].span == Some(k as usize));
    }
    signature::lemma_lines_fill_the_text(t);
    let parts = text::split(t, '\n');
    signature::lemma_line_start_grows(parts, rank + 1, parts.len() as int);
    assert(utf8::byte_len(t) > 0);
    assert(placed.len() > 0);
    assert(placed[0] == signature::place(sections@[0]));
    assert(placed[placed.len() - 1] == signature::place(sections@[sections@.len() - 1]));
}

} // verus!
