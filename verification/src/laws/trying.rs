//! The trial windows: a list that is scrolled, and a styled text that is typed in.
use crate::bench::Bench;
use crate::body::Block;
use crate::dto::{Folder, Row};
use crate::spike::native;
use crate::spike::native::{Load, Phase, Scroll, Step};
use crate::spike::richtext;
use crate::spike::richtext::{Document, Style};
use crate::text;
use crate::trial;
use crate::utf8;
use vstd::prelude::*;
use vstd::string::*;

verus! {

// ---------------------------------------------------------------------------------------------
// The list
// ---------------------------------------------------------------------------------------------

/// The list is measured on the biggest folder, and no list where there is none; pages are asked for
/// until one is empty or the last.
pub proof fn the_list_is_measured_on_the_biggest_folder(
    folders: &Vec<Folder>,
    found: Result<i64, &'static str>,
    biggest: Option<i64>,
    rows: usize,
    more: Load,
    last: Load,
    word: &str,
    run: Bench,
)
    requires
        call_ensures(native::folder, (folders,), found),
        call_ensures(trial::biggest_folder, (folders,), biggest),
        call_ensures(native::after_page, (rows, true), more),
        call_ensures(native::after_page, (rows, false), last),
        call_ensures(native::bench, (Some(word),), run),
    ensures
        found is Err <==> folders@.len() == 0,
        found matches Ok(id) ==> biggest == Some(id),
        rows > 0 ==> more == Load::More && last == Load::Last,
        rows == 0 ==> more == Load::Over && last == Load::Over,
        run == Bench::Startup <==> word@ == "startup"@,
        run == Bench::Scroll ==> word@ == "scroll"@,
        run != Bench::Startup && run != Bench::Scroll ==> run == Bench::Off && word@ != "scroll"@,
{
}

/// What is shown of a folder and of a row is theirs: the end of the path, what is unread, how much is
/// loaded of how much, and who wrote.
pub proof fn what_the_list_shows_is_its_own(
    path: &str,
    unread: u64,
    label: String,
    loaded: usize,
    total: u64,
    count: String,
    row: &Row,
    who: &str,
)
    requires
        call_ensures(native::folder_label, (path, unread), label),
        call_ensures(native::loaded_label, (loaded, total), count),
        call_ensures(native::who, (row,), who),
    ensures
        text::starts(label@, text::split(path@, '/').last()),
        unread == 0 ==> label@ == text::split(path@, '/').last(),
        unread > 0 ==> text::occurs(text::dec(unread as nat), label@),
        text::starts(count@, text::dec(loaded as nat)),
        text::occurs(text::dec(total as nat), count@),
        row.from_name is None ==> who@ == row.from@,
        row.from_name matches Some(name) ==> text::trimmed(name@).len() > 0 ==> who@ == name@,
{
    let last = text::split(path@, '/').last();
    assert(label@.take(last.len() as int) == last);
    if unread > 0 {
        let n = text::dec(unread as nat);
        let at = (last + "  ("@).len() as int;
        assert(label@.subrange(at, at + n.len()) == n);
    }
    let a = text::dec(loaded as nat);
    let b = text::dec(total as nat);
    assert(count@.take(a.len() as int) == a);
    let at = count@.len() - b.len();
    assert(count@.subrange(at, at + b.len()) == b);
}

/// A frame counts where it was timed, in the regime that it was drawn in; nothing is measured before
/// the folder is all there, and the run reports with the last of its frames.
pub proof fn a_frame_counts_in_its_regime(it: &mut Scroll, timed: bool, done: bool, step: Step)
    requires
        native::sound(*old(it)),
        call_ensures(Scroll::advance, (it, timed, done), step),
    ensures
        old(it).phase == Phase::Waiting ==> final(it).idle == 0 && final(it).scrolling == 0 && (done
            <==> final(it).phase == Phase::Idle),
        old(it).phase == Phase::Idle ==> final(it).scrolling == 0 && final(it).idle == old(it).idle + (
        if timed {
            1int
        } else {
            0int
        }),
        old(it).phase == Phase::Scrolling ==> final(it).idle == old(it).idle && final(it).scrolling
            == old(it).scrolling + (if timed {
            1int
        } else {
            0int
        }),
        step == Step::Report <==> old(it).phase == Phase::Scrolling && final(it).scrolling == 600,
        final(it).phase == Phase::Scrolling && old(it).phase == Phase::Idle ==> final(it).idle
            == 120,
{
}

// ---------------------------------------------------------------------------------------------
// The styled text
// ---------------------------------------------------------------------------------------------

/// A fragment is put behind the text, in its style, and what was there stays.
pub proof fn a_fragment_is_put_behind_the_text(it: &mut Document, fragment: &str, style: Style)
    requires
        call_ensures(Document::push, (it, fragment, style), ()),
    ensures
        final(it).text@ == old(it).text@ + fragment@,
        final(it).spans@.len() == old(it).spans@.len() + 1,
        forall|i: int|
            0 <= i < old(it).spans@.len() ==> final(it).spans@[i] == #[trigger] old(it).spans@[i],
        final(it).spans@[old(it).spans@.len() as int].at == utf8::byte_len(old(it).text@),
        final(it).spans@[old(it).spans@.len() as int].len == utf8::byte_len(fragment@),
        final(it).spans@[old(it).spans@.len() as int].style == style,
{
    assert forall|i: int| 0 <= i < old(it).spans@.len() implies final(it).spans@[i]
        == #[trigger] old(it).spans@[i] by {
        assert(final(it).spans@.drop_last()[i] == final(it).spans@[i]);
    }
}

/// A character that is typed is put between two others, which stay; what is styled before it stays
/// where it is, what is styled behind it moves by its width, and what it falls into grows by as much.
pub proof fn a_typed_character_moves_what_follows(it: &mut Document, glyph: char) -> (at: int)
    requires
        richtext::well_laid(old(it).text@, old(it).spans@),
        call_ensures(Document::type_one, (it, glyph), ()),
        utf8::byte_len(old(it).text@) + 4 <= usize::MAX,
    ensures
        0 <= at <= old(it).text@.len(),
        final(it).text@ == old(it).text@.take(at).push(glyph) + old(it).text@.skip(at),
        final(it).spans@.len() == old(it).spans@.len(),
        forall|i: int|
            0 <= i < old(it).spans@.len() ==> {
                let was = #[trigger] old(it).spans@[i];
                let is = final(it).spans@[i];
                let middle = utf8::byte_len(old(it).text@.take(at));
                &&& is.style == was.style
                &&& was.at + was.len <= middle && was.at < middle ==> is == was
                &&& was.at >= middle ==> is.at == was.at + utf8::char_width(glyph) && is.len
                    == was.len
                &&& was.at < middle < was.at + was.len ==> is.at == was.at && is.len == was.len
                    + utf8::char_width(glyph)
            },
{
    let t = old(it).text@;
    let at = richtext::middle_chars(t) as int;
    richtext::lemma_fits(t, utf8::byte_len(t) / 2);
    assert(t.insert(at, glyph) == t.take(at).push(glyph) + t.skip(at));
    let middle = utf8::byte_len(t.take(at)) as int;
    let grew = utf8::char_width(glyph) as int;
    assert forall|i: int| 0 <= i < old(it).spans@.len() implies {
        let was = #[trigger] old(it).spans@[i];
        let is = final(it).spans@[i];
        &&& is.style == was.style
        &&& was.at + was.len <= middle && was.at < middle ==> is == was
        &&& was.at >= middle ==> is.at == was.at + grew && is.len == was.len
        &&& was.at < middle < was.at + was.len ==> is.at == was.at && is.len == was.len + grew
    } by {
        let was = old(it).spans@[i];
        assert(final(it).spans@[i] == richtext::moved(was, middle, grew));
        lemma_boundary(t, was.at as int);
        lemma_boundary(t, was.at + was.len);
    }
    at
}

proof fn lemma_boundary(t: Seq<char>, offset: int)
    requires
        utf8::is_boundary(t, offset),
    ensures
        0 <= offset <= utf8::byte_len(t),
{
    let k = choose|k: int| 0 <= k <= t.len() && #[trigger] utf8::byte_len(t.take(k)) == offset;
    utf8::lemma_byte_len_grows(t, k, t.len() as int);
    assert(t.take(t.len() as int) == t);
}

/// A paste keeps every stretch of the body, in its style: a link is one whatever else it is, then
/// what is bold or in a heading is strong, then what is slanted is emphasised, and the rest is plain.
pub proof fn a_paste_keeps_every_stretch(blocks: &Vec<Block>, out: Document, b: int, k: int) -> (at: int)
    requires
        call_ensures(richtext::paste, (blocks,), out),
        0 <= b < blocks@.len(),
        0 <= k < blocks@[b].runs@.len(),
    ensures
        0 <= at < out.spans@.len(),
        ({
            let run = blocks@[b].runs@[k];
            let span = out.spans@[at];
            &&& text::occurs(run.text@, out.text@)
            &&& span.len == utf8::byte_len(run.text@)
            &&& run.style.link is Some ==> span.style == Style::Link
            &&& run.style.link is None && (run.style.bold || blocks@[b].kind is Heading)
                ==> span.style == Style::Strong
            &&& run.style.link is None && !run.style.bold && !(blocks@[b].kind is Heading)
                && run.style.italic ==> span.style == Style::Emphasis
            &&& run.style.link is None && !run.style.bold && !(blocks@[b].kind is Heading)
                && !run.style.italic ==> span.style == Style::Plain
        }),
{
    let pieces = richtext::pasted_pieces(blocks@, blocks@.len() as int);
    let at = lemma_pasted(blocks@, blocks@.len() as int, b, k);
    assert(richtext::is_piece(out.spans@[at], pieces, at));
    let before = richtext::text_of(pieces.take(at));
    assert(pieces.take(at + 1).drop_last() == pieces.take(at));
    assert(pieces.take(at + 1).last() == pieces[at]);
    let upto = richtext::text_of(pieces.take(at + 1));
    assert(upto == before + pieces[at].0);
    richtext::lemma_text_starts(pieces, at + 1);
    let all = richtext::text_of(pieces);
    assert(all.take(upto.len() as int) == upto);
    let from = before.len() as int;
    let run = blocks@[b].runs@[k].text@;
    assert(all.subrange(from, from + run.len()) == all.take(upto.len() as int).skip(from));
    assert(upto.skip(from) == run);
    at
}

proof fn lemma_pasted(blocks: Seq<Block>, n: int, b: int, k: int) -> (at: int)
    requires
        0 <= b < n <= blocks.len(),
        0 <= k < blocks[b].runs@.len(),
    ensures
        0 <= at < richtext::pasted_pieces(blocks, n).len(),
        richtext::pasted_pieces(blocks, n)[at] == (
            blocks[b].runs@[k].text@,
            richtext::run_style(blocks[b].kind, blocks[b].runs@[k].style),
        ),
    decreases n,
{
    let before = richtext::pasted_pieces(blocks, n - 1);
    let all = richtext::pasted_pieces(blocks, n);
    if b == n - 1 {
        let within = richtext::block_pieces(blocks[b]);
        let i = lemma_runs(blocks[b], blocks[b].runs@.len() as int, k);
        assert(within[i] == richtext::run_pieces(blocks[b], blocks[b].runs@.len() as int)[i]);
        assert(all[before.len() + i] == within[i]);
        before.len() + i
    } else {
        let at = lemma_pasted(blocks, n - 1, b, k);
        assert(all[at] == before[at]);
        at
    }
}

proof fn lemma_runs(block: Block, n: int, k: int) -> (at: int)
    requires
        0 <= k < n <= block.runs@.len(),
    ensures
        0 <= at < richtext::run_pieces(block, n).len(),
        richtext::run_pieces(block, n)[at] == (
            block.runs@[k].text@,
            richtext::run_style(block.kind, block.runs@[k].style),
        ),
    decreases n,
{
    let before = richtext::run_pieces(block, n - 1);
    if k == n - 1 {
        before.len() as int
    } else {
        lemma_runs(block, n - 1, k)
    }
}

/// What is measured counts the characters that are there: at the start, and of what was pasted.
pub proof fn what_is_measured_is_counted(
    lines: usize,
    fresh: richtext::Probe,
    it: &mut richtext::Probe,
    document: Document,
)
    requires
        lines <= usize::MAX / 4,
        call_ensures(richtext::Probe::new, (lines,), fresh),
        call_ensures(richtext::Probe::paste_done, (it, document), ()),
    ensures
        fresh.glyphs == fresh.document.text@.len(),
        fresh.lines == lines,
        fresh.frames == 0,
        final(it).paste_glyphs == document.text@.len(),
        final(it).document == document,
        final(it).glyphs == old(it).glyphs,
        final(it).phase == richtext::Phase::Done,
{
}

/// The run goes through its regimes in order, and counts a frame in the regime it was drawn in; the
/// document is typed in while typing and stays as it is at rest.
pub proof fn a_frame_is_counted_in_the_regime_it_was_drawn_in(
    it: &mut richtext::Probe,
    step: richtext::Step,
)
    requires
        richtext::sound(*old(it)),
        call_ensures(richtext::Probe::frame, (it,), step),
    ensures
        old(it).phase == richtext::Phase::Warmup ==> step == richtext::Step::Wait
            && final(it).document == old(it).document,
        old(it).phase == richtext::Phase::Idle ==> step == richtext::Step::Count(
            richtext::Regime::Idle,
        ) && final(it).document == old(it).document,
        old(it).phase == richtext::Phase::Typing ==> step == richtext::Step::Count(
            richtext::Regime::Typing,
        ) && (old(it).frames < 240 ==> final(it).document.text@.len() == old(it).document.text@.len()
            + 1),
        old(it).phase == richtext::Phase::TypingBig ==> step == richtext::Step::Count(
            richtext::Regime::TypingBig,
        ) && final(it).document.text@.len() == old(it).document.text@.len() + 1,
        old(it).phase == richtext::Phase::Pasting ==> step == richtext::Step::Paste,
        old(it).phase == richtext::Phase::Done ==> step == richtext::Step::Report,
        final(it).glyphs == old(it).glyphs,
{
    let t = old(it).document.text@;
    richtext::lemma_fits(t, utf8::byte_len(t) / 2);
}

} // verus!
