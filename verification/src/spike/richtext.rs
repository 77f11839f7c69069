//! A styled document to measure the layout of an editor on, and the run that measures it.
//!
//! The document is a text and a list of styled stretches of it, in order and apart from one
//! another: laying it out is then one walk, without any search.
use crate::body::{Block, Kind, RunStyle};
use crate::text;
use crate::utf8;
use vstd::prelude::*;
use vstd::string::*;

verus! {

/// What a stretch of text carries.
#[derive(Debug, Clone, Copy, PartialEq, Eq, Structural)]
pub enum Style {
    Plain,
    Strong,
    Emphasis,
    Link,
    Bullet,
}

/// A styled stretch of a document, in bytes.
#[derive(Debug, Clone, Copy, PartialEq, Eq, Structural)]
pub struct Span {
    pub at: usize,
    pub len: usize,
    pub style: Style,
}

/// A text, and what decorates it.
#[derive(Debug)]
pub struct Document {
    pub text: String,
    pub spans: Vec<Span>,
}

/// Whether stretches are in order and apart, each a whole number of characters of the text.
pub open spec fn well_laid(text: Seq<char>, spans: Seq<Span>) -> bool {
    &&& forall|i: int|
        0 <= i < spans.len() ==> utf8::is_boundary(text, (#[trigger] spans[i]).at as int)
            && utf8::is_boundary(text, spans[i].at + spans[i].len)
    &&& forall|i: int, j: int|
        0 <= i < j < spans.len() ==> (#[trigger] spans[i]).at + spans[i].len <= (
        #[trigger] spans[j]).at
}

/// The text of fragments, one after another.
pub open spec fn text_of(pieces: Seq<(Seq<char>, Style)>) -> Seq<char>
    decreases pieces.len(),
{
    if pieces.len() == 0 {
        Seq::empty()
    } else {
        text_of(pieces.drop_last()) + pieces.last().0
    }
}

/// Whether a document is made of styled fragments, one after another.
pub open spec fn made_of(document: Document, pieces: Seq<(Seq<char>, Style)>) -> bool {
    &&& document.text@ == text_of(pieces)
    &&& document.spans@.len() == pieces.len()
    &&& forall|i: int|
        0 <= i < pieces.len() ==> is_piece(#[trigger] document.spans@[i], pieces, i)
}

/// Whether a stretch is that of a fragment.
pub open spec fn is_piece(span: Span, pieces: Seq<(Seq<char>, Style)>, i: int) -> bool {
    &&& span.at == utf8::byte_len(text_of(pieces.take(i)))
    &&& span.len == utf8::byte_len(pieces[i].0)
    &&& span.style == pieces[i].1
}

/// One more fragment at the end of a document adds one stretch, and its text.
proof fn lemma_one_more(
    before: Document,
    after: Document,
    pieces: Seq<(Seq<char>, Style)>,
    piece: (Seq<char>, Style),
    span: Span,
)
    requires
        made_of(before, pieces),
        after.text@ == before.text@ + piece.0,
        after.spans@ == before.spans@.push(span),
        span.at == utf8::byte_len(before.text@),
        span.len == utf8::byte_len(piece.0),
        span.style == piece.1,
    ensures
        made_of(after, pieces.push(piece)),
{
    let all = pieces.push(piece);
    assert(all.drop_last() == pieces);
    assert forall|i: int| 0 <= i < all.len() implies is_piece(
        #[trigger] after.spans@[i],
        all,
        i,
    ) by {
        assert(all.take(i) == pieces.take(i));
        if i < pieces.len() {
            assert(is_piece(before.spans@[i], pieces, i));
        } else {
            assert(pieces.take(i) == pieces);
        }
    }
}

/// A document made of fragments is well laid.
pub proof fn fragments_are_well_laid(document: Document, pieces: Seq<(Seq<char>, Style)>)
    requires
        made_of(document, pieces),
    ensures
        well_laid(document.text@, document.spans@),
{
    let spans = document.spans@;
    assert forall|i: int| 0 <= i < spans.len() implies utf8::is_boundary(
        document.text@,
        (#[trigger] spans[i]).at as int,
    ) && utf8::is_boundary(document.text@, spans[i].at + spans[i].len) by {
        lemma_text_starts(pieces, i);
        lemma_text_starts(pieces, i + 1);
        lemma_next(pieces, i);
        assert(is_piece(spans[i], pieces, i));
    }
    assert forall|i: int, j: int| 0 <= i < j < spans.len() implies (#[trigger] spans[i]).at
        + spans[i].len <= (#[trigger] spans[j]).at by {
        assert(is_piece(spans[i], pieces, i));
        assert(is_piece(spans[j], pieces, j));
        lemma_next(pieces, i);
        lemma_text_grows(pieces, i + 1, j);
    }
}

proof fn lemma_next(pieces: Seq<(Seq<char>, Style)>, i: int)
    requires
        0 <= i < pieces.len(),
    ensures
        utf8::byte_len(text_of(pieces.take(i + 1))) == utf8::byte_len(text_of(pieces.take(i)))
            + utf8::byte_len(pieces[i].0),
{
    assert(pieces.take(i + 1).drop_last() == pieces.take(i));
    assert(pieces.take(i + 1).last() == pieces[i]);
    utf8::lemma_byte_len_of_sum(text_of(pieces.take(i)), pieces[i].0);
}

proof fn lemma_text_grows(pieces: Seq<(Seq<char>, Style)>, i: int, j: int)
    requires
        0 <= i <= j <= pieces.len(),
    ensures
        utf8::byte_len(text_of(pieces.take(i))) <= utf8::byte_len(text_of(pieces.take(j))),
    decreases j - i,
{
    if i < j {
        lemma_next(pieces, i);
        lemma_text_grows(pieces, i + 1, j);
    }
}

/// Where a fragment starts is a boundary of the whole text.
pub proof fn lemma_text_starts(pieces: Seq<(Seq<char>, Style)>, i: int)
    requires
        0 <= i <= pieces.len(),
    ensures
        utf8::is_boundary(text_of(pieces), utf8::byte_len(text_of(pieces.take(i))) as int),
        text_of(pieces.take(i)).len() <= text_of(pieces).len(),
        text_of(pieces).take(text_of(pieces.take(i)).len() as int) == text_of(pieces.take(i)),
    decreases pieces.len(),
{
    let whole = text_of(pieces);
    if i == pieces.len() {
        assert(pieces.take(i) == pieces);
        assert(whole.take(whole.len() as int) == whole);
    } else {
        let rest = pieces.drop_last();
        lemma_text_starts(rest, i);
        assert(rest.take(i) == pieces.take(i));
        let n = text_of(pieces.take(i)).len() as int;
        assert(whole.take(n) == text_of(rest).take(n));
    }
    let n = text_of(pieces.take(i)).len() as int;
    assert(utf8::byte_len(whole.take(n)) == utf8::byte_len(text_of(pieces.take(i))));
}

// ---------------------------------------------------------------------------------------------
// The measured document
// ---------------------------------------------------------------------------------------------

/// The fragments of a line of the measured document.
pub open spec fn line_pieces(line: int) -> Seq<(Seq<char>, Style)> {
    if line % 5 == 0 {
        seq![("Cordialement, "@, Style::Plain), ("\n"@, Style::Plain)]
    } else if line % 5 == 1 {
        seq![
            ("Marie Dupont"@, Style::Strong),
            (" — "@, Style::Plain),
            ("directrice technique"@, Style::Emphasis),
            ("\n"@, Style::Plain),
        ]
    } else if line % 5 == 2 {
        seq![
            ("  • "@, Style::Bullet),
            ("un élément de liste avec un peu de texte courant"@, Style::Plain),
            ("\n"@, Style::Plain),
        ]
    } else if line % 5 == 3 {
        seq![
            ("https://exemple.fr/une/page/assez/longue"@, Style::Link),
            ("\n"@, Style::Plain),
        ]
    } else {
        seq![
            (
                "Une ligne de texte courant, assez longue pour que la mise en page ait quelque chose à faire dessus."@,
                Style::Plain,
            ),
            ("\n"@, Style::Plain),
        ]
    }
}

/// The fragments of the measured document.
pub open spec fn measured(lines: int) -> Seq<(Seq<char>, Style)>
    decreases lines,
{
    if lines <= 0 {
        Seq::empty()
    } else {
        measured(lines - 1) + line_pieces(lines - 1)
    }
}

/// How many characters lie before the middle of a text: as many as fit in half of its bytes.
pub open spec fn middle_chars(text: Seq<char>) -> nat {
    utf8::fitting(text, utf8::byte_len(text) / 2)
}

/// A stretch, once bytes were put in the text: moved where they come before it, longer where they
/// fall in it.
pub open spec fn moved(span: Span, at: int, grew: int) -> Span {
    if span.at >= at {
        Span { at: (span.at + grew) as usize, ..span }
    } else if span.at + span.len > at {
        Span { len: (span.len + grew) as usize, ..span }
    } else {
        span
    }
}

impl Document {
    /// A document of nothing.
    pub fn empty() -> (r: Document)
        ensures
            made_of(r, Seq::empty()),
    {
        let spans: Vec<Span> = Vec::new();
        let out = Document { text: "".to_owned(), spans };
        proof {
            reveal_strlit("");
        }
        assert(out.text@ =~= text_of(Seq::<(Seq<char>, Style)>::empty()));
        out
    }

    /// Adds a styled fragment at the end.
    pub fn push(&mut self, fragment: &str, style: Style)
        ensures
            final(self).text@ == old(self).text@ + fragment@,
            final(self).spans@.len() == old(self).spans@.len() + 1,
            final(self).spans@.drop_last() == old(self).spans@,
            final(self).spans@.last().at == utf8::byte_len(old(self).text@),
            final(self).spans@.last().len == utf8::byte_len(fragment@),
            final(self).spans@.last().style == style,
            forall|pieces: Seq<(Seq<char>, Style)>| #[trigger]
                made_of(*old(self), pieces) ==> made_of(
                    *final(self),
                    pieces.push((fragment@, style)),
                ),
    {
        let span = Span {
            at: utf8::len_of(self.text.as_str()),
            len: utf8::len_of(fragment),
            style,
        };
        self.spans.push(span);
        self.text.append(fragment);
        assert(self.spans@.drop_last() == old(self).spans@);
        assert forall|pieces: Seq<(Seq<char>, Style)>| #[trigger]
            made_of(*old(self), pieces) implies made_of(
            *self,
            pieces.push((fragment@, style)),
        ) by {
            lemma_one_more(*old(self), *self, pieces, (fragment@, style), span);
        }
    }

    /// A document to measure: lines in which the five styles meet, of the shape that a real rich
    /// signature has.
    pub fn generated(lines: usize) -> (r: Document)
        ensures
            made_of(r, measured(lines as int)),
            well_laid(r.text@, r.spans@),
    {
        let mut out = Document::empty();
        let mut line: usize = 0;
        while line < lines
            invariant
                line <= lines,
                made_of(out, measured(line as int)),
            decreases lines - line,
        {
            let ghost before = measured(line as int);
            let kind: usize = line % 5;
            let ghost mut now = before;
            if kind == 0 {
                out.push("Cordialement, ", Style::Plain);
                proof {
                    now = now.push(("Cordialement, "@, Style::Plain));
                }
            } else if kind == 1 {
                out.push("Marie Dupont", Style::Strong);
                out.push(" — ", Style::Plain);
                out.push("directrice technique", Style::Emphasis);
                proof {
                    now = now.push(("Marie Dupont"@, Style::Strong)).push(
                        (" — "@, Style::Plain),
                    ).push(("directrice technique"@, Style::Emphasis));
                }
            } else if kind == 2 {
                out.push("  • ", Style::Bullet);
                out.push("un élément de liste avec un peu de texte courant", Style::Plain);
                proof {
                    now = now.push(("  • "@, Style::Bullet)).push(
                        ("un élément de liste avec un peu de texte courant"@, Style::Plain),
                    );
                }
            } else if kind == 3 {
                out.push("https://exemple.fr/une/page/assez/longue", Style::Link);
                proof {
                    now = now.push(("https://exemple.fr/une/page/assez/longue"@, Style::Link));
                }
            } else {
                out.push(
                    "Une ligne de texte courant, assez longue pour que la mise en page ait quelque chose à faire dessus.",
                    Style::Plain,
                );
                proof {
                    now = now.push(
                        (
                            "Une ligne de texte courant, assez longue pour que la mise en page ait quelque chose à faire dessus."@,
                            Style::Plain,
                        ),
                    );
                }
            }
            assert(made_of(out, now));
            out.push("\n", Style::Plain);
            assert(now.push(("\n"@, Style::Plain)) =~= before + line_pieces(line as int));
            line = line + 1;
        }
        proof {
            fragments_are_well_laid(out, measured(lines as int));
        }
        out
    }

    /// The bytes before the middle of the text, on a boundary between characters.
    pub fn middle(&self) -> (r: usize)
        ensures
            r == utf8::byte_len(self.text@.take(middle_chars(self.text@) as int)),
            middle_chars(self.text@) <= self.text@.len(),
            r <= utf8::byte_len(self.text@) / 2,
    {
        let at = utf8::offsets(self.text.as_str());
        let k = self.middle_rank();
        proof {
            lemma_fits(self.text@, utf8::byte_len(self.text@) / 2);
        }
        at[k]
    }

    fn middle_rank(&self) -> (r: usize)
        ensures
            r == middle_chars(self.text@),
            r <= self.text@.len(),
    {
        let v = text::chars_of(self.text.as_str());
        let half: usize = utf8::len_of(self.text.as_str()) / 2;
        utf8::fit(&v, half)
    }

    /// Puts a character in the middle of the text, and moves what follows it.
    pub fn type_one(&mut self, glyph: char)
        requires
            well_laid(old(self).text@, old(self).spans@),
        ensures
            final(self).text@ == old(self).text@.insert(
                middle_chars(old(self).text@) as int,
                glyph,
            ),
            final(self).spans@.len() == old(self).spans@.len(),
            forall|i: int|
                0 <= i < old(self).spans@.len() ==> #[trigger] final(self).spans@[i] == moved(
                    old(self).spans@[i],
                    utf8::byte_len(
                        old(self).text@.take(middle_chars(old(self).text@) as int),
                    ) as int,
                    utf8::char_width(glyph) as int,
                ),
            well_laid(final(self).text@, final(self).spans@),
    {
        let at: usize = self.middle();
        let k: usize = self.middle_rank();
        let ghost before = self.text@;
        let v = text::chars_of(self.text.as_str());
        let mut whole = text::text_of(&v, 0, k);
        whole.push(glyph);
        whole.append(text::text_of(&v, k, v.len()).as_str());
        assert(whole@ =~= before.insert(k as int, glyph));
        let grew: usize = utf8::width_of(glyph);
        let total: usize = utf8::len_of(whole.as_str());
        proof {
            lemma_inserted_len(before, k as int, glyph);
        }
        self.text = whole;
        let ghost spans = self.spans@;
        let mut i: usize = 0;
        while i < self.spans.len()
            invariant
                i <= self.spans.len(),
                self.spans@.len() == spans.len(),
                self.text@ == before.insert(k as int, glyph),
                well_laid(before, spans),
                grew == utf8::char_width(glyph),
                total == utf8::byte_len(before) + grew,
                forall|j: int|
                    0 <= j < i ==> #[trigger] self.spans@[j] == moved(
                        spans[j],
                        at as int,
                        grew as int,
                    ),
                forall|j: int| i <= j < spans.len() ==> #[trigger] self.spans@[j] == spans[j],
            decreases self.spans.len() - i,
        {
            let span = self.spans[i];
            proof {
                assert(spans[i as int] == span);
                lemma_boundary_bound(before, span.at as int);
                lemma_boundary_bound(before, span.at + span.len);
            }
            let next = if span.at >= at {
                Span { at: span.at + grew, len: span.len, style: span.style }
            } else if span.at + span.len > at {
                Span { at: span.at, len: span.len + grew, style: span.style }
            } else {
                span
            };
            self.spans.set(i, next);
            i = i + 1;
        }
        proof {
            lemma_moved_is_well_laid(before, spans, k as int, glyph, self.spans@);
        }
    }

    /// How many characters the text has.
    pub fn glyphs(&self) -> (r: usize)
        ensures
            r == self.text@.len(),
    {
        self.text.as_str().unicode_len()
    }
}

pub proof fn lemma_fits(s: Seq<char>, max: nat)
    ensures
        utf8::fitting(s, max) <= s.len(),
        utf8::byte_len(s.take(utf8::fitting(s, max) as int)) <= max,
    decreases s.len(),
{
    assert(s.take(s.len() as int) == s);
    if utf8::byte_len(s) > max && s.len() > 0 {
        lemma_fits(s.drop_last(), max);
        let k = utf8::fitting(s.drop_last(), max) as int;
        assert(s.drop_last().take(k) == s.take(k));
    }
}

proof fn lemma_inserted_len(s: Seq<char>, k: int, glyph: char)
    requires
        0 <= k <= s.len(),
    ensures
        utf8::byte_len(s.insert(k, glyph)) == utf8::byte_len(s) + utf8::char_width(glyph),
{
    assert(s.insert(k, glyph) == s.take(k).push(glyph) + s.skip(k));
    assert(s == s.take(k) + s.skip(k));
    utf8::lemma_byte_len_of_sum(s.take(k), s.skip(k));
    utf8::lemma_byte_len_of_sum(s.take(k).push(glyph), s.skip(k));
    assert(s.take(k).push(glyph).drop_last() == s.take(k));
}

proof fn lemma_boundary_bound(s: Seq<char>, offset: int)
    requires
        utf8::is_boundary(s, offset),
    ensures
        0 <= offset <= utf8::byte_len(s),
{
    let k = choose|k: int| 0 <= k <= s.len() && #[trigger] utf8::byte_len(s.take(k)) == offset;
    utf8::lemma_byte_len_grows(s, k, s.len() as int);
    assert(s.take(s.len() as int) == s);
}

/// A boundary of a text is one of the longer text: at the same offset up to where a character was
/// put, and as much further as it is wide after it.
proof fn lemma_boundary_moves(s: Seq<char>, k: int, glyph: char, offset: int)
    requires
        0 <= k <= s.len(),
        utf8::is_boundary(s, offset),
    ensures
        offset <= utf8::byte_len(s.take(k)) ==> utf8::is_boundary(s.insert(k, glyph), offset),
        offset >= utf8::byte_len(s.take(k)) ==> utf8::is_boundary(
            s.insert(k, glyph),
            offset + utf8::char_width(glyph),
        ),
{
    let n = choose|n: int| 0 <= n <= s.len() && #[trigger] utf8::byte_len(s.take(n)) == offset;
    let long = s.insert(k, glyph);
    if n <= k {
        assert(long.take(n) == s.take(n));
        if n < k {
            utf8::lemma_byte_len_grows(s, n, k);
        } else {
            assert(long.take(n + 1).drop_last() == s.take(n));
            assert(utf8::byte_len(long.take(n + 1)) == offset + utf8::char_width(glyph));
        }
    } else {
        utf8::lemma_byte_len_grows(s, k, n);
        assert(long.take(n + 1) == s.take(n).insert(k, glyph));
        lemma_inserted_len(s.take(n), k, glyph);
        assert(utf8::byte_len(long.take(n + 1)) == offset + utf8::char_width(glyph));
    }
}

proof fn lemma_moved_is_well_laid(
    s: Seq<char>,
    spans: Seq<Span>,
    k: int,
    glyph: char,
    after: Seq<Span>,
)
    requires
        0 <= k <= s.len(),
        well_laid(s, spans),
        utf8::byte_len(s) + utf8::char_width(glyph) <= usize::MAX,
        after.len() == spans.len(),
        forall|i: int|
            0 <= i < spans.len() ==> #[trigger] after[i] == moved(
                spans[i],
                utf8::byte_len(s.take(k)) as int,
                utf8::char_width(glyph) as int,
            ),
    ensures
        well_laid(s.insert(k, glyph), after),
{
    let at = utf8::byte_len(s.take(k)) as int;
    let long = s.insert(k, glyph);
    assert forall|i: int| 0 <= i < after.len() implies utf8::is_boundary(
        long,
        (#[trigger] after[i]).at as int,
    ) && utf8::is_boundary(long, after[i].at + after[i].len) by {
        let span = spans[i];
        assert(utf8::is_boundary(s, span.at as int));
        lemma_boundary_bound(s, span.at as int);
        lemma_boundary_bound(s, span.at + span.len);
        lemma_boundary_moves(s, k, glyph, span.at as int);
        lemma_boundary_moves(s, k, glyph, span.at + span.len);
    }
    assert forall|i: int, j: int| 0 <= i < j < after.len() implies (#[trigger] after[i]).at
        + after[i].len <= (#[trigger] after[j]).at by {
        let a = spans[i];
        let b = spans[j];
        assert(a.at + a.len <= b.at);
        lemma_boundary_bound(s, b.at as int);
        lemma_boundary_bound(s, b.at + b.len);
    }
}

// ---------------------------------------------------------------------------------------------
// The paste
// ---------------------------------------------------------------------------------------------

/// A paragraph of the text that is pasted, with the tags and entities that a browser puts there.
pub open spec fn html_unit() -> Seq<char> {
    "<p style=\"margin:0;font-family:Arial\">Un <b>paragraphe</b> avec de l'<i>italique</i>, un <a href=\"https://exemple.fr/page?x=1&amp;y=2\">lien</a> et une entit&eacute;.</p><ul><li>premier</li><li>second</li></ul>"@
}

/// How many paragraphs of `unit` bytes it takes to reach fifty kibibytes from `start` bytes.
pub open spec fn units(start: nat, unit: nat) -> nat {
    ((51200 - start + unit - 1) / unit as int) as nat
}

/// The text that is pasted: paragraphs up to fifty kibibytes, in one division.
pub fn big_html() -> (r: String)
    ensures
        r@ == "<div>"@ + text::times(
            html_unit(),
            units(utf8::byte_len("<div>"@), utf8::byte_len(html_unit())),
        ) + "</div>"@,
{
    let unit = "<p style=\"margin:0;font-family:Arial\">Un <b>paragraphe</b> avec de l'<i>italique</i>, un <a href=\"https://exemple.fr/page?x=1&amp;y=2\">lien</a> et une entit&eacute;.</p><ul><li>premier</li><li>second</li></ul>";
    let mut out = "<div>".to_owned();
    let start: usize = utf8::len_of("<div>");
    let size: usize = utf8::len_of(unit);
    proof {
        reveal_strlit("<div>");
        reveal_strlit(
            "<p style=\"margin:0;font-family:Arial\">Un <b>paragraphe</b> avec de l'<i>italique</i>, un <a href=\"https://exemple.fr/page?x=1&amp;y=2\">lien</a> et une entit&eacute;.</p><ul><li>premier</li><li>second</li></ul>",
        );
        lemma_at_most_four("<div>"@);
        lemma_at_most_four(unit@);
        assert(size > 0);
    }
    let many: usize = (51200 - start + size - 1) / size;
    out.append(text::repeat_text(unit, many).as_str());
    out.append("</div>");
    out
}

proof fn lemma_at_most_four(s: Seq<char>)
    ensures
        s.len() <= utf8::byte_len(s) <= 4 * s.len(),
    decreases s.len(),
{
    if s.len() > 0 {
        lemma_at_most_four(s.drop_last());
    }
}

/// The pasted paragraphs reach fifty kibibytes, and the last of them was needed.
pub proof fn the_paste_is_just_big_enough(start: nat, unit: nat)
    requires
        start < 51200,
        unit > 0,
    ensures
        start + units(start, unit) * unit >= 51200,
        start + (units(start, unit) - 1) * unit < 51200,
{
    let gap = 51200 - start;
    let n = (gap + unit - 1) / unit as int;
    assert(n * unit <= gap + unit - 1 < n * unit + unit && n >= 0) by (nonlinear_arith)
        requires
            n == (gap + unit - 1) / unit as int,
            unit > 0,
            gap > 0,
    ;
    assert((n - 1) * unit == n * unit - unit) by (nonlinear_arith);
}

/// The style of a stretch of a body: a link is a link whatever else it is, for its target is what
/// the reader has to see.
pub open spec fn run_style(kind: Kind, style: RunStyle) -> Style {
    if style.link is Some {
        Style::Link
    } else if style.bold || kind is Heading {
        Style::Strong
    } else if style.italic {
        Style::Emphasis
    } else {
        Style::Plain
    }
}

/// What is put before a block: its nature.
pub open spec fn lead(kind: Kind) -> Seq<(Seq<char>, Style)> {
    match kind {
        Kind::Item { depth, .. } => seq![
            (text::times("  "@, depth as nat + 1), Style::Bullet),
            ("• "@, Style::Bullet),
        ],
        Kind::Quote(depth) => seq![
            (
                text::times(
                    "> "@,
                    if depth < 1 {
                        1
                    } else {
                        depth as nat
                    },
                ),
                Style::Emphasis,
            ),
        ],
        _ => Seq::empty(),
    }
}

/// The fragments of the first `n` stretches of a block.
pub open spec fn run_pieces(block: Block, n: int) -> Seq<(Seq<char>, Style)>
    decreases n,
{
    if n <= 0 {
        lead(block.kind)
    } else {
        run_pieces(block, n - 1).push(
            (block.runs@[n - 1].text@, run_style(block.kind, block.runs@[n - 1].style)),
        )
    }
}

/// The fragments of a block.
pub open spec fn block_pieces(block: Block) -> Seq<(Seq<char>, Style)> {
    let all = run_pieces(block, block.runs@.len() as int);
    if block.runs@.len() > 0 {
        all.push(("\n"@, Style::Plain))
    } else {
        all
    }
}

/// The fragments of the first `n` blocks.
pub open spec fn pasted_pieces(blocks: Seq<Block>, n: int) -> Seq<(Seq<char>, Style)>
    decreases n,
{
    if n <= 0 {
        Seq::empty()
    } else {
        pasted_pieces(blocks, n - 1) + block_pieces(blocks[n - 1])
    }
}

fn style_of(kind: &Kind, style: &RunStyle) -> (r: Style)
    ensures
        r == run_style(*kind, *style),
{
    let heading = match kind {
        Kind::Heading(_) => true,
        _ => false,
    };
    if style.link.is_some() {
        Style::Link
    } else if style.bold || heading {
        Style::Strong
    } else if style.italic {
        Style::Emphasis
    } else {
        Style::Plain
    }
}

fn push_lead(document: &mut Document, kind: &Kind)
    ensures
        forall|pieces: Seq<(Seq<char>, Style)>| #[trigger]
            made_of(*old(document), pieces) ==> made_of(*final(document), pieces + lead(*kind)),
{
    let ghost before = *document;
    match kind {
        Kind::Item { depth, .. } => {
            let indent = text::repeat_text("  ", *depth as usize + 1);
            document.push(indent.as_str(), Style::Bullet);
            document.push("• ", Style::Bullet);
            assert forall|pieces: Seq<(Seq<char>, Style)>| #[trigger]
                made_of(before, pieces) implies made_of(*document, pieces + lead(*kind)) by {
                assert(pieces + lead(*kind) =~= pieces.push((indent@, Style::Bullet)).push(
                    ("• "@, Style::Bullet),
                ));
            }
        },
        Kind::Quote(depth) => {
            let marks: usize = if *depth < 1 {
                1
            } else {
                *depth as usize
            };
            let quote = text::repeat_text("> ", marks);
            document.push(quote.as_str(), Style::Emphasis);
            assert forall|pieces: Seq<(Seq<char>, Style)>| #[trigger]
                made_of(before, pieces) implies made_of(*document, pieces + lead(*kind)) by {
                assert(pieces + lead(*kind) =~= pieces.push((quote@, Style::Emphasis)));
            }
        },
        _ => {
            assert forall|pieces: Seq<(Seq<char>, Style)>| #[trigger]
                made_of(before, pieces) implies made_of(*document, pieces + lead(*kind)) by {
                assert(pieces + lead(*kind) =~= pieces);
            }
        },
    }
}

/// The styled document of a pasted body: the styles in a line survive; sizes, colours and margins
/// do not.
pub fn paste(blocks: &Vec<Block>) -> (r: Document)
    ensures
        made_of(r, pasted_pieces(blocks@, blocks@.len() as int)),
        well_laid(r.text@, r.spans@),
{
    let mut out = Document::empty();
    let mut i: usize = 0;
    while i < blocks.len()
        invariant
            i <= blocks.len(),
            made_of(out, pasted_pieces(blocks@, i as int)),
        decreases blocks.len() - i,
    {
        let block = &blocks[i];
        let ghost before = pasted_pieces(blocks@, i as int);
        push_lead(&mut out, &block.kind);
        let mut k: usize = 0;
        while k < block.runs.len()
            invariant
                k <= block.runs.len(),
                made_of(out, before + run_pieces(*block, k as int)),
            decreases block.runs.len() - k,
        {
            let run = &block.runs[k];
            let style = style_of(&block.kind, &run.style);
            out.push(run.text.as_str(), style);
            assert((before + run_pieces(*block, k as int)).push((run.text@, style)) =~= before
                + run_pieces(*block, k + 1));
            k = k + 1;
        }
        if block.runs.len() > 0 {
            out.push("\n", Style::Plain);
            assert((before + run_pieces(*block, k as int)).push(("\n"@, Style::Plain)) =~= before
                + block_pieces(*block));
        }
        i = i + 1;
    }
    proof {
        fragments_are_well_laid(out, pasted_pieces(blocks@, blocks@.len() as int));
    }
    out
}

// ---------------------------------------------------------------------------------------------
// The run
// ---------------------------------------------------------------------------------------------

/// How many frames are measured in each regime.
pub const FRAMES: usize = 240;

/// How many frames are thrown away first: the first layout pays for loading the fonts.
pub const WARMUP: usize = 20;

/// How many lines are measured on where nothing is said.
pub const LINES: usize = 200;

/// How many lines to measure on: what a word says, where it says a number.
pub fn lines(word: Option<&str>) -> (r: usize)
    ensures
        r == match word {
            Some(word) => match text::number_up_to(word@, usize::MAX as nat) {
                Some(n) => n as usize,
                None => LINES,
            },
            None => LINES,
        },
{
    match word {
        Some(word) => match text::parse_up_to(word, usize::MAX as u64) {
            Some(n) => n as usize,
            None => LINES,
        },
        None => LINES,
    }
}

/// Where the run stands.
#[derive(Debug, Clone, Copy, PartialEq, Eq, Structural)]
pub enum Phase {
    Warmup,
    /// Nothing moves.
    Idle,
    /// A character at each frame.
    Typing,
    /// The same on a document four times as long: a cost that does not follow the length of the
    /// document would measure nothing.
    TypingBig,
    /// Fifty kibibytes at once.
    Pasting,
    Done,
}

/// The regime that a frame is counted in.
#[derive(Debug, Clone, Copy, PartialEq, Eq, Structural)]
pub enum Regime {
    Idle,
    Typing,
    TypingBig,
}

/// What is done after a frame.
#[derive(Debug, Clone, Copy, PartialEq, Eq, Structural)]
pub enum Step {
    /// The frame is thrown away.
    Wait,
    /// The frame is counted.
    Count(Regime),
    /// The paste is to be made, and handed to `paste_done`.
    Paste,
    /// The numbers are given, and the window closes.
    Report,
}

/// The run.
#[derive(Debug)]
pub struct Probe {
    pub document: Document,
    pub phase: Phase,
    pub frames: usize,
    pub lines: usize,
    /// The characters of the measured document, counted when it is made: the paste replaces it.
    pub glyphs: usize,
    pub glyphs_big: usize,
    pub paste_glyphs: usize,
}

/// Whether a run can go on.
pub open spec fn sound(it: Probe) -> bool {
    &&& well_laid(it.document.text@, it.document.spans@)
    &&& it.frames <= FRAMES
    &&& it.lines <= usize::MAX / 4
}

/// The document of a run after a character was typed in the middle of it.
pub open spec fn typed(before: Document, after: Document) -> bool {
    &&& after.text@ == before.text@.insert(middle_chars(before.text@) as int, 'é')
    &&& after.spans@.len() == before.spans@.len()
    &&& forall|i: int|
        0 <= i < before.spans@.len() ==> #[trigger] after.spans@[i] == moved(
            before.spans@[i],
            utf8::byte_len(before.text@.take(middle_chars(before.text@) as int)) as int,
            utf8::char_width('é') as int,
        )
}

/// What a frame does to a run.
pub open spec fn framed(pre: Probe, post: Probe, step: Step) -> bool {
    let over = pre.frames + 1 > FRAMES;
    let counted = if over {
        0
    } else {
        pre.frames + 1
    };
    &&& post.lines == pre.lines
    &&& post.glyphs == pre.glyphs
    &&& post.paste_glyphs == pre.paste_glyphs
    &&& match pre.phase {
        Phase::Warmup => {
            let warm = pre.frames + 1 > WARMUP;
            &&& step == Step::Wait
            &&& post.document == pre.document
            &&& post.glyphs_big == pre.glyphs_big
            &&& post.phase == if warm {
                Phase::Idle
            } else {
                Phase::Warmup
            }
            &&& post.frames == if warm {
                0
            } else {
                pre.frames + 1
            }
        },
        Phase::Idle => {
            &&& step == Step::Count(Regime::Idle)
            &&& post.document == pre.document
            &&& post.glyphs_big == pre.glyphs_big
            &&& post.phase == if over {
                Phase::Typing
            } else {
                Phase::Idle
            }
            &&& post.frames == counted
        },
        Phase::Typing => {
            &&& step == Step::Count(Regime::Typing)
            &&& post.frames == counted
            &&& if over {
                &&& post.phase == Phase::TypingBig
                &&& made_of(post.document, measured(pre.lines * 4))
                &&& post.glyphs_big == post.document.text@.len()
            } else {
                &&& post.phase == Phase::Typing
                &&& typed(pre.document, post.document)
                &&& post.glyphs_big == pre.glyphs_big
            }
        },
        Phase::TypingBig => {
            &&& step == Step::Count(Regime::TypingBig)
            &&& typed(pre.document, post.document)
            &&& post.glyphs_big == pre.glyphs_big
            &&& post.phase == if over {
                Phase::Pasting
            } else {
                Phase::TypingBig
            }
            &&& post.frames == counted
        },
        Phase::Pasting => {
            &&& step == Step::Paste
            &&& post == pre
        },
        Phase::Done => {
            &&& step == Step::Report
            &&& post == pre
        },
    }
}

impl Probe {
    /// A run on a document of so many lines.
    pub fn new(lines: usize) -> (r: Probe)
        requires
            lines <= usize::MAX / 4,
        ensures
            sound(r),
            made_of(r.document, measured(lines as int)),
            r.phase == Phase::Warmup,
            r.frames == 0,
            r.lines == lines,
            r.glyphs == r.document.text@.len(),
            r.glyphs_big == 0,
            r.paste_glyphs == 0,
    {
        let document = Document::generated(lines);
        let glyphs: usize = document.glyphs();
        Probe {
            document,
            phase: Phase::Warmup,
            frames: 0,
            lines,
            glyphs,
            glyphs_big: 0,
            paste_glyphs: 0,
        }
    }

    /// A frame was drawn.
    pub fn frame(&mut self) -> (step: Step)
        requires
            sound(*old(self)),
        ensures
            sound(*final(self)),
            framed(*old(self), *final(self), step),
    {
        let over = self.frames + 1 > FRAMES;
        let counted: usize = if over {
            0
        } else {
            self.frames + 1
        };
        match self.phase {
            Phase::Warmup => {
                if self.frames + 1 > WARMUP {
                    self.phase = Phase::Idle;
                    self.frames = 0;
                } else {
                    self.frames = self.frames + 1;
                }
                Step::Wait
            },
            Phase::Idle => {
                if over {
                    self.phase = Phase::Typing;
                }
                self.frames = counted;
                Step::Count(Regime::Idle)
            },
            Phase::Typing => {
                if over {
                    self.document = Document::generated(self.lines * 4);
                    self.glyphs_big = self.document.glyphs();
                    self.phase = Phase::TypingBig;
                } else {
                    self.document.type_one('é');
                }
                self.frames = counted;
                Step::Count(Regime::Typing)
            },
            Phase::TypingBig => {
                self.document.type_one('é');
                if over {
                    self.phase = Phase::Pasting;
                }
                self.frames = counted;
                Step::Count(Regime::TypingBig)
            },
            Phase::Pasting => Step::Paste,
            Phase::Done => Step::Report,
        }
    }

    /// The paste was made.
    pub fn paste_done(&mut self, document: Document)
        requires
            sound(*old(self)),
            well_laid(document.text@, document.spans@),
        ensures
            sound(*final(self)),
            *final(self) == (Probe {
                paste_glyphs: final(self).paste_glyphs,
                document,
                phase: Phase::Done,
                ..*old(self)
            }),
            final(self).paste_glyphs == document.text@.len(),
    {
        self.paste_glyphs = document.glyphs();
        self.document = document;
        self.phase = Phase::Done;
    }
}

/// The characters that are reported are those of the document that was measured: no frame changes
/// their number, whatever it does to the document.
pub proof fn the_measured_length_is_kept(pre: Probe, post: Probe, step: Step)
    requires
        framed(pre, post, step),
    ensures
        post.glyphs == pre.glyphs,
{
}

} // verus!
