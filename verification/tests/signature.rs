use mailclient::signature::{
    preview, sections, selected_fragments, set_link, toggle, toggle_bullets, Block, Document,
    Editor, Fragment, Outcome, Piece, Section, Span, Style, Toggle,
};
use mailclient::utf8::{byte_of, len_of, offsets};

#[derive(Clone, PartialEq, Debug)]
struct Carried {
    bold: bool,
    italic: bool,
    link: Option<String>,
}

/// A document whose styles are kept byte by byte.
struct Styled {
    text: String,
    styles: Vec<Carried>,
    selection: Option<(usize, usize)>,
}

fn plain() -> Carried {
    Carried {
        bold: false,
        italic: false,
        link: None,
    }
}

fn styled(text: &str, selection: Option<(usize, usize)>) -> Styled {
    Styled {
        text: text.to_owned(),
        styles: vec![plain(); text.len()],
        selection,
    }
}

impl Styled {
    fn fragments(&self) -> Vec<Fragment> {
        let mut out: Vec<Fragment> = Vec::new();
        let Some((from, to)) = self.selection else {
            return out;
        };
        let mut at = from;
        while at < to {
            let mut end = at;
            while end < to && self.styles[end] == self.styles[at] {
                end += 1;
            }
            out.push(Fragment {
                text: self.text[at..end].to_owned(),
                style: Style {
                    bold: self.styles[at].bold,
                    italic: self.styles[at].italic,
                    link: self.styles[at].link.clone(),
                },
            });
            at = end;
        }
        out
    }

    fn pieces(&self) -> Vec<Piece> {
        selected_fragments(self.selection, self.fragments())
    }

    fn apply(&mut self, pieces: Vec<Piece>) {
        for piece in pieces {
            for at in piece.from..piece.to {
                self.styles[at] = Carried {
                    bold: piece.style.bold,
                    italic: piece.style.italic,
                    link: piece.style.link.clone(),
                };
            }
        }
    }

    fn toggle(&mut self, what: Toggle) {
        let pieces = toggle(self.pieces(), what);
        self.apply(pieces);
    }

    fn set_link(&mut self, target: Option<&str>) {
        let pieces = set_link(self.pieces(), &target.map(ToOwned::to_owned));
        self.apply(pieces);
    }

    fn spans(&self) -> usize {
        let mut count = 0;
        for at in 0..self.styles.len() {
            let opens = at == 0 || self.styles[at] != self.styles[at - 1];
            if opens && self.styles[at] != plain() {
                count += 1;
            }
        }
        count
    }
}

fn bold(at: usize, len: usize) -> Span {
    Span {
        at,
        len,
        style: Style {
            bold: true,
            italic: false,
            link: None,
        },
    }
}

#[test]
fn a_byte_offset_is_not_a_character_count() {
    assert_eq!(byte_of("Éloïse", 0), 0);
    assert_eq!(byte_of("Éloïse", 1), 2, "« É » fait deux octets");
    assert_eq!(byte_of("Éloïse", 6), "Éloïse".len());
    assert_eq!(byte_of("Éloïse", 99), "Éloïse".len(), "au-delà : la fin");
    assert_eq!(byte_of("", 3), 0);
}

#[test]
fn bold_applies_to_the_selection_and_only_to_it() {
    let mut it = styled("Marie Dupont", Some((0, 5)));
    it.toggle(Toggle::Bold);
    assert!(it.styles[0].bold);
    assert!(!it.styles[6].bold);
}

#[test]
fn bold_on_an_already_bold_selection_removes_it() {
    let mut it = styled("Marie", Some((0, 5)));
    it.toggle(Toggle::Bold);
    assert!(it.styles[0].bold);
    it.toggle(Toggle::Bold);
    assert!(!it.styles[0].bold);
    assert_eq!(it.spans(), 0);
}

#[test]
fn a_half_bold_selection_becomes_entirely_bold() {
    let mut it = styled("Marie Dupont", Some((0, 5)));
    it.toggle(Toggle::Bold);
    it.selection = Some((0, 12));
    it.toggle(Toggle::Bold);
    assert!(it.styles[0].bold);
    assert!(it.styles[11].bold);
    assert_eq!(it.spans(), 1, "les deux moitiés n'ont pas fusionné");
}

#[test]
fn bolding_a_selection_that_contains_a_link_keeps_the_link() {
    let mut it = styled("voir notre site ici", Some((5, 15)));
    it.set_link(Some("https://exemple.fr"));
    it.selection = Some((0, 19));
    it.toggle(Toggle::Bold);
    assert!(it.styles[0].bold);
    assert!(it.styles[6].bold);
    assert_eq!(it.styles[6].link.as_deref(), Some("https://exemple.fr"));
}

#[test]
fn italic_and_bold_live_together() {
    let mut it = styled("les deux", Some((0, 8)));
    it.toggle(Toggle::Bold);
    it.toggle(Toggle::Italic);
    assert!(it.styles[0].bold);
    assert!(it.styles[0].italic);
}

#[test]
fn a_style_button_without_a_selection_does_nothing() {
    let mut it = styled("Marie", Some((3, 3)));
    it.toggle(Toggle::Bold);
    assert_eq!(it.spans(), 0);
    let mut it = styled("Marie", None);
    it.toggle(Toggle::Bold);
    assert_eq!(it.spans(), 0);
}

#[test]
fn a_link_can_be_removed_without_touching_the_rest_of_the_style() {
    let mut it = styled("ici", Some((0, 3)));
    it.toggle(Toggle::Bold);
    it.set_link(Some("https://exemple.fr"));
    it.set_link(None);
    assert_eq!(it.styles[0].link, None);
    assert!(it.styles[0].bold, "le gras est parti aussi");
}

fn change(document: &mut Document, lines: Vec<usize>) {
    for line in lines {
        document.blocks[line] = match document.blocks[line] {
            Block::Paragraph => Block::Bullet,
            Block::Bullet => Block::Paragraph,
        };
    }
}

#[test]
fn the_bullet_button_works_on_the_cursor_line_and_on_a_multi_line_selection() {
    let mut document = Document {
        text: "un\ndeux\ntrois".to_owned(),
        spans: Vec::new(),
        blocks: vec![Block::Paragraph, Block::Paragraph, Block::Paragraph],
    };
    let lines = toggle_bullets(&document, 1, 1);
    change(&mut document, lines);
    assert_eq!(
        document.blocks,
        vec![Block::Paragraph, Block::Bullet, Block::Paragraph]
    );

    let lines = toggle_bullets(&document, 0, 2);
    change(&mut document, lines);
    assert_eq!(
        document.blocks,
        vec![Block::Bullet, Block::Bullet, Block::Bullet],
        "une sélection mi-puces doit tout mettre en puces"
    );

    let lines = toggle_bullets(&document, 0, 2);
    change(&mut document, lines);
    assert_eq!(
        document.blocks,
        vec![Block::Paragraph, Block::Paragraph, Block::Paragraph],
        "et le second appui doit tout remettre en paragraphes"
    );
}

#[test]
fn the_layout_covers_the_text_it_was_given_exactly() {
    let document = Document {
        text: "Éloïse Durand\ndirectrice\nfin".to_owned(),
        spans: vec![bold(0, "Éloïse".len())],
        blocks: vec![Block::Paragraph, Block::Bullet, Block::Paragraph],
    };
    let drawn = sections(&document, &document.text);
    let mut at = 0usize;
    for section in &drawn {
        assert_eq!(section.from, at, "trou ou recouvrement");
        at = section.to;
    }
    assert_eq!(at, document.text.len(), "la fin du texte n'est pas couverte");
    assert_eq!(
        drawn[1],
        Section {
            from: 0,
            to: "Éloïse".len(),
            span: Some(0),
            indent: false
        }
    );
}

#[test]
fn the_layout_never_slices_a_character_even_when_the_buffer_is_ahead() {
    let document = Document {
        text: "été".to_owned(),
        spans: vec![bold(0, "été".len())],
        blocks: vec![Block::Paragraph],
    };
    for ahead in ["ét", "é", "", "étéx", "été\nligne", "e"] {
        let mut at = 0usize;
        for section in &sections(&document, ahead) {
            assert_eq!(section.from, at, "{ahead:?}");
            assert!(ahead.is_char_boundary(section.from), "{ahead:?}");
            assert!(ahead.is_char_boundary(section.to), "{ahead:?}");
            at = section.to;
        }
        assert_eq!(at, ahead.len(), "{ahead:?} : couverture incomplète");
    }
}

#[test]
fn a_bullet_line_is_indented_once_and_not_once_per_style() {
    let document = Document {
        text: "puce grasse ici".to_owned(),
        spans: vec![bold(5, 6)],
        blocks: vec![Block::Bullet],
    };
    let drawn = sections(&document, &document.text);
    let indented = drawn.iter().filter(|it| it.indent).count();
    assert_eq!(indented, 1, "{drawn:?}");
    assert!(drawn[0].indent);
}

#[test]
fn offsets_count_bytes_and_widths_add_up() {
    assert_eq!(offsets("aé€😀"), vec![0, 1, 3, 6, 10]);
    assert_eq!(len_of("aé€😀"), 10);
}

#[test]
fn the_toolbar_follows_the_selection_and_the_target() {
    let mut editor = Editor::new(3, None);
    assert_eq!(editor.account, 3);
    assert!(!editor.toolbar(true).styles);
    editor.buffer = "Éloïse".to_owned();
    editor.select(Some((4, 1)));
    assert_eq!(editor.selection, Some((2, 6)));
    assert!(editor.selected());
    assert!(editor.toolbar(true).link);
    editor.target = "exemple.fr".to_owned();
    assert!(editor.toolbar(false).refused);
    assert!(!editor.toolbar(false).link);
    editor.saving = true;
    assert!(!editor.toolbar(true).save);
    assert_eq!(Editor::outcome(true, true), Outcome::Cancel);
    assert_eq!(Editor::outcome(true, false), Outcome::Save);
    assert_eq!(Editor::outcome(false, false), Outcome::Idle);
}

#[test]
fn typing_goes_to_the_middle_and_a_paste_replaces_everything() {
    let mut editor = Editor::new(1, None);
    editor.buffer = "été".to_owned();
    editor.type_in_the_middle('x');
    assert_eq!(editor.buffer, "éxté");
    editor.paste(Document {
        text: "collé".to_owned(),
        spans: vec![bold(0, 2)],
        blocks: vec![Block::Paragraph],
    });
    assert_eq!(editor.buffer, "collé");
    assert_eq!(editor.glyphs(), 5);
    assert_eq!(editor.styles(), 1);
    assert_eq!(editor.selection, None);
}

#[test]
fn the_measured_document_has_four_styles_in_five_lines() {
    let editor = Editor::for_bench(5);
    assert_eq!(
        editor.buffer,
        "Cordialement, \nÉloïse Durand — directrice technique\nun élément de liste avec un peu de texte courant\nhttps://exemple.fr/une/page\nUne ligne de texte courant, assez longue pour que la mise en page ait quelque chose à faire dessus."
    );
    assert_eq!(editor.styles(), 3);
    assert_eq!(
        editor.document.blocks,
        vec![
            Block::Paragraph,
            Block::Paragraph,
            Block::Bullet,
            Block::Paragraph,
            Block::Paragraph
        ]
    );
}

#[test]
fn the_preview_marks_bullets_and_blanks() {
    let document = Document {
        text: "é\n\nfin".to_owned(),
        spans: Vec::new(),
        blocks: vec![Block::Bullet],
    };
    let lines = preview(&document);
    assert_eq!(lines.len(), 3);
    assert_eq!((lines[0].from, lines[0].to), (0, 2));
    assert!(lines[0].bullet && !lines[0].blank);
    assert_eq!((lines[1].from, lines[1].to), (3, 3));
    assert!(lines[1].blank && !lines[1].bullet);
    assert_eq!((lines[2].from, lines[2].to), (4, 7));
}
