//! The body of a message, in blocks: what is announced of an image, and what a paste keeps.
use crate::text;
use vstd::prelude::*;
use vstd::string::*;

verus! {

/// What a stretch of a body carries.
#[derive(Debug)]
pub struct RunStyle {
    pub bold: bool,
    pub italic: bool,
    pub code: bool,
    pub strike: bool,
    pub link: Option<String>,
}

/// A stretch of a body in one style.
#[derive(Debug)]
pub struct Run {
    pub text: String,
    pub style: RunStyle,
}

/// Where an image comes from.
#[derive(Debug, Clone, Copy, PartialEq, Eq, Structural)]
pub enum ImageSource {
    /// The message carries it.
    Embedded,
    /// It would have to be fetched.
    Remote,
}

/// What a block is.
#[derive(Debug)]
pub enum Kind {
    Rule,
    Image { alt: String, source: Option<ImageSource> },
    Heading(u8),
    Quote(u8),
    Item { depth: u8, ordered: bool },
    Pre,
    Paragraph,
}

/// A block of a body.
#[derive(Debug)]
pub struct Block {
    pub kind: Kind,
    pub runs: Vec<Run>,
}

/// What is announced of an image, which is never loaded.
pub open spec fn image_text(alt: Seq<char>, source: Option<ImageSource>) -> Seq<char> {
    if text::trimmed(alt).len() == 0 {
        match source {
            Some(ImageSource::Embedded) => "[image embarquée]"@,
            Some(ImageSource::Remote) => "[image distante, non chargée]"@,
            None => "[image bloquée]"@,
        }
    } else {
        match source {
            Some(ImageSource::Embedded) => "[image : "@ + alt + "]"@,
            Some(ImageSource::Remote) => "[image distante : "@ + alt + "]"@,
            None => "[image bloquée : "@ + alt + "]"@,
        }
    }
}

/// What is announced of an image.
pub fn image_label(alt: &str, source: Option<ImageSource>) -> (r: String)
    ensures
        r@ == image_text(alt@, source),
{
    if text::trim(alt).as_str().unicode_len() == 0 {
        match source {
            Some(ImageSource::Embedded) => "[image embarquée]".to_owned(),
            Some(ImageSource::Remote) => "[image distante, non chargée]".to_owned(),
            None => "[image bloquée]".to_owned(),
        }
    } else {
        let mut out = match source {
            Some(ImageSource::Embedded) => "[image : ".to_owned(),
            Some(ImageSource::Remote) => "[image distante : ".to_owned(),
            None => "[image bloquée : ".to_owned(),
        };
        out.append(alt);
        out.append("]");
        out
    }
}

/// What is drawn before the runs of a block, how far it is indented, and whether it is a title.
#[derive(Debug, Clone, Copy, PartialEq, Eq, Structural)]
pub enum Drawing {
    Rule,
    Image,
    /// A title, of a level from one to three: deeper ones are drawn as the third.
    Title(u8),
    /// A paragraph behind as many bars.
    Quote(u8),
    /// An item, at a depth, behind a dash where the list is ordered and a bullet otherwise.
    Item { depth: u8, ordered: bool },
    Text,
}

/// How a block is drawn.
pub open spec fn drawing(kind: Kind) -> Drawing {
    match kind {
        Kind::Rule => Drawing::Rule,
        Kind::Image { alt: _, source: _ } => Drawing::Image,
        Kind::Heading(level) => Drawing::Title(
            if level == 1 || level == 2 {
                level
            } else {
                3
            },
        ),
        Kind::Quote(depth) => Drawing::Quote(depth),
        Kind::Item { depth, ordered } => Drawing::Item { depth, ordered },
        Kind::Pre => Drawing::Text,
        Kind::Paragraph => Drawing::Text,
    }
}

/// How a block is drawn.
pub fn draw(kind: &Kind) -> (r: Drawing)
    ensures
        r == drawing(*kind),
{
    match kind {
        Kind::Rule => Drawing::Rule,
        Kind::Image { .. } => Drawing::Image,
        Kind::Heading(level) => Drawing::Title(
            if *level == 1 || *level == 2 {
                *level
            } else {
                3
            },
        ),
        Kind::Quote(depth) => Drawing::Quote(*depth),
        Kind::Item { depth, ordered } => Drawing::Item { depth: *depth, ordered: *ordered },
        Kind::Pre => Drawing::Text,
        Kind::Paragraph => Drawing::Text,
    }
}

} // verus!
