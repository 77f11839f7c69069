//! How values read in a log: a variant or a structure by its name, with its fields.
use crate::compose::Compose;
use crate::dto::Attached;
use crate::settings;
use crate::settings::SubmissionForm;
use crate::signature::{Block, Document, Span, Style};
use crate::text;
use vstd::prelude::*;
use vstd::string::*;

verus! {

// ---------------------------------------------------------------------------------------------
// Plain values
// ---------------------------------------------------------------------------------------------

/// A flag.
pub open spec fn flag_text(b: bool) -> Seq<char> {
    if b {
        "true"@
    } else {
        "false"@
    }
}

/// What stands in an optional value, where something does.
pub open spec fn some_text(inside: Seq<char>) -> Seq<char> {
    "Some("@ + inside + ")"@
}

/// An optional text.
pub open spec fn opt_words_text(o: Option<String>) -> Seq<char> {
    match o {
        Some(s) => some_text(settings::debug_of(s@)),
        None => "None"@,
    }
}

/// An optional number.
pub open spec fn opt_number_text(o: Option<i64>) -> Seq<char> {
    match o {
        Some(n) => some_text(text::signed_dec(n as int)),
        None => "None"@,
    }
}

/// A list of values that are printed already.
pub open spec fn list_text(parts: Seq<Seq<char>>) -> Seq<char> {
    "["@ + text::joined(parts, ", "@) + "]"@
}

/// A value with one field.
pub open spec fn one_field(name: Seq<char>, field: Seq<char>, value: Seq<char>) -> Seq<char> {
    name + " { "@ + field + ": "@ + value + " }"@
}

/// A value with two fields.
pub open spec fn two_fields(
    name: Seq<char>,
    a: (Seq<char>, Seq<char>),
    b: (Seq<char>, Seq<char>),
) -> Seq<char> {
    name + " { "@ + a.0 + ": "@ + a.1 + ", "@ + b.0 + ": "@ + b.1 + " }"@
}

/// A value with three fields.
pub open spec fn three_fields(
    name: Seq<char>,
    a: (Seq<char>, Seq<char>),
    b: (Seq<char>, Seq<char>),
    c: (Seq<char>, Seq<char>),
) -> Seq<char> {
    name + " { "@ + a.0 + ": "@ + a.1 + ", "@ + b.0 + ": "@ + b.1 + ", "@ + c.0 + ": "@ + c.1
        + " }"@
}

/// A value that holds another.
pub open spec fn around(name: Seq<char>, inside: Seq<char>) -> Seq<char> {
    name + "("@ + inside + ")"@
}

/// A flag.
pub fn flag(b: bool) -> (r: &'static str)
    ensures
        r@ == flag_text(b),
{
    if b {
        "true"
    } else {
        "false"
    }
}

/// A value that holds another.
pub fn wrap(name: &str, inside: &str) -> (r: String)
    ensures
        r@ == around(name@, inside@),
{
    let mut out = name.to_owned();
    out.append("(");
    out.append(inside);
    out.append(")");
    out
}

fn some(inside: &str) -> (r: String)
    ensures
        r@ == some_text(inside@),
{
    let mut out = "Some(".to_owned();
    out.append(inside);
    out.append(")");
    out
}

/// An optional text.
pub fn opt_words(o: &Option<String>) -> (r: String)
    ensures
        r@ == opt_words_text(*o),
{
    match o {
        Some(s) => some(settings::debug(s.as_str()).as_str()),
        None => "None".to_owned(),
    }
}

/// An optional number.
pub fn opt_number(o: Option<i64>) -> (r: String)
    ensures
        r@ == opt_number_text(o),
{
    match o {
        Some(n) => some(text::decimal_signed(n).as_str()),
        None => "None".to_owned(),
    }
}

fn list(parts: &Vec<String>) -> (r: String)
    ensures
        r@ == list_text(text::texts(parts@)),
{
    let mut out = "[".to_owned();
    out.append(text::join(parts, ", ").as_str());
    out.append("]");
    out
}

/// A value with one field.
pub fn one(name: &str, field: &str, value: &str) -> (r: String)
    ensures
        r@ == one_field(name@, field@, value@),
{
    let mut out = name.to_owned();
    out.append(" { ");
    out.append(field);
    out.append(": ");
    out.append(value);
    out.append(" }");
    out
}

/// A value with two fields.
pub fn two(name: &str, a: (&str, &str), b: (&str, &str)) -> (r: String)
    ensures
        r@ == two_fields(name@, (a.0@, a.1@), (b.0@, b.1@)),
{
    let mut out = name.to_owned();
    out.append(" { ");
    out.append(a.0);
    out.append(": ");
    out.append(a.1);
    out.append(", ");
    out.append(b.0);
    out.append(": ");
    out.append(b.1);
    out.append(" }");
    out
}

/// A value with three fields.
pub fn three(name: &str, a: (&str, &str), b: (&str, &str), c: (&str, &str)) -> (r: String)
    ensures
        r@ == three_fields(name@, (a.0@, a.1@), (b.0@, b.1@), (c.0@, c.1@)),
{
    let mut out = name.to_owned();
    out.append(" { ");
    out.append(a.0);
    out.append(": ");
    out.append(a.1);
    out.append(", ");
    out.append(b.0);
    out.append(": ");
    out.append(b.1);
    out.append(", ");
    out.append(c.0);
    out.append(": ");
    out.append(c.1);
    out.append(" }");
    out
}

// ---------------------------------------------------------------------------------------------
// A message that is being written
// ---------------------------------------------------------------------------------------------

/// A list of texts.
pub open spec fn words_list_text(v: Seq<String>) -> Seq<char> {
    list_text(Seq::new(v.len(), |i: int| settings::debug_of(v[i]@)))
}

/// A file in the store.
pub open spec fn attached_text(file: Attached) -> Seq<char> {
    three_fields(
        "Attached"@,
        ("filename"@, settings::debug_of(file.filename@)),
        ("blob"@, settings::debug_of(file.blob@)),
        ("size"@, text::dec(file.size as nat)),
    )
}

/// A list of files in the store.
pub open spec fn files_text(files: Seq<Attached>) -> Seq<char> {
    list_text(Seq::new(files.len(), |i: int| attached_text(files[i])))
}

/// A message that is being written.
pub open spec fn compose_text(it: Compose) -> Seq<char> {
    "Compose { account: "@ + text::signed_dec(it.account as int) + ", to: "@ + settings::debug_of(
        it.to@,
    ) + ", cc: "@ + settings::debug_of(it.cc@) + ", bcc: "@ + settings::debug_of(it.bcc@)
        + ", subject: "@ + settings::debug_of(it.subject@) + ", text: "@ + settings::debug_of(
        it.text@,
    ) + ", in_reply_to: "@ + opt_words_text(it.in_reply_to) + ", references: "@ + words_list_text(
        it.references@,
    ) + ", attachments: "@ + files_text(it.attachments@) + ", sign: "@ + flag_text(it.sign)
        + ", draft: "@ + opt_number_text(it.draft) + " }"@
}

fn words_list(v: &Vec<String>) -> (r: String)
    ensures
        r@ == words_list_text(v@),
{
    let ghost all = Seq::new(v@.len(), |i: int| settings::debug_of(v@[i]@));
    let mut parts: Vec<String> = Vec::new();
    let mut i: usize = 0;
    while i < v.len()
        invariant
            i <= v.len(),
            all == Seq::new(v@.len(), |i: int| settings::debug_of(v@[i]@)),
            text::texts(parts@) == all.take(i as int),
        decreases v.len() - i,
    {
        let ghost before = text::texts(parts@);
        parts.push(settings::debug(v[i].as_str()));
        assert(text::texts(parts@) == before.push(all[i as int]));
        i = i + 1;
    }
    assert(all.take(i as int) == all);
    list(&parts)
}

fn attached(file: &Attached) -> (r: String)
    ensures
        r@ == attached_text(*file),
{
    three(
        "Attached",
        ("filename", settings::debug(file.filename.as_str()).as_str()),
        ("blob", settings::debug(file.blob.as_str()).as_str()),
        ("size", text::decimal(file.size).as_str()),
    )
}

fn files(v: &Vec<Attached>) -> (r: String)
    ensures
        r@ == files_text(v@),
{
    let ghost all = Seq::new(v@.len(), |i: int| attached_text(v@[i]));
    let mut parts: Vec<String> = Vec::new();
    let mut i: usize = 0;
    while i < v.len()
        invariant
            i <= v.len(),
            all == Seq::new(v@.len(), |i: int| attached_text(v@[i])),
            text::texts(parts@) == all.take(i as int),
        decreases v.len() - i,
    {
        let ghost before = text::texts(parts@);
        parts.push(attached(&v[i]));
        assert(text::texts(parts@) == before.push(all[i as int]));
        i = i + 1;
    }
    assert(all.take(i as int) == all);
    list(&parts)
}

/// A message that is being written.
pub fn compose(it: &Compose) -> (r: String)
    ensures
        r@ == compose_text(*it),
{
    let mut out = "Compose { account: ".to_owned();
    out.append(text::decimal_signed(it.account).as_str());
    out.append(", to: ");
    out.append(settings::debug(it.to.as_str()).as_str());
    out.append(", cc: ");
    out.append(settings::debug(it.cc.as_str()).as_str());
    out.append(", bcc: ");
    out.append(settings::debug(it.bcc.as_str()).as_str());
    out.append(", subject: ");
    out.append(settings::debug(it.subject.as_str()).as_str());
    out.append(", text: ");
    out.append(settings::debug(it.text.as_str()).as_str());
    out.append(", in_reply_to: ");
    out.append(opt_words(&it.in_reply_to).as_str());
    out.append(", references: ");
    out.append(words_list(&it.references).as_str());
    out.append(", attachments: ");
    out.append(files(&it.attachments).as_str());
    out.append(", sign: ");
    out.append(flag(it.sign));
    out.append(", draft: ");
    out.append(opt_number(it.draft).as_str());
    out.append(" }");
    out
}

// ---------------------------------------------------------------------------------------------
// A signature
// ---------------------------------------------------------------------------------------------

/// A style.
pub open spec fn style_text(style: Style) -> Seq<char> {
    three_fields(
        "Style"@,
        ("bold"@, flag_text(style.bold)),
        ("italic"@, flag_text(style.italic)),
        ("link"@, opt_words_text(style.link)),
    )
}

/// A stretch of text that carries a style.
pub open spec fn span_text(span: Span) -> Seq<char> {
    three_fields(
        "Span"@,
        ("at"@, text::dec(span.at as nat)),
        ("len"@, text::dec(span.len as nat)),
        ("style"@, style_text(span.style)),
    )
}

/// The nature of a line.
pub open spec fn block_text(block: Block) -> Seq<char> {
    match block {
        Block::Paragraph => "Paragraph"@,
        Block::Bullet => "Bullet"@,
    }
}

/// A styled text.
pub open spec fn document_text(document: Document) -> Seq<char> {
    three_fields(
        "Document"@,
        ("text"@, settings::debug_of(document.text@)),
        (
            "spans"@,
            list_text(Seq::new(document.spans@.len(), |i: int| span_text(document.spans@[i]))),
        ),
        (
            "blocks"@,
            list_text(Seq::new(document.blocks@.len(), |i: int| block_text(document.blocks@[i]))),
        ),
    )
}

/// An optional styled text.
pub open spec fn opt_document_text(o: Option<Document>) -> Seq<char> {
    match o {
        Some(document) => some_text(document_text(document)),
        None => "None"@,
    }
}

fn style(it: &Style) -> (r: String)
    ensures
        r@ == style_text(*it),
{
    three(
        "Style",
        ("bold", flag(it.bold)),
        ("italic", flag(it.italic)),
        ("link", opt_words(&it.link).as_str()),
    )
}

fn span(it: &Span) -> (r: String)
    ensures
        r@ == span_text(*it),
{
    three(
        "Span",
        ("at", text::decimal_usize(it.at).as_str()),
        ("len", text::decimal_usize(it.len).as_str()),
        ("style", style(&it.style).as_str()),
    )
}

fn spans(v: &Vec<Span>) -> (r: String)
    ensures
        r@ == list_text(Seq::new(v@.len(), |i: int| span_text(v@[i]))),
{
    let ghost all = Seq::new(v@.len(), |i: int| span_text(v@[i]));
    let mut parts: Vec<String> = Vec::new();
    let mut i: usize = 0;
    while i < v.len()
        invariant
            i <= v.len(),
            all == Seq::new(v@.len(), |i: int| span_text(v@[i])),
            text::texts(parts@) == all.take(i as int),
        decreases v.len() - i,
    {
        let ghost before = text::texts(parts@);
        parts.push(span(&v[i]));
        assert(text::texts(parts@) == before.push(all[i as int]));
        i = i + 1;
    }
    assert(all.take(i as int) == all);
    list(&parts)
}

fn blocks(v: &Vec<Block>) -> (r: String)
    ensures
        r@ == list_text(Seq::new(v@.len(), |i: int| block_text(v@[i]))),
{
    let ghost all = Seq::new(v@.len(), |i: int| block_text(v@[i]));
    let mut parts: Vec<String> = Vec::new();
    let mut i: usize = 0;
    while i < v.len()
        invariant
            i <= v.len(),
            all == Seq::new(v@.len(), |i: int| block_text(v@[i])),
            text::texts(parts@) == all.take(i as int),
        decreases v.len() - i,
    {
        let ghost before = text::texts(parts@);
        parts.push(
            match v[i] {
                Block::Paragraph => "Paragraph".to_owned(),
                Block::Bullet => "Bullet".to_owned(),
            },
        );
        assert(text::texts(parts@) == before.push(all[i as int]));
        i = i + 1;
    }
    assert(all.take(i as int) == all);
    list(&parts)
}

/// An optional styled text.
pub fn opt_document(o: &Option<Document>) -> (r: String)
    ensures
        r@ == opt_document_text(*o),
{
    match o {
        Some(document) => some(
            three(
                "Document",
                ("text", settings::debug(document.text.as_str()).as_str()),
                ("spans", spans(&document.spans).as_str()),
                ("blocks", blocks(&document.blocks).as_str()),
            ).as_str(),
        ),
        None => "None".to_owned(),
    }
}

// ---------------------------------------------------------------------------------------------
// A form without a secret
// ---------------------------------------------------------------------------------------------

/// A submission form, which holds no secret.
pub open spec fn submission_text(form: SubmissionForm) -> Seq<char> {
    "SubmissionForm { account: "@ + text::signed_dec(form.account as int) + ", host: "@
        + settings::debug_of(form.host@) + ", port: "@ + settings::debug_of(form.port@)
        + ", security: "@ + settings::debug_of(form.security@) + " }"@
}

/// A submission form.
pub fn submission(form: &SubmissionForm) -> (r: String)
    ensures
        r@ == submission_text(*form),
{
    let mut out = "SubmissionForm { account: ".to_owned();
    out.append(text::decimal_signed(form.account).as_str());
    out.append(", host: ");
    out.append(settings::debug(form.host.as_str()).as_str());
    out.append(", port: ");
    out.append(settings::debug(form.port.as_str()).as_str());
    out.append(", security: ");
    out.append(settings::debug(form.security.as_str()).as_str());
    out.append(" }");
    out
}

} // verus!
