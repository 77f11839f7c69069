//! The source of a message: which one is read, and what is printed of it.
use crate::dto::MessageSource;
use crate::protocol::Method;
use crate::text;
use vstd::prelude::*;
use vstd::string::*;

verus! {

/// What is read.
#[derive(Debug, Clone, Copy, PartialEq, Eq, Structural)]
pub enum Target {
    /// A received message, by its number in the index.
    Message(i64),
    /// A line of the sending queue, by its number there.
    Outgoing(i64),
}

/// How a source is named, by which method it is asked for, and under which number.
pub struct Named {
    pub what: String,
    pub method: Method,
    pub id: i64,
}

impl Target {
    /// How the source is named on the screen.
    pub open spec fn what(self) -> Seq<char> {
        match self {
            Target::Message(id) => "message #"@ + text::signed_dec(id as int),
            Target::Outgoing(id) => "file d'envoi #"@ + text::signed_dec(id as int),
        }
    }

    /// How the source is named, and how it is asked for.
    pub fn named(self) -> (r: Named)
        ensures
            r.what@ == self.what(),
            match self {
                Target::Message(id) => r.method == Method::MessagesSource && r.id == id,
                Target::Outgoing(id) => r.method == Method::OutboxSource && r.id == id,
            },
    {
        match self {
            Target::Message(id) => {
                let mut what = "message #".to_owned();
                what.append(text::decimal_signed(id).as_str());
                Named { what, method: Method::MessagesSource, id }
            },
            Target::Outgoing(id) => {
                let mut what = "file d'envoi #".to_owned();
                what.append(text::decimal_signed(id).as_str());
                Named { what, method: Method::OutboxSource, id }
            },
        }
    }
}

/// What is read, from the two options that exclude one another. Without either there is no
/// default: a message that nobody asked for would be read.
pub fn source_target(id: Option<i64>, outbox: Option<i64>) -> (r: Result<Target, String>)
    ensures
        match (id, outbox) {
            (Some(id), None) => r == Ok::<Target, String>(Target::Message(id)),
            (None, Some(id)) => r == Ok::<Target, String>(Target::Outgoing(id)),
            _ => r is Err && r->Err_0@
                == "indiquer ce qu'il faut lire : --id <message> ou --outbox <ligne>"@,
        },
{
    match (id, outbox) {
        (Some(id), None) => Ok(Target::Message(id)),
        (None, Some(id)) => Ok(Target::Outgoing(id)),
        _ => Err("indiquer ce qu'il faut lire : --id <message> ou --outbox <ligne>".to_owned()),
    }
}

/// What is said of a source that was not found, here or by a daemon.
pub fn missing(what: &str, daemon: bool) -> (r: String)
    ensures
        r@ == what@ + if daemon {
            " : introuvable côté démon, ou son contenu manque du magasin"@
        } else {
            " : introuvable, ou son contenu manque du magasin"@
        },
{
    let mut out = what.to_owned();
    out.append(
        if daemon {
            " : introuvable côté démon, ou son contenu manque du magasin"
        } else {
            " : introuvable, ou son contenu manque du magasin"
        },
    );
    out
}

/// The reservations on a source: they come before it, for nobody reads what follows a thousand
/// lines.
pub open spec fn reservations(what: Seq<char>, source: MessageSource, size: Seq<char>) -> Seq<char> {
    let s0 = what + " — "@ + size + "\n"@;
    let s1 = if source.invalid_sequences > 0 {
        s0 + "  "@ + text::dec(source.invalid_sequences as nat)
            + " séquence(s) d'octets non UTF-8, rendues par « \u{fffd} »\n"@
    } else {
        s0
    };
    let s2 = if source.escaped_controls > 0 {
        s1 + "  "@ + text::dec(source.escaped_controls as nat)
            + " caractère(s) de contrôle rendus visibles sous la forme \\xNN\n"@
    } else {
        s1
    };
    let s3 = if source.headers_truncated {
        s2 + "  en-têtes tronqués\n"@
    } else {
        s2
    };
    s3 + "\n"@
}

/// All that is printed of a source.
pub open spec fn printed(
    what: Seq<char>,
    source: MessageSource,
    size: Seq<char>,
    headers_only: bool,
) -> Seq<char> {
    let head = reservations(what, source, size) + source.headers@;
    if headers_only {
        head
    } else {
        let whole = head + "\n"@ + source.body@;
        if source.body_truncated {
            whole + "\n[corps tronqué — le message fait "@ + size + "]\n"@
        } else {
            whole
        }
    }
}

/// All that is printed of a source, where `size` is its size as it is to be shown.
pub fn print(what: &str, source: &MessageSource, size: &str, headers_only: bool) -> (r: String)
    ensures
        r@ == printed(what@, *source, size@, headers_only),
{
    let mut out = what.to_owned();
    out.append(" — ");
    out.append(size);
    out.append("\n");
    if source.invalid_sequences > 0 {
        out.append("  ");
        out.append(text::decimal_usize(source.invalid_sequences).as_str());
        out.append(" séquence(s) d'octets non UTF-8, rendues par « \u{fffd} »\n");
    }
    if source.escaped_controls > 0 {
        out.append("  ");
        out.append(text::decimal_usize(source.escaped_controls).as_str());
        out.append(" caractère(s) de contrôle rendus visibles sous la forme \\xNN\n");
    }
    if source.headers_truncated {
        out.append("  en-têtes tronqués\n");
    }
    out.append("\n");
    out.append(source.headers.as_str());
    if headers_only {
        return out;
    }
    out.append("\n");
    out.append(source.body.as_str());
    if source.body_truncated {
        out.append("\n[corps tronqué — le message fait ");
        out.append(size);
        out.append("]\n");
    }
    out
}

/// Both ways of reading a source print the same bytes of it: whatever is left out of the whole is
/// left out at its end.
pub proof fn the_headers_alone_begin_the_whole(
    what: Seq<char>,
    source: MessageSource,
    size: Seq<char>,
)
    ensures
        text::starts(printed(what, source, size, false), printed(what, source, size, true)),
{
    let head = reservations(what, source, size) + source.headers@;
    let whole = head + "\n"@ + source.body@;
    assert(whole.take(head.len() as int) == head);
    let cut = whole + "\n[corps tronqué — le message fait "@ + size + "]\n"@;
    assert(cut.take(head.len() as int) == head);
}

} // verus!
