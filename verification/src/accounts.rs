//! Accounts: how they read, how they send, and what declaring one needs.
//!
//! The functions here decide; they neither read a store nor touch a keyring. Where a keyring has
//! to be asked, its answer is an argument.
use crate::text;
use vstd::prelude::*;
use vstd::string::*;

verus! {

/// How a connection is encrypted. There is no clear mode.
#[derive(Debug, Clone, Copy, PartialEq, Eq, Structural)]
pub enum Security {
    /// Encrypted from the first byte.
    Tls,
    /// Encrypted after a negotiation.
    StartTls,
}

/// How an account proves who it is.
#[derive(Debug, Clone, Copy, PartialEq, Eq, Structural)]
pub enum AuthKind {
    Password,
    OAuth2,
}

/// Where the mail of an account comes from.
#[derive(Debug, Clone, Copy, PartialEq, Eq, Structural)]
pub enum AccountKind {
    Imap,
    /// Imported from files: no server.
    Imported,
}

/// A server, and how to present oneself to it.
#[derive(Debug)]
pub struct Server {
    pub host: String,
    pub port: u16,
    pub username: String,
    pub auth: AuthKind,
    pub security: Security,
}

/// An account, as the store holds it.
#[derive(Debug)]
pub struct FullAccount {
    pub id: i64,
    pub display_name: String,
    pub kind: AccountKind,
    /// Where it reads.
    pub server: Option<Server>,
    /// Where it sends.
    pub submission: Option<Server>,
    pub enabled: bool,
}

/// The mode that a word names.
pub open spec fn security_of(word: Seq<char>) -> Option<Security> {
    if word == "tls"@ {
        Some(Security::Tls)
    } else if word == "starttls"@ {
        Some(Security::StartTls)
    } else {
        None
    }
}

/// The mechanism that a word names.
pub open spec fn auth_of(word: Seq<char>) -> Option<AuthKind> {
    if word == "password"@ {
        Some(AuthKind::Password)
    } else if word == "oauth2"@ {
        Some(AuthKind::OAuth2)
    } else {
        None
    }
}

impl Security {
    /// The mode that a word names.
    pub fn parse(word: &str) -> (r: Option<Security>)
        ensures
            r == security_of(word@),
    {
        if text::same(word, "tls") {
            Some(Security::Tls)
        } else if text::same(word, "starttls") {
            Some(Security::StartTls)
        } else {
            None
        }
    }

    /// The word that names the mode.
    pub open spec fn word(self) -> Seq<char> {
        match self {
            Security::Tls => "tls"@,
            Security::StartTls => "starttls"@,
        }
    }

    /// The word that names the mode.
    pub fn as_str(self) -> (r: &'static str)
        ensures
            r@ == self.word(),
    {
        match self {
            Security::Tls => "tls",
            Security::StartTls => "starttls",
        }
    }

    /// The port on which mail is read in this mode.
    pub open spec fn reading_port(self) -> u16 {
        match self {
            Security::Tls => 993,
            Security::StartTls => 143,
        }
    }

    /// The port on which mail is read in this mode, where none is given.
    pub fn default_port(self) -> (r: u16)
        ensures
            r == self.reading_port(),
    {
        match self {
            Security::Tls => 993,
            Security::StartTls => 143,
        }
    }

    /// The port on which mail is submitted in this mode.
    pub open spec fn sending_port(self) -> u16 {
        match self {
            Security::Tls => 465,
            Security::StartTls => 587,
        }
    }

    /// The port on which mail is submitted in this mode, where none is given.
    pub fn submission_port(self) -> (r: u16)
        ensures
            r == self.sending_port(),
    {
        match self {
            Security::Tls => 465,
            Security::StartTls => 587,
        }
    }
}

impl AuthKind {
    /// The mechanism that a word names.
    pub fn parse(word: &str) -> (r: Option<AuthKind>)
        ensures
            r == auth_of(word@),
    {
        if text::same(word, "password") {
            Some(AuthKind::Password)
        } else if text::same(word, "oauth2") {
            Some(AuthKind::OAuth2)
        } else {
            None
        }
    }

    /// The word that names the mechanism.
    pub open spec fn word(self) -> Seq<char> {
        match self {
            AuthKind::Password => "password"@,
            AuthKind::OAuth2 => "oauth2"@,
        }
    }

    /// The word that names the mechanism.
    pub fn as_str(self) -> (r: &'static str)
        ensures
            r@ == self.word(),
    {
        match self {
            AuthKind::Password => "password",
            AuthKind::OAuth2 => "oauth2",
        }
    }
}

/// The word that names a mode, or a mechanism, names it and no other.
pub proof fn words_name_one_mode(security: Security, auth: AuthKind)
    ensures
        security_of(security.word()) == Some(security),
        auth_of(auth.word()) == Some(auth),
{
    reveal_strlit("tls");
    reveal_strlit("starttls");
    reveal_strlit("password");
    reveal_strlit("oauth2");
    assert("tls"@.len() != "starttls"@.len());
    assert("password"@.len() != "oauth2"@.len());
}

// ---------------------------------------------------------------------------------------------
// Ports
// ---------------------------------------------------------------------------------------------

/// The port that a text names: an optional plus sign, then digits, up to 65535.
pub open spec fn port_of(s: Seq<char>) -> Option<u16> {
    match text::number_up_to(s, 65535) {
        Some(n) => Some(n as u16),
        None => None,
    }
}

/// The port that a text names.
pub fn parse_port(s: &str) -> (r: Option<u16>)
    ensures
        r == port_of(s@),
{
    match text::parse_up_to(s, 65535) {
        Some(n) => Some(n as u16),
        None => None,
    }
}

/// The port of a form: the default of the mode where the field is blank.
pub open spec fn chosen_port(field: Seq<char>, default: u16) -> Option<u16> {
    if text::trimmed(field).len() == 0 {
        Some(default)
    } else {
        port_of(text::trimmed(field))
    }
}

/// The port of a form, or the text that is no port.
pub fn choose_port(field: &str, default: u16) -> (r: Result<u16, String>)
    ensures
        match r {
            Ok(port) => chosen_port(field@, default) == Some(port),
            Err(given) => chosen_port(field@, default) is None && given@ == text::trimmed(field@),
        },
{
    let given = text::trim(field);
    if given.as_str().unicode_len() == 0 {
        return Ok(default);
    }
    match parse_port(given.as_str()) {
        Some(port) => Ok(port),
        None => Err(given),
    }
}

// ---------------------------------------------------------------------------------------------
// Finding an account
// ---------------------------------------------------------------------------------------------

/// The rank of the first account with an identifier; the length of the list where none has it.
pub open spec fn rank_of(accounts: Seq<FullAccount>, id: i64) -> int
    decreases accounts.len(),
{
    if accounts.len() == 0 {
        0
    } else if accounts[0].id == id {
        0
    } else {
        1 + rank_of(accounts.drop_first(), id)
    }
}

/// What the rank of an account means.
pub proof fn the_rank_is_that_of_the_first(accounts: Seq<FullAccount>, id: i64)
    ensures
        0 <= rank_of(accounts, id) <= accounts.len(),
        rank_of(accounts, id) < accounts.len() ==> accounts[rank_of(accounts, id)].id == id,
        forall|i: int| 0 <= i < rank_of(accounts, id) ==> (#[trigger] accounts[i]).id != id,
    decreases accounts.len(),
{
    if accounts.len() > 0 && accounts[0].id != id {
        let rest = accounts.drop_first();
        the_rank_is_that_of_the_first(rest, id);
        assert forall|i: int| 0 <= i < rank_of(accounts, id) implies (#[trigger] accounts[i]).id
            != id by {
            if i > 0 {
                assert(accounts[i] == rest[i - 1]);
            }
        }
    }
}

/// The rank of the first account with an identifier.
pub fn find(accounts: &Vec<FullAccount>, id: i64) -> (r: Option<usize>)
    ensures
        match r {
            Some(i) => i == rank_of(accounts@, id) && i < accounts@.len(),
            None => rank_of(accounts@, id) == accounts@.len(),
        },
{
    let mut i: usize = 0;
    assert(accounts@.skip(0) == accounts@);
    while i < accounts.len()
        invariant
            i <= accounts.len(),
            rank_of(accounts@, id) == i + rank_of(accounts@.skip(i as int), id),
        decreases accounts.len() - i,
    {
        assert(accounts@.skip(i as int)[0] == accounts@[i as int]);
        if accounts[i].id == id {
            return Some(i);
        }
        assert(accounts@.skip(i as int).drop_first() == accounts@.skip(i + 1));
        i = i + 1;
    }
    None
}

// ---------------------------------------------------------------------------------------------
// Suggesting a submission host
// ---------------------------------------------------------------------------------------------

/// A plausible submission host, which is shown and never written: `smtp.` in the place of
/// `imap.`, or the host itself.
pub open spec fn suggestion(host: Seq<char>) -> Seq<char> {
    if text::starts(host, "imap."@) {
        "smtp."@ + host.skip("imap."@.len() as int)
    } else {
        host
    }
}

/// A plausible submission host for a reading host.
pub fn suggest_submission(imap_host: &str) -> (r: String)
    ensures
        r@ == suggestion(imap_host@),
{
    match text::strip_prefix(imap_host, "imap.") {
        Some(rest) => {
            let mut out = "smtp.".to_owned();
            out.append(rest.as_str());
            out
        },
        None => imap_host.to_owned(),
    }
}

/// The host of a `host:port`.
pub open spec fn host_part(server: Seq<char>) -> Seq<char>
    decreases server.len(),
{
    if server.len() == 0 {
        server
    } else if server[0] == ':' {
        Seq::empty()
    } else {
        seq![server[0]] + host_part(server.drop_first())
    }
}

/// The host alone, in a `host:port`: what comes before the first colon.
pub fn server_host(server: &str) -> (r: String)
    ensures
        r@ == host_part(server@),
{
    let v = text::chars_of(server);
    let mut end: usize = 0;
    assert(v@.skip(0) == v@);
    assert(v@.take(0) == Seq::<char>::empty());
    assert(v@.take(0) + host_part(v@.skip(0)) == host_part(v@));
    while end < v.len() && v[end] != ':'
        invariant
            end <= v.len(),
            v@ == server@,
            v@.take(end as int) + host_part(v@.skip(end as int)) == host_part(v@),
        decreases v.len() - end,
    {
        let ghost rest = v@.skip(end as int);
        assert(rest[0] == v@[end as int]);
        assert(rest.drop_first() == v@.skip(end + 1));
        assert(v@.take(end as int) + (seq![rest[0]] + host_part(v@.skip(end + 1))) == v@.take(
            end + 1,
        ) + host_part(v@.skip(end + 1)));
        end = end + 1;
    }
    assert(v@.take(end as int) + host_part(v@.skip(end as int)) == v@.take(end as int)) by {
        if end < v.len() {
            assert(v@.skip(end as int)[0] == ':');
        }
    }
    assert(v@.subrange(0, end as int) == v@.take(end as int));
    text::text_of(&v, 0, end)
}

} // verus!
