//! The commands against a daemon: what they ask for, and what they print of the answers.
use crate::dto::{Hello, Job, Results, Row, Source};
use crate::protocol;
use crate::protocol::{Datum, Param};
use crate::quote;
use crate::text;
use vstd::prelude::*;
use vstd::string::*;

verus! {

// ---------------------------------------------------------------------------------------------
// The token and the state of a daemon
// ---------------------------------------------------------------------------------------------

/// The token that was read, or why it is refused.
pub fn token(line: &str) -> (r: Result<String, String>)
    ensures
        match r {
            Ok(token) => token@ == text::trimmed(line@) && token@.len() > 0,
            Err(message) => text::trimmed(line@).len() == 0 && message@
                == "jeton vide : rien n'a été enregistré"@,
        },
{
    let token = text::trim(line);
    if token.as_str().unicode_len() == 0 {
        Err("jeton vide : rien n'a été enregistré".to_owned())
    } else {
        Ok(token)
    }
}

/// What asks for a token.
pub fn token_prompt(daemon: &str) -> (r: String)
    ensures
        r@ == "Jeton pour "@ + daemon@ + " (entrée standard) : "@,
{
    let mut out = "Jeton pour ".to_owned();
    out.append(daemon);
    out.append(" (entrée standard) : ");
    out
}

/// What is said of a token that was stored.
pub fn token_stored(daemon: &str) -> (r: String)
    ensures
        r@ == "Jeton enregistré pour "@ + daemon@ + " dans le trousseau du système."@,
{
    let mut out = "Jeton enregistré pour ".to_owned();
    out.append(daemon);
    out.append(" dans le trousseau du système.");
    out
}

/// What is said of a token that was forgotten.
pub fn token_forgotten(daemon: &str) -> (r: String)
    ensures
        r@ == "Jeton oublié pour "@ + daemon@ + "."@,
{
    let mut out = "Jeton oublié pour ".to_owned();
    out.append(daemon);
    out.append(".");
    out
}

/// What is said of a daemon right after its token was stored: that it answered, or that it did
/// not.
pub fn greeted(hello: Result<(&str, &str), &str>) -> (r: Vec<String>)
    ensures
        text::texts(r@) == match hello {
            Ok((messages, protocol)) => seq![
                "Démon joignable : "@ + messages@ + " messages, protocole "@ + protocol@ + "."@,
            ],
            Err(why) => seq![
                "Attention : le jeton est enregistré mais le démon n'a pas répondu."@,
                "  "@ + why@,
            ],
        },
{
    let mut out: Vec<String> = Vec::new();
    match hello {
        Ok((messages, protocol)) => {
            let mut line = "Démon joignable : ".to_owned();
            line.append(messages);
            line.append(" messages, protocole ");
            line.append(protocol);
            line.append(".");
            out.push(line);
            assert(text::texts(out@) == seq![
                "Démon joignable : "@ + messages@ + " messages, protocole "@ + protocol@ + "."@,
            ]);
        },
        Err(why) => {
            out.push(
                "Attention : le jeton est enregistré mais le démon n'a pas répondu.".to_owned(),
            );
            let mut line = "  ".to_owned();
            line.append(why);
            out.push(line);
            assert(text::texts(out@) == seq![
                "Attention : le jeton est enregistré mais le démon n'a pas répondu."@,
                "  "@ + why@,
            ]);
        },
    }
    out
}

/// The line of a profile that can be imported.
pub open spec fn source_line(it: Source) -> Seq<char> {
    "            ["@ + text::dec(it.id as nat) + "] "@ + it.path@
}

/// What is said of the profiles that can be imported.
pub open spec fn sources_text(sources: Seq<Source>) -> Seq<Seq<char>> {
    if sources.len() == 0 {
        seq!["Import      aucun profil déclaré côté démon"@]
    } else {
        seq!["Import      "@ + text::dec(sources.len()) + " profil(s) importable(s) :"@] + Seq::new(
            sources.len(),
            |i: int| source_line(sources[i]),
        )
    }
}

/// What is said of a daemon, by itself.
pub open spec fn hello_text(daemon: Seq<char>, hello: Hello) -> Seq<Seq<char>> {
    seq![
        "Démon       "@ + daemon,
        "Version     "@ + hello.version@ + " (protocole "@ + text::dec(hello.protocol as nat) + ")"@,
        "Messages    "@ + text::dec(hello.messages as nat),
        "Recherche   "@ + if hello.search_available {
            "disponible"@
        } else {
            "index absent — lancer `mail index`"@
        },
        "Révision    "@ + hello.revision@,
    ]
}

/// What is said of the last task.
pub open spec fn last_job_text(jobs: Seq<Job>) -> Seq<Seq<char>> {
    if jobs.len() == 0 {
        seq![]
    } else {
        seq![
            "Dernière tâche  #"@ + text::signed_dec(jobs[0].id as int) + " "@ + jobs[0].kind@
                + " — "@ + jobs[0].state@,
        ]
    }
}

fn hello_lines(daemon: &str, hello: &Hello) -> (r: Vec<String>)
    ensures
        text::texts(r@) == hello_text(daemon@, *hello),
{
    let mut out: Vec<String> = Vec::new();
    let mut line = "Démon       ".to_owned();
    line.append(daemon);
    out.push(line);
    let mut line = "Version     ".to_owned();
    line.append(hello.version.as_str());
    line.append(" (protocole ");
    line.append(text::decimal(hello.protocol as u64).as_str());
    line.append(")");
    out.push(line);
    let mut line = "Messages    ".to_owned();
    line.append(text::decimal(hello.messages).as_str());
    out.push(line);
    let mut line = "Recherche   ".to_owned();
    line.append(
        if hello.search_available {
            "disponible"
        } else {
            "index absent — lancer `mail index`"
        },
    );
    out.push(line);
    let mut line = "Révision    ".to_owned();
    line.append(hello.revision.as_str());
    out.push(line);
    assert(text::texts(out@) == hello_text(daemon@, *hello));
    out
}

fn say_sources(out: &mut Vec<String>, sources: &Vec<Source>)
    ensures
        text::texts(final(out)@) == text::texts(old(out)@) + sources_text(sources@),
{
    let ghost before = text::texts(out@);
    if sources.len() == 0 {
        text::say(out, "Import      aucun profil déclaré côté démon".to_owned());
        assert(text::texts(out@) == before + sources_text(sources@));
        return;
    }
    let mut line = "Import      ".to_owned();
    line.append(text::decimal_usize(sources.len()).as_str());
    line.append(" profil(s) importable(s) :");
    let ghost first = line@;
    text::say(out, line);
    let ghost all = sources_text(sources@);
    let mut i: usize = 0;
    assert(text::texts(out@) == before + all.take(1));
    while i < sources.len()
        invariant
            i <= sources.len(),
            sources.len() > 0,
            all == sources_text(sources@),
            text::texts(out@) == before + all.take(i + 1),
        decreases sources.len() - i,
    {
        let mut line = "            [".to_owned();
        line.append(text::decimal_usize(sources[i].id).as_str());
        line.append("] ");
        line.append(sources[i].path.as_str());
        assert(line@ == source_line(sources@[i as int]));
        text::say(out, line);
        i = i + 1;
        assert(all.take(i + 1) == all.take(i as int).push(all[i as int]));
    }
    assert(all.take(sources.len() + 1) == all);
}

/// What is said of a daemon: itself, the profiles that it may import, its last task.
pub fn status(daemon: &str, hello: &Hello, sources: &Vec<Source>, jobs: &Vec<Job>) -> (r: Vec<
    String,
>)
    ensures
        text::texts(r@) == hello_text(daemon@, *hello) + sources_text(sources@) + last_job_text(
            jobs@,
        ),
{
    let mut out = hello_lines(daemon, hello);
    say_sources(&mut out, sources);
    let ghost before = text::texts(out@);
    if jobs.len() > 0 {
        let job = &jobs[0];
        let mut line = "Dernière tâche  #".to_owned();
        line.append(text::decimal_signed(job.id).as_str());
        line.append(" ");
        line.append(job.kind.as_str());
        line.append(" — ");
        line.append(job.state.as_str());
        text::say(&mut out, line);
    }
    assert(text::texts(out@) == before + last_job_text(jobs@));
    out
}

// ---------------------------------------------------------------------------------------------
// Searching
// ---------------------------------------------------------------------------------------------

/// The line of a message that a daemon found.
pub open spec fn found_line(row: Row, date: Seq<char>) -> Seq<char> {
    date + "  "@ + quote::column(
        match row.from_name {
            Some(name) => name@,
            None => row.from@,
        },
        28,
    ) + "  "@ + row.subject@
}

/// The line of a message that a daemon found, where `date` is its date as it is to be shown.
pub fn found(row: &Row, date: &str) -> (r: String)
    ensures
        r@ == found_line(*row, date@),
{
    let mut out = date.to_owned();
    out.append("  ");
    let who = match &row.from_name {
        Some(name) => quote::truncate(name.as_str(), 28),
        None => quote::truncate(row.from.as_str(), 28),
    };
    out.append(who.as_str());
    out.append("  ");
    out.append(row.subject.as_str());
    out
}

/// What is said of a search before its rows.
pub fn search_header(daemon: &str, results: &Results, elapsed: &str) -> (r: Vec<String>)
    ensures
        text::texts(r@) == if results.search_available {
            seq![text::dec(results.count as nat) + " résultat(s) en "@ + elapsed@ + "\n"@]
        } else {
            seq![
                "L'index plein texte est absent côté démon : aucun résultat possible."@,
                "Lancer `mail index --daemon "@ + daemon@ + "`."@,
            ]
        },
{
    let mut out: Vec<String> = Vec::new();
    if results.search_available {
        let mut line = text::decimal_usize(results.count);
        line.append(" résultat(s) en ");
        line.append(elapsed);
        line.append("\n");
        out.push(line);
        assert(text::texts(out@) == seq![
            text::dec(results.count as nat) + " résultat(s) en "@ + elapsed@ + "\n"@,
        ]);
    } else {
        out.push("L'index plein texte est absent côté démon : aucun résultat possible.".to_owned());
        let mut line = "Lancer `mail index --daemon ".to_owned();
        line.append(daemon);
        line.append("`.");
        out.push(line);
        assert(text::texts(out@) == seq![
            "L'index plein texte est absent côté démon : aucun résultat possible."@,
            "Lancer `mail index --daemon "@ + daemon@ + "`."@,
        ]);
    }
    out
}

/// What is said of a search after its rows.
pub fn search_footer(results: &Results) -> (r: Option<&'static str>)
    ensures
        text::opt_str(r) == if results.search_available && results.truncated {
            Some("\n(limite atteinte — il y a probablement d'autres résultats)"@)
        } else {
            None
        },
{
    if results.search_available && results.truncated {
        Some("\n(limite atteinte — il y a probablement d'autres résultats)")
    } else {
        None
    }
}

// ---------------------------------------------------------------------------------------------
// Tasks
// ---------------------------------------------------------------------------------------------

/// What a daemon is asked to start.
#[derive(Debug)]
pub struct JobRequest<'a> {
    /// `import`, `index`, `thread` or `sync`.
    pub kind: &'a str,
    /// The account to synchronise; none for all.
    pub account: Option<i64>,
    /// The rank of the profile to import.
    pub source: Option<usize>,
    /// Read everything and write nothing.
    pub dry_run: bool,
    pub include_feeds: bool,
    pub include_orphans: bool,
    /// Follow the task to its end.
    pub follow: bool,
}

/// The parameters of the call that starts a task.
pub open spec fn job_params_of(it: JobRequest) -> Seq<(Seq<char>, Datum)> {
    let first = seq![
        protocol::words("kind", it.kind@),
        ("dry_run"@, Datum::Flag(it.dry_run)),
        ("include_feeds"@, Datum::Flag(it.include_feeds)),
        ("include_orphans"@, Datum::Flag(it.include_orphans)),
    ];
    let with_source = match it.source {
        Some(source) => first.push(protocol::number("source", source as int)),
        None => first,
    };
    match it.account {
        Some(account) => with_source.push(protocol::number("account", account as int)),
        None => with_source,
    }
}

/// The parameters of the call that starts a task.
pub fn job_params<'a>(it: &JobRequest<'a>) -> (r: Vec<(&'static str, Param<'a>)>)
    ensures
        protocol::values_of(r@) == job_params_of(*it),
{
    let mut out: Vec<(&'static str, Param<'a>)> = Vec::new();
    out.push(("kind", Param::Text(it.kind)));
    out.push(("dry_run", Param::Flag(it.dry_run)));
    out.push(("include_feeds", Param::Flag(it.include_feeds)));
    out.push(("include_orphans", Param::Flag(it.include_orphans)));
    match it.source {
        Some(source) => {
            out.push(("source", Param::Count(source as u64)));
        },
        None => {},
    }
    match it.account {
        Some(account) => {
            out.push(("account", Param::Int(account)));
        },
        None => {},
    }
    assert(protocol::values_of(out@) == job_params_of(*it));
    out
}

/// What is said of a task that was accepted.
pub fn accepted(job: &Job) -> (r: String)
    ensures
        r@ == "Tâche #"@ + text::signed_dec(job.id as int) + " ("@ + job.kind@ + ") acceptée."@,
{
    let mut out = "Tâche #".to_owned();
    out.append(text::decimal_signed(job.id).as_str());
    out.append(" (");
    out.append(job.kind.as_str());
    out.append(") acceptée.");
    out
}

/// What is said of a task that is not followed.
pub fn followed(daemon: &str) -> (r: String)
    ensures
        r@ == "Suivi : `mail daemon status --daemon "@ + daemon@ + "`"@,
{
    let mut out = "Suivi : `mail daemon status --daemon ".to_owned();
    out.append(daemon);
    out.append("`");
    out
}

/// What is said of a task that a daemon no longer knows.
pub fn vanished(id: i64) -> (r: String)
    ensures
        r@ == "la tâche #"@ + text::signed_dec(id as int) + " a disparu du registre du démon"@,
{
    let mut out = "la tâche #".to_owned();
    out.append(text::decimal_signed(id).as_str());
    out.append(" a disparu du registre du démon");
    out
}

/// Whether a task is over.
pub open spec fn is_over(state: Seq<char>) -> bool {
    state == "done"@ || state == "failed"@ || state == "cancelled"@
}

/// What is said of a task that is over.
pub open spec fn over_text(job: Job, elapsed: Seq<char>) -> Seq<Seq<char>> {
    let first = seq!["Durée              "@ + elapsed, "État               "@ + job.state@];
    match job.message {
        Some(message) => first.push("Bilan              "@ + message@),
        None => first,
    }
}

/// What following a task comes to.
pub enum Follow {
    /// It goes on: this is shown, and it is asked for again.
    Progress(String),
    /// It is over: this is said, and the command fails where the task did.
    Over { lines: Vec<String>, failed: bool },
}

/// How far a task is, where its total is known: how many of thirty marks are filled, and its
/// share as it is to be shown.
pub struct Share {
    pub filled: usize,
    pub percent: String,
}

/// What a task counts: bytes for an import, as they are to be shown, messages for the others.
pub open spec fn unit_text(job: Job, size: Seq<char>) -> Seq<char> {
    if job.kind@ == "import"@ {
        size
    } else {
        text::dec(job.done as nat) + " messages"@
    }
}

/// How many marks of the bar are filled: never more than it has.
pub open spec fn filled_marks(filled: usize) -> nat {
    if filled <= 30 {
        filled as nat
    } else {
        30
    }
}

/// The line of a task that goes on. Without a total there is no bar.
pub open spec fn progress_text(job: Job, share: Option<Share>, size: Seq<char>) -> Seq<char> {
    match share {
        Some(share) => "["@ + text::repeated('#', filled_marks(share.filled)) + text::repeated(
            ' ',
            (30 - filled_marks(share.filled)) as nat,
        ) + "] "@ + text::padded_left(share.percent@, ' ', 5) + " %  "@ + unit_text(job, size),
        None => "... "@ + unit_text(job, size),
    }
}

/// The bar of a task has the same width whatever its share, and stays in its box.
pub proof fn the_bar_has_a_fixed_width(a: usize, b: usize)
    ensures
        filled_marks(a) <= 30,
        (text::repeated('#', filled_marks(a)) + text::repeated(
            ' ',
            (30 - filled_marks(a)) as nat,
        )).len() == (text::repeated('#', filled_marks(b)) + text::repeated(
            ' ',
            (30 - filled_marks(b)) as nat,
        )).len(),
{
}

/// What a task counts.
pub fn unit(job: &Job, size: &str) -> (r: String)
    ensures
        r@ == unit_text(*job, size@),
{
    if text::same(job.kind.as_str(), "import") {
        size.to_owned()
    } else {
        let mut out = text::decimal(job.done);
        out.append(" messages");
        out
    }
}

/// The line of a task that goes on.
pub fn progress_line(job: &Job, share: &Option<Share>, size: &str) -> (r: String)
    ensures
        r@ == progress_text(*job, *share, size@),
{
    match share {
        Some(share) => {
            let filled: usize = if share.filled <= 30 {
                share.filled
            } else {
                30
            };
            let mut out = "[".to_owned();
            out.append(text::repeat('#', filled).as_str());
            out.append(text::repeat(' ', 30 - filled).as_str());
            out.append("] ");
            out.append(text::pad_left(share.percent.as_str(), ' ', 5).as_str());
            out.append(" %  ");
            out.append(unit(job, size).as_str());
            out
        },
        None => {
            let mut out = "... ".to_owned();
            out.append(unit(job, size).as_str());
            out
        },
    }
}

/// What following a task comes to, now that its state was asked for.
pub fn follow(job: &Job, share: &Option<Share>, size: &str, elapsed: &str) -> (r: Follow)
    ensures
        match r {
            Follow::Progress(line) => !is_over(job.state@) && line@ == progress_text(
                *job,
                *share,
                size@,
            ),
            Follow::Over { lines, failed } => is_over(job.state@) && failed == (job.state@
                == "failed"@) && text::texts(lines@) == over_text(*job, elapsed@),
        },
{
    let state = job.state.as_str();
    let failed = text::same(state, "failed");
    if !(failed || text::same(state, "done") || text::same(state, "cancelled")) {
        return Follow::Progress(progress_line(job, share, size));
    }
    let mut lines: Vec<String> = Vec::new();
    let mut line = "Durée              ".to_owned();
    line.append(elapsed);
    lines.push(line);
    let mut line = "État               ".to_owned();
    line.append(state);
    lines.push(line);
    assert(text::texts(lines@) == seq![
        "Durée              "@ + elapsed@,
        "État               "@ + job.state@,
    ]);
    match &job.message {
        Some(message) => {
            let mut line = "Bilan              ".to_owned();
            line.append(message.as_str());
            text::say(&mut lines, line);
        },
        None => {},
    }
    Follow::Over { lines, failed }
}

/// What wipes a line of this many characters off a terminal: blanks, between two returns.
pub fn wipe(width: usize) -> (r: String)
    ensures
        r@ == "\r"@ + text::repeated(' ', width as nat) + "\r"@,
{
    let mut out = "\r".to_owned();
    out.append(text::repeat(' ', width).as_str());
    out.append("\r");
    out
}

} // verus!
