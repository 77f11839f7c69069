//! Sending on the command line: who sends, what is shown, what a delivery came to, and the queue.
//!
//! The message is put in the queue before anything leaves; nothing here opens a connection.
use crate::accounts;
use crate::accounts::FullAccount;
use crate::protocol::Decision;
use crate::settings;
use crate::text;
use vstd::prelude::*;
use vstd::string::*;

verus! {

// ---------------------------------------------------------------------------------------------
// The message
// ---------------------------------------------------------------------------------------------

/// What the command line says of a message to send.
#[derive(Debug)]
pub struct Message {
    /// The account that sends.
    pub account: i64,
    pub to: Vec<String>,
    pub cc: Vec<String>,
    /// In the envelope, and in no header.
    pub bcc: Vec<String>,
    pub subject: String,
    /// The body; read from the standard input where there is none.
    pub body: Option<String>,
    /// Put the message together and show it, and open no connection.
    pub dry_run: bool,
    /// The paths of the files to attach.
    pub attach: Vec<String>,
    pub signature: bool,
}

/// Who sends.
pub struct Sender {
    /// The rank of the account.
    pub rank: usize,
    /// The name that goes with the address, where it says more than the address.
    pub name: Option<String>,
}

/// Why an account sends nothing, where it does not.
pub open spec fn sender_refusal(list: Seq<FullAccount>, id: i64) -> Option<Seq<char>> {
    let k = accounts::rank_of(list, id);
    if k >= list.len() {
        Some("aucun compte #"@ + text::signed_dec(id as int) + " — voir `mail account list`"@)
    } else if list[k].server is None {
        Some(
            "le compte #"@ + text::signed_dec(id as int)
                + " n'a pas de serveur : il ne peut pas envoyer"@,
        )
    } else {
        None
    }
}

/// The name that goes with the address of an account: none where it is the address itself.
pub open spec fn sender_name(account: FullAccount) -> Option<Seq<char>> {
    if account.server is Some && account.display_name@ != account.server->0.username@ {
        Some(account.display_name@)
    } else {
        None
    }
}

/// Who sends, or why nobody does.
pub fn sender(list: &Vec<FullAccount>, id: i64) -> (r: Result<Sender, String>)
    ensures
        match r {
            Ok(it) => {
                &&& sender_refusal(list@, id) is None
                &&& it.rank == accounts::rank_of(list@, id)
                &&& it.rank < list@.len()
                &&& list@[it.rank as int].server is Some
                &&& text::opt_text(it.name) == sender_name(list@[it.rank as int])
            },
            Err(message) => sender_refusal(list@, id) == Some(message@),
        },
{
    match accounts::find(list, id) {
        Some(k) => match &list[k].server {
            Some(server) => {
                let name = if text::same(
                    list[k].display_name.as_str(),
                    server.username.as_str(),
                ) {
                    None
                } else {
                    Some(list[k].display_name.clone())
                };
                Ok(Sender { rank: k, name })
            },
            None => {
                let mut message = "le compte #".to_owned();
                message.append(text::decimal_signed(id).as_str());
                message.append(" n'a pas de serveur : il ne peut pas envoyer");
                Err(message)
            },
        },
        None => {
            let mut message = "aucun compte #".to_owned();
            message.append(text::decimal_signed(id).as_str());
            message.append(" — voir `mail account list`");
            Err(message)
        },
    }
}

/// What is said of an account whose identifier is no address.
pub fn bad_sender(id: i64) -> (r: String)
    ensures
        r@ == "l'identifiant du compte #"@ + text::signed_dec(id as int) + " n'est pas une adresse valide"@,
{
    let mut out = "l'identifiant du compte #".to_owned();
    out.append(text::decimal_signed(id).as_str());
    out.append(" n'est pas une adresse valide");
    out
}

/// What is said of a recipient that is no address: the first one stops the sending.
pub fn bad_address(raw: &str) -> (r: String)
    ensures
        r@ == "adresse invalide : "@ + settings::debug_of(raw@),
{
    let mut out = "adresse invalide : ".to_owned();
    out.append(settings::debug(raw).as_str());
    out
}

/// What is said of an account that was to sign and has no signature.
pub fn no_signature(id: i64) -> (r: String)
    ensures
        r@ == "le compte #"@ + text::signed_dec(id as int) + " n'a pas de signature — la coquille en pose une, ou `accounts.set_signature` par l'API"@,
{
    let mut out = "le compte #".to_owned();
    out.append(text::decimal_signed(id).as_str());
    out.append(" n'a pas de signature — la coquille en pose une, ou `accounts.set_signature` par l'API");
    out
}

/// Why a body that was read is refused, where it is.
pub fn body_refusal(body: &str) -> (r: Option<&'static str>)
    ensures
        text::opt_str(r) == if text::trimmed(body@).len() == 0 {
            Some("corps vide : `--body` ou du texte sur l'entrée standard"@)
        } else {
            None
        },
{
    if text::trim(body).as_str().unicode_len() == 0 {
        Some("corps vide : `--body` ou du texte sur l'entrée standard")
    } else {
        None
    }
}

/// What follows the putting together of a message.
#[derive(Debug, Clone, Copy, PartialEq, Eq, Structural)]
pub enum Next {
    /// It is shown.
    Show,
    /// It is put in the queue, and delivered from there.
    Queue,
}

/// What follows the putting together of a message, or why nothing does. A trial needs no server
/// to send to, and opens no connection.
pub fn after_composing(dry_run: bool, account: &FullAccount) -> (r: Result<Next, String>)
    ensures
        match r {
            Ok(next) => next == (if dry_run {
                Next::Show
            } else {
                Next::Queue
            }) && (dry_run || account.submission is Some),
            Err(message) => !dry_run && account.submission is None && message@ == "le compte #"@
                + text::signed_dec(account.id as int)
                + " n'a pas de serveur d'envoi — `mail account submission --account "@
                + text::signed_dec(account.id as int) + "`"@,
        },
{
    if dry_run {
        return Ok(Next::Show);
    }
    if account.submission.is_some() {
        return Ok(Next::Queue);
    }
    let mut message = "le compte #".to_owned();
    message.append(text::decimal_signed(account.id).as_str());
    message.append(" n'a pas de serveur d'envoi — `mail account submission --account ");
    message.append(text::decimal_signed(account.id).as_str());
    message.append("`");
    Err(message)
}

/// What is said of a message in the queue.
pub fn queued(id: i64, size: &str) -> (r: String)
    ensures
        r@ == "Message #"@ + text::signed_dec(id as int) + " en file ("@ + size@ + ")."@,
{
    let mut out = "Message #".to_owned();
    out.append(text::decimal_signed(id).as_str());
    out.append(" en file (");
    out.append(size);
    out.append(").");
    out
}

// ---------------------------------------------------------------------------------------------
// What a delivery came to
// ---------------------------------------------------------------------------------------------

/// How a delivery ended.
#[derive(Debug, Clone, Copy, PartialEq, Eq, Structural)]
pub enum Outcome {
    Sent,
    /// Refused for now: it is tried again.
    Deferred,
    Failed,
    /// Nobody knows.
    Doubtful,
}

/// What is said of a delivery: the lines, and the failure of the command where it fails.
pub struct Report {
    pub lines: Vec<String>,
    pub failure: Option<String>,
}

/// The words of an error, or others where there is none.
pub open spec fn or_words(error: Option<Seq<char>>, otherwise: Seq<char>) -> Seq<char> {
    match error {
        Some(words) => words,
        None => otherwise,
    }
}

/// The lines that are printed of a delivery. A doubt is neither a success nor a failure: the user
/// decides, and is told what to look at.
pub open spec fn report_lines(id: i64, outcome: Outcome, error: Option<Seq<char>>) -> Seq<Seq<char>> {
    let number = text::signed_dec(id as int);
    match outcome {
        Outcome::Sent => seq!["#"@ + number + " envoyé."@],
        Outcome::Deferred => seq![
            "#"@ + number + " reporté : "@ + or_words(error, "refus passager"@),
            "`mail send --flush` réessaiera quand le recul sera écoulé."@,
        ],
        Outcome::Failed => seq![],
        Outcome::Doubtful => {
            let first = seq!["#"@ + number + " : ÉTAT INCERTAIN."@];
            let second = match error {
                Some(words) => first.push("    "@ + words),
                None => first,
            };
            second.push(""@).push(
                "La coupure est tombée entre le point final et la réponse du serveur. Il a peut-être le message."@,
            ).push(
                "Rien ne sera renvoyé automatiquement : le renvoyer risque un doublon chez le destinataire."@,
            ).push("Vérifier dans les messages envoyés du fournisseur avant de décider."@)
        },
    }
}

/// Why the command fails after a delivery, where it does.
pub open spec fn report_failure(id: i64, outcome: Outcome, error: Option<Seq<char>>) -> Option<
    Seq<char>,
> {
    let number = text::signed_dec(id as int);
    match outcome {
        Outcome::Failed => Some("#"@ + number + " refusé : "@ + or_words(error, "refus définitif"@)),
        Outcome::Doubtful => Some("#"@ + number + " est dans un état incertain"@),
        _ => None,
    }
}

/// What is said of a delivery.
pub fn report(id: i64, outcome: Outcome, error: &Option<String>) -> (r: Report)
    ensures
        text::texts(r.lines@) == report_lines(id, outcome, text::opt_text(*error)),
        text::opt_text(r.failure) == report_failure(id, outcome, text::opt_text(*error)),
{
    let mut lines: Vec<String> = Vec::new();
    assert(text::texts(lines@) == Seq::<Seq<char>>::empty());
    let mut line = "#".to_owned();
    line.append(text::decimal_signed(id).as_str());
    match outcome {
        Outcome::Sent => {
            line.append(" envoyé.");
            text::say(&mut lines, line);
            assert(text::texts(lines@) == report_lines(id, outcome, text::opt_text(*error)));
            Report { lines, failure: None }
        },
        Outcome::Deferred => {
            line.append(" reporté : ");
            match error {
                Some(words) => {
                    line.append(words.as_str());
                },
                None => {
                    line.append("refus passager");
                },
            }
            text::say(&mut lines, line);
            text::say(
                &mut lines,
                "`mail send --flush` réessaiera quand le recul sera écoulé.".to_owned(),
            );
            assert(text::texts(lines@) == report_lines(id, outcome, text::opt_text(*error)));
            Report { lines, failure: None }
        },
        Outcome::Failed => {
            line.append(" refusé : ");
            match error {
                Some(words) => {
                    line.append(words.as_str());
                },
                None => {
                    line.append("refus définitif");
                },
            }
            Report { lines, failure: Some(line) }
        },
        Outcome::Doubtful => {
            let mut failure = line.clone();
            failure.append(" est dans un état incertain");
            line.append(" : ÉTAT INCERTAIN.");
            text::say(&mut lines, line);
            assert(text::texts(lines@) == seq![
                "#"@ + text::signed_dec(id as int) + " : ÉTAT INCERTAIN."@,
            ]);
            match error {
                Some(words) => {
                    let mut why = "    ".to_owned();
                    why.append(words.as_str());
                    text::say(&mut lines, why);
                },
                None => {},
            }
            text::say(&mut lines, "".to_owned());
            text::say(
                &mut lines,
                "La coupure est tombée entre le point final et la réponse du serveur. Il a peut-être le message.".to_owned(),
            );
            text::say(
                &mut lines,
                "Rien ne sera renvoyé automatiquement : le renvoyer risque un doublon chez le destinataire.".to_owned(),
            );
            text::say(
                &mut lines,
                "Vérifier dans les messages envoyés du fournisseur avant de décider.".to_owned(),
            );
            Report { lines, failure: Some(failure) }
        },
    }
}

/// The command fails exactly when the message was refused for good or nobody knows its end.
pub proof fn a_doubt_is_never_a_success(id: i64, outcome: Outcome, error: Option<Seq<char>>)
    ensures
        report_failure(id, outcome, error) is None <==> (outcome == Outcome::Sent || outcome
            == Outcome::Deferred),
{
}

// ---------------------------------------------------------------------------------------------
// Emptying the queue
// ---------------------------------------------------------------------------------------------

/// Why a line of the queue is passed over, where it is.
pub open spec fn passed_over(list: Seq<FullAccount>, account: i64, id: i64) -> Option<Seq<char>> {
    let k = accounts::rank_of(list, account);
    if k >= list.len() {
        Some("#"@ + text::signed_dec(id as int) + " : compte inconnu, ignoré."@)
    } else if list[k].server is None || list[k].submission is None {
        Some(
            "#"@ + text::signed_dec(id as int) + " : le compte n'a pas de serveur d'envoi, ignoré."@,
        )
    } else {
        None
    }
}

/// The rank of the account that a line of the queue is delivered for, or why it is passed over.
pub fn flush_account(list: &Vec<FullAccount>, account: i64, id: i64) -> (r: Result<usize, String>)
    ensures
        match r {
            Ok(k) => passed_over(list@, account, id) is None && k == accounts::rank_of(
                list@,
                account,
            ) && k < list@.len() && list@[k as int].server is Some
                && list@[k as int].submission is Some,
            Err(line) => passed_over(list@, account, id) == Some(line@),
        },
{
    let mut line = "#".to_owned();
    line.append(text::decimal_signed(id).as_str());
    match accounts::find(list, account) {
        Some(k) => {
            if list[k].server.is_some() && list[k].submission.is_some() {
                Ok(k)
            } else {
                line.append(" : le compte n'a pas de serveur d'envoi, ignoré.");
                Err(line)
            }
        },
        None => {
            line.append(" : compte inconnu, ignoré.");
            Err(line)
        },
    }
}

/// What is said of a line that could not be delivered.
pub fn not_delivered(id: i64, why: &str) -> (r: String)
    ensures
        r@ == "#"@ + text::signed_dec(id as int) + " : "@ + why@,
{
    let mut out = "#".to_owned();
    out.append(text::decimal_signed(id).as_str());
    out.append(" : ");
    out.append(why);
    out
}

/// What is said where nothing can be delivered: what waits for a decision is said too.
pub open spec fn nothing_to_flush_text(doubtful: usize) -> Seq<Seq<char>> {
    let s0 = Seq::<Seq<char>>::empty();
    let s1 = s0.push("Rien à remettre."@);
    let s2 = if doubtful > 0 {
        s1.push(text::dec(doubtful as nat) + " message(s) douteux attendent une décision — `mail doctor` pour les voir."@)
    } else {
        s1
    };
    s2
}

/// What is said where nothing can be delivered: what waits for a decision is said too.
pub fn nothing_to_flush(doubtful: usize) -> (r: Vec<String>)
    ensures
        text::texts(r@) == nothing_to_flush_text(doubtful),
{
    let mut out: Vec<String> = Vec::new();
    assert(text::texts(out@) == Seq::<Seq<char>>::empty());
    text::say(&mut out, "Rien à remettre.".to_owned());
    if doubtful > 0 {
        let mut line = text::decimal_usize(doubtful);
        line.append(" message(s) douteux attendent une décision — `mail doctor` pour les voir.");
        text::say(&mut out, line);
    }
    out
}

/// What became of a line when the queue was gone through.
#[derive(Debug, Clone, Copy, PartialEq, Eq, Structural)]
pub enum Turn {
    /// It was passed over: nobody to send it for.
    PassedOver,
    /// Its secret was not found, or the delivery broke off.
    Broken,
    Delivered(Outcome),
}

/// Whether a line is counted as one that did not leave.
pub open spec fn stayed(turn: Turn) -> bool {
    match turn {
        Turn::Delivered(outcome) => outcome == Outcome::Failed || outcome == Outcome::Doubtful,
        _ => true,
    }
}

/// How many lines, among the first `n`, did not leave.
pub open spec fn stayed_among(turns: Seq<Turn>, n: int) -> nat
    decreases n,
{
    if n <= 0 {
        0
    } else if stayed(turns[n - 1]) {
        stayed_among(turns, n - 1) + 1
    } else {
        stayed_among(turns, n - 1)
    }
}

/// Why the command fails after the queue was gone through, where it does.
pub fn flush_failure(turns: &Vec<Turn>) -> (r: Option<String>)
    ensures
        text::opt_text(r) == if stayed_among(turns@, turns@.len() as int) > 0 {
            Some(
                text::dec(stayed_among(turns@, turns@.len() as int))
                    + " message(s) ne sont pas partis"@,
            )
        } else {
            None
        },
{
    let mut failures: usize = 0;
    let mut i: usize = 0;
    while i < turns.len()
        invariant
            i <= turns.len(),
            failures <= i,
            failures == stayed_among(turns@, i as int),
        decreases turns.len() - i,
    {
        let gone = match turns[i] {
            Turn::Delivered(outcome) => outcome == Outcome::Sent || outcome == Outcome::Deferred,
            _ => false,
        };
        if !gone {
            failures = failures + 1;
        }
        i = i + 1;
    }
    if failures > 0 {
        let mut out = text::decimal_usize(failures);
        out.append(" message(s) ne sont pas partis");
        Some(out)
    } else {
        None
    }
}

/// A delivery counts as a failure of the whole exactly when it is one on its own.
pub proof fn a_failure_counts_alone_as_among_others(id: i64, outcome: Outcome, error: Option<Seq<char>>)
    ensures
        stayed(Turn::Delivered(outcome)) <==> report_failure(id, outcome, error) is Some,
{
}

// ---------------------------------------------------------------------------------------------
// The queue
// ---------------------------------------------------------------------------------------------

/// Where a line of the queue stands.
#[derive(Debug, Clone, Copy, PartialEq, Eq, Structural)]
pub enum SendState {
    Queued,
    /// Cut before the body: it is taken up again.
    Sending,
    /// It may have left.
    Committing,
    Sent,
    Failed,
}

/// A line of the queue.
#[derive(Debug)]
pub struct Line {
    pub id: i64,
    pub sender: String,
    pub recipients: Vec<String>,
    pub state: SendState,
    pub last_error: Option<String>,
    pub resendable: bool,
}

impl SendState {
    /// What is said of where a line stands.
    pub open spec fn said(self) -> Seq<char> {
        match self {
            SendState::Queued => "en attente"@,
            SendState::Sending => "interrompu avant le corps — sera repris"@,
            SendState::Committing => "DOUTEUX — peut-être parti, aucune reprise automatique"@,
            SendState::Sent => "envoyé"@,
            SendState::Failed => "échoué"@,
        }
    }

    /// What is said of where a line stands.
    pub fn say(self) -> (r: &'static str)
        ensures
            r@ == self.said(),
    {
        match self {
            SendState::Queued => "en attente",
            SendState::Sending => "interrompu avant le corps — sera repris",
            SendState::Committing => "DOUTEUX — peut-être parti, aucune reprise automatique",
            SendState::Sent => "envoyé",
            SendState::Failed => "échoué",
        }
    }
}

/// What is said of a line of the queue: with the gesture that it asks for.
pub open spec fn line_said(before: Seq<Seq<char>>, it: Line) -> Seq<Seq<char>> {
    let first = before.push(
        "#"@ + text::signed_dec(it.id as int) + " "@ + it.sender@ + " → "@ + text::joined(
            text::texts(it.recipients@),
            ", "@,
        ) + " ["@ + it.state.said() + "]"@,
    );
    let second = match it.last_error {
        Some(error) => first.push("    "@ + error@),
        None => first,
    };
    if it.resendable {
        second.push(
            "    `mail outbox --retry "@ + text::signed_dec(it.id as int)
                + "` pour le renvoyer tel quel."@,
        )
    } else {
        second
    }
}

/// What is said of the first `n` lines of the queue.
pub open spec fn lines_said(queue: Seq<Line>, n: int) -> Seq<Seq<char>>
    decreases n,
{
    if n <= 0 {
        Seq::empty()
    } else {
        line_said(lines_said(queue, n - 1), queue[n - 1])
    }
}

/// What is said of the queue.
pub fn list(queue: &Vec<Line>) -> (r: Vec<String>)
    ensures
        text::texts(r@) == if queue@.len() == 0 {
            seq!["File d'envoi vide."@]
        } else {
            lines_said(queue@, queue@.len() as int)
        },
{
    let mut out: Vec<String> = Vec::new();
    assert(text::texts(out@) == Seq::<Seq<char>>::empty());
    if queue.len() == 0 {
        text::say(&mut out, "File d'envoi vide.".to_owned());
        assert(text::texts(out@) == seq!["File d'envoi vide."@]);
        return out;
    }
    let mut i: usize = 0;
    while i < queue.len()
        invariant
            i <= queue.len(),
            text::texts(out@) == lines_said(queue@, i as int),
        decreases queue.len() - i,
    {
        let it = &queue[i];
        let mut line = "#".to_owned();
        line.append(text::decimal_signed(it.id).as_str());
        line.append(" ");
        line.append(it.sender.as_str());
        line.append(" → ");
        line.append(text::join(&it.recipients, ", ").as_str());
        line.append(" [");
        line.append(it.state.say());
        line.append("]");
        text::say(&mut out, line);
        match &it.last_error {
            Some(error) => {
                let mut why = "    ".to_owned();
                why.append(error.as_str());
                text::say(&mut out, why);
            },
            None => {},
        }
        if it.resendable {
            let mut how = "    `mail outbox --retry ".to_owned();
            how.append(text::decimal_signed(it.id).as_str());
            how.append("` pour le renvoyer tel quel.");
            text::say(&mut out, how);
        }
        i = i + 1;
    }
    out
}

/// A gesture on a line of the queue.
#[derive(Debug, Clone, Copy, PartialEq, Eq, Structural)]
pub enum Gesture {
    /// Decide a doubt.
    Decide(Decision),
    /// Send a refused message again.
    Retry,
    /// Take a line that is over off the queue.
    Forget,
    /// Hold back a line that has not left.
    Cancel,
}

/// Why a gesture is refused.
pub open spec fn gesture_rule(gesture: Gesture) -> Seq<char> {
    match gesture {
        Gesture::Decide(_) => "seul un envoi incertain se tranche"@,
        Gesture::Retry => "seul un envoi échoué se renvoie"@,
        Gesture::Forget => "seuls les envois finis — envoyés ou échoués — se retirent"@,
        Gesture::Cancel => "l'annulation ne retire que ce qui n'est pas encore parti"@,
    }
}

/// What is said of a gesture that was refused: the state of the line, and the rule.
pub fn gesture_refused(id: i64, gesture: Gesture, state: Option<&str>) -> (r: String)
    ensures
        r@ == "le message #"@ + text::signed_dec(id as int) + " est à l'état « "@ + (match state {
            Some(state) => state@,
            None => "inexistant"@,
        }) + " » : "@ + gesture_rule(gesture) + ". `mail outbox` pour voir la file."@,
{
    let mut out = "le message #".to_owned();
    out.append(text::decimal_signed(id).as_str());
    out.append(" est à l'état « ");
    out.append(
        match state {
            Some(state) => state,
            None => "inexistant",
        },
    );
    out.append(" » : ");
    out.append(
        match gesture {
            Gesture::Decide(_) => "seul un envoi incertain se tranche",
            Gesture::Retry => "seul un envoi échoué se renvoie",
            Gesture::Forget => "seuls les envois finis — envoyés ou échoués — se retirent",
            Gesture::Cancel => "l'annulation ne retire que ce qui n'est pas encore parti",
        },
    );
    out.append(". `mail outbox` pour voir la file.");
    out
}

/// What is said of a gesture that was made.
pub open spec fn gesture_lines(id: i64, gesture: Gesture) -> Seq<Seq<char>> {
    let number = "#"@ + text::signed_dec(id as int);
    match gesture {
        Gesture::Decide(Decision::Resend) => seq![
            number + " remis en file."@,
            "`mail send --flush` pour le remettre maintenant, ou le démon s'en chargera."@,
        ],
        Gesture::Decide(Decision::Accept) => seq![
            number + " marqué envoyé. Aucun octet n'est parti."@,
        ],
        Gesture::Retry => seq![
            number + " remis en file, compteur de tentatives remis à zéro."@,
            "`mail send --flush` pour l'envoyer maintenant, ou le démon s'en chargera."@,
        ],
        Gesture::Forget => seq![
            number + " retiré de la file."@,
            "Son contenu devient un blob orphelin — `mail doctor` le compte."@,
        ],
        Gesture::Cancel => seq![
            number + " annulé : il ne partira pas."@,
            "Son contenu devient un blob orphelin — `mail doctor` le compte."@,
        ],
    }
}

/// What is said of a gesture that was made.
pub fn gesture_made(id: i64, gesture: Gesture) -> (r: Vec<String>)
    ensures
        text::texts(r@) == gesture_lines(id, gesture),
{
    let mut out: Vec<String> = Vec::new();
    let mut line = "#".to_owned();
    line.append(text::decimal_signed(id).as_str());
    match gesture {
        Gesture::Decide(Decision::Resend) => {
            line.append(" remis en file.");
            out.push(line);
            out.push(
                "`mail send --flush` pour le remettre maintenant, ou le démon s'en chargera.".to_owned(),
            );
        },
        Gesture::Decide(Decision::Accept) => {
            line.append(" marqué envoyé. Aucun octet n'est parti.");
            out.push(line);
        },
        Gesture::Retry => {
            line.append(" remis en file, compteur de tentatives remis à zéro.");
            out.push(line);
            out.push(
                "`mail send --flush` pour l'envoyer maintenant, ou le démon s'en chargera.".to_owned(),
            );
        },
        Gesture::Forget => {
            line.append(" retiré de la file.");
            out.push(line);
            out.push("Son contenu devient un blob orphelin — `mail doctor` le compte.".to_owned());
        },
        Gesture::Cancel => {
            line.append(" annulé : il ne partira pas.");
            out.push(line);
            out.push("Son contenu devient un blob orphelin — `mail doctor` le compte.".to_owned());
        },
    }
    assert(text::texts(out@) == gesture_lines(id, gesture));
    out
}

/// What the options of the queue ask for: the first of them that is given.
pub enum OutboxCommand {
    List,
    Gesture(i64, Gesture),
}

/// What the options of the queue ask for: the first of them that is given.
pub fn outbox_command(
    resend: Option<i64>,
    accept: Option<i64>,
    retry: Option<i64>,
    forget: Option<i64>,
) -> (r: OutboxCommand)
    ensures
        r == match (resend, accept, retry, forget) {
            (Some(id), _, _, _) => OutboxCommand::Gesture(id, Gesture::Decide(Decision::Resend)),
            (None, Some(id), _, _) => OutboxCommand::Gesture(id, Gesture::Decide(Decision::Accept)),
            (None, None, Some(id), _) => OutboxCommand::Gesture(id, Gesture::Retry),
            (None, None, None, Some(id)) => OutboxCommand::Gesture(id, Gesture::Forget),
            (None, None, None, None) => OutboxCommand::List,
        },
{
    match (resend, accept, retry, forget) {
        (Some(id), _, _, _) => OutboxCommand::Gesture(id, Gesture::Decide(Decision::Resend)),
        (None, Some(id), _, _) => OutboxCommand::Gesture(id, Gesture::Decide(Decision::Accept)),
        (None, None, Some(id), _) => OutboxCommand::Gesture(id, Gesture::Retry),
        (None, None, None, Some(id)) => OutboxCommand::Gesture(id, Gesture::Forget),
        (None, None, None, None) => OutboxCommand::List,
    }
}

// ---------------------------------------------------------------------------------------------
// The trial
// ---------------------------------------------------------------------------------------------

/// How many bytes of the beginning of a message are kept.
pub const PEEK: usize = 8192;

/// A sink that keeps the beginning and counts the rest.
#[derive(Debug)]
pub struct Peek {
    pub head: Vec<u8>,
    pub total: u64,
}

impl Peek {
    /// Whether the sink keeps no more than it may.
    pub open spec fn fits(self) -> bool {
        self.head@.len() <= PEEK
    }

    /// An empty sink.
    pub fn new() -> (r: Peek)
        ensures
            r.fits(),
            r.head@ == Seq::<u8>::empty(),
            r.total == 0,
    {
        Peek { head: Vec::new(), total: 0 }
    }

    /// Takes bytes in: those that still have room are kept, all of them are counted.
    pub fn write(&mut self, buffer: &[u8]) -> (taken: usize)
        requires
            old(self).fits(),
        ensures
            final(self).fits(),
            taken == buffer@.len(),
            final(self).head@ == old(self).head@ + kept(old(self).head@.len(), buffer@),
            final(self).total == if old(self).total + buffer@.len() <= u64::MAX {
                old(self).total + buffer@.len()
            } else {
                u64::MAX as int
            },
    {
        let ghost before = self.head@;
        let room: usize = PEEK - self.head.len();
        let more: usize = if room < buffer.len() {
            room
        } else {
            buffer.len()
        };
        let mut i: usize = 0;
        assert(before + buffer@.take(0) == before);
        while i < more
            invariant
                i <= more <= buffer@.len(),
                before.len() + more <= PEEK,
                self.head@ == before + buffer@.take(i as int),
                self.total == old(self).total,
            decreases more - i,
        {
            self.head.push(buffer[i]);
            i = i + 1;
            assert(buffer@.take(i as int) == buffer@.take(i - 1).push(buffer@[i - 1]));
        }
        let count: u64 = buffer.len() as u64;
        if count <= u64::MAX - self.total {
            self.total = self.total + count;
        } else {
            self.total = u64::MAX;
        }
        assert(self.head@ == before + kept(before.len(), buffer@));
        buffer.len()
    }
}

/// What is kept of bytes by a sink that holds `held` already.
pub open spec fn kept(held: nat, buffer: Seq<u8>) -> Seq<u8> {
    let room = PEEK - held;
    if buffer.len() <= room {
        buffer
    } else {
        buffer.take(room)
    }
}

/// A sink keeps the first bytes of what it is given, however they are cut.
pub proof fn a_sink_keeps_the_beginning(held: nat, first: Seq<u8>, second: Seq<u8>)
    requires
        held <= PEEK,
    ensures
        kept(held, first) + kept(held + kept(held, first).len(), second) == kept(
            held,
            first + second,
        ),
{
    let room = PEEK - held;
    if first.len() >= room {
        assert((first + second).take(room) == first.take(room));
        assert(first.len() == room ==> first.take(room) == first);
        assert(second.take(0) == Seq::<u8>::empty());
        if first.len() + second.len() <= room {
            assert(second == Seq::<u8>::empty());
        }
        assert(kept(held, first) + kept(held + kept(held, first).len(), second) =~= kept(
            held,
            first + second,
        ));
    } else if first.len() + second.len() > room {
        assert((first + second).take(room) == first + second.take(room - first.len()));
    }
}

/// What `String::from_utf8_lossy` reads in bytes.
pub uninterp spec fn lossy(bytes: Seq<u8>) -> Seq<char>;

/// `String::from_utf8_lossy`: the text of bytes, with a replacement character for what is no
/// UTF-8. It is a function of the bytes alone; nothing more is claimed of it.
#[verifier::external_body]
fn read_lossy(bytes: &Vec<u8>) -> (r: String)
    ensures
        r@ == lossy(bytes@),
{
    String::from_utf8_lossy(bytes).into_owned()
}

/// The lines of a text up to the first that is empty.
pub open spec fn until_blank(lines: Seq<Seq<char>>, n: int) -> Seq<Seq<char>>
    decreases n,
{
    if n <= 0 || n > lines.len() {
        seq![]
    } else if lines[lines.len() - n].len() == 0 {
        seq![]
    } else {
        seq![lines[lines.len() - n]] + until_blank(lines, n - 1)
    }
}

/// The headers of a message: its lines up to the first that is empty.
pub open spec fn headers(text: Seq<char>) -> Seq<Seq<char>> {
    let lines = text::lines(text);
    until_blank(lines, lines.len() as int)
}

/// The headers of a message: its lines up to the first that is empty.
pub fn header_lines(head: &str) -> (r: Vec<String>)
    ensures
        text::texts(r@) == headers(head@),
{
    let lines = text::lines_of(head);
    let ghost all = text::texts(lines@);
    let mut out: Vec<String> = Vec::new();
    let mut i: usize = 0;
    assert(text::texts(out@) + until_blank(all, all.len() as int) == headers(head@));
    while i < lines.len()
        invariant
            i <= lines.len(),
            all == text::texts(lines@),
            all.len() == lines.len(),
            text::texts(out@) + until_blank(all, all.len() - i) == headers(head@),
        decreases lines.len() - i,
    {
        assert(all[i as int] == lines@[i as int]@);
        if lines[i].as_str().unicode_len() == 0 {
            assert(until_blank(all, all.len() - i) == Seq::<Seq<char>>::empty());
            assert(text::texts(out@) == headers(head@));
            return out;
        }
        let ghost before = text::texts(out@);
        text::say(&mut out, lines[i].clone());
        assert(before.push(all[i as int]) + until_blank(all, all.len() - i - 1) == before + (
        seq![all[i as int]] + until_blank(all, all.len() - i - 1)));
        i = i + 1;
    }
    assert(text::texts(out@) == headers(head@));
    out
}

/// A file of the message that is shown, with its two sizes as they are to be shown.
pub struct ShownFile {
    pub filename: String,
    pub size: String,
    pub encoded: String,
}

/// The line of a file.
pub open spec fn file_line(it: ShownFile) -> Seq<char> {
    "  "@ + it.filename@ + " — "@ + it.size@ + " ("@ + it.encoded@ + " une fois encodée)"@
}

fn file_lines(files: &Vec<ShownFile>) -> (r: Vec<String>)
    ensures
        text::texts(r@) == Seq::new(files@.len(), |i: int| file_line(files@[i])),
{
    let mut out: Vec<String> = Vec::new();
    let mut i: usize = 0;
    while i < files.len()
        invariant
            i <= files.len(),
            out@.len() == i,
            forall|k: int| 0 <= k < i ==> (#[trigger] out@[k])@ == file_line(files@[k]),
        decreases files.len() - i,
    {
        let mut line = "  ".to_owned();
        line.append(files[i].filename.as_str());
        line.append(" — ");
        line.append(files[i].size.as_str());
        line.append(" (");
        line.append(files[i].encoded.as_str());
        line.append(" une fois encodée)");
        out.push(line);
        i = i + 1;
    }
    assert(text::texts(out@) =~= Seq::new(files@.len(), |i: int| file_line(files@[i])));
    out
}

/// The lines of the trial: the envelope, with the hidden recipients, then the headers that would
/// leave, then the files.
pub open spec fn show_text(
    from: Seq<char>,
    recipients: Seq<Seq<char>>,
    size: Seq<char>,
    headers: Seq<Seq<char>>,
    files: Seq<Seq<char>>,
) -> Seq<Seq<char>> {
    let s0 = Seq::<Seq<char>>::empty();
    let s1 = s0.push("Enveloppe SMTP"@).push("  MAIL FROM: <"@ + from + ">"@);
    let s2 = text::each_said(s1, "  RCPT TO:   "@, bracketed(recipients));
    let s3 = s2.push(""@).push("Message ("@ + size + ")"@);
    let s4 = text::each_said(s3, "  "@, headers);
    let s5 = if files.len() > 0 {
        text::each_said(s4.push(""@).push("Pièces jointes"@), ""@, files)
    } else {
        s4
    };
    let s6 = s5.push(""@).push("Rien n'a été envoyé, et aucune connexion n'a été ouverte."@);
    if files.len() > 0 {
        s6.push(
            "Les pièces jointes ont été rangées dans le magasin — `mail doctor` les compte \n             comme orphelines tant qu'aucun message ne les désigne."@,
        )
    } else {
        s6
    }
}

/// Addresses in brackets.
pub open spec fn bracketed(addresses: Seq<Seq<char>>) -> Seq<Seq<char>> {
    Seq::new(addresses.len(), |i: int| "<"@ + addresses[i] + ">"@)
}

fn brackets(addresses: &Vec<String>) -> (r: Vec<String>)
    ensures
        text::texts(r@) == bracketed(text::texts(addresses@)),
{
    let mut out: Vec<String> = Vec::new();
    let mut i: usize = 0;
    while i < addresses.len()
        invariant
            i <= addresses.len(),
            out@.len() == i,
            forall|k: int| 0 <= k < i ==> (#[trigger] out@[k])@ == "<"@ + addresses@[k]@ + ">"@,
        decreases addresses.len() - i,
    {
        let mut line = "<".to_owned();
        line.append(addresses[i].as_str());
        line.append(">");
        out.push(line);
        i = i + 1;
    }
    assert(text::texts(out@) =~= bracketed(text::texts(addresses@)));
    out
}

/// The lines of the trial, where `head` is the beginning of the message as text.
pub fn shown(
    from: &str,
    recipients: &Vec<String>,
    size: &str,
    head: &str,
    files: &Vec<ShownFile>,
) -> (r: Vec<String>)
    ensures
        text::texts(r@) == show_text(
            from@,
            text::texts(recipients@),
            size@,
            headers(head@),
            Seq::new(files@.len(), |i: int| file_line(files@[i])),
        ),
{
    let mut out: Vec<String> = Vec::new();
    assert(text::texts(out@) == Seq::<Seq<char>>::empty());
    text::say(&mut out, "Enveloppe SMTP".to_owned());
    let mut line = "  MAIL FROM: <".to_owned();
    line.append(from);
    line.append(">");
    text::say(&mut out, line);
    let envelope = brackets(recipients);
    text::say_each(&mut out, "  RCPT TO:   ", &envelope);
    text::say(&mut out, "".to_owned());
    let mut line = "Message (".to_owned();
    line.append(size);
    line.append(")");
    text::say(&mut out, line);
    let head_lines = header_lines(head);
    text::say_each(&mut out, "  ", &head_lines);
    let described = file_lines(files);
    if files.len() > 0 {
        text::say(&mut out, "".to_owned());
        text::say(&mut out, "Pièces jointes".to_owned());
        text::say_each(&mut out, "", &described);
    }
    text::say(&mut out, "".to_owned());
    text::say(&mut out, "Rien n'a été envoyé, et aucune connexion n'a été ouverte.".to_owned());
    if files.len() > 0 {
        text::say(
            &mut out,
            "Les pièces jointes ont été rangées dans le magasin — `mail doctor` les compte \n             comme orphelines tant qu'aucun message ne les désigne.".to_owned(),
        );
    }
    out
}

/// The lines of the trial of a message whose beginning a sink has kept.
pub fn show(
    from: &str,
    recipients: &Vec<String>,
    size: &str,
    peek: &Peek,
    files: &Vec<ShownFile>,
) -> (r: Vec<String>)
    ensures
        text::texts(r@) == show_text(
            from@,
            text::texts(recipients@),
            size@,
            headers(lossy(peek.head@)),
            Seq::new(files@.len(), |i: int| file_line(files@[i])),
        ),
{
    let head = read_lossy(&peek.head);
    shown(from, recipients, size, head.as_str(), files)
}

} // verus!
