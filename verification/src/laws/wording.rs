//! What is said in passing: each sentence is about what it was asked of, and the small readings are
//! those of what is there.
use crate::accounts;
use crate::accounts::FullAccount;
use crate::cache::Snapshot;
use crate::cli::account;
use crate::cli::dispatch;
use crate::cli::dispatch::Command;
use crate::cli::probe;
use crate::cli::remote;
use crate::cli::sync;
use crate::panes;
use crate::settings::Page;
use crate::signature::{Editor, Style};
use crate::text;
use vstd::prelude::*;
use vstd::string::*;

verus! {

proof fn lemma_said(a: Seq<char>, needle: Seq<char>, b: Seq<char>)
    ensures
        text::occurs(needle, a + needle + b),
{
    let all = a + needle + b;
    let at = a.len() as int;
    assert(all.subrange(at, at + needle.len()) == needle);
}

proof fn lemma_lines(lines: Seq<String>)
    ensures
        text::texts(lines).len() == lines.len(),
        forall|i: int| 0 <= i < lines.len() ==> (#[trigger] lines[i])@ == text::texts(lines)[i],
{
}

/// A token is asked for, kept and forgotten under the name of its daemon, and each is told apart.
pub proof fn a_token_is_that_of_its_daemon(
    daemon: &str,
    prompt: String,
    stored: String,
    forgotten: String,
    followed: String,
)
    requires
        call_ensures(remote::token_prompt, (daemon,), prompt),
        call_ensures(remote::token_stored, (daemon,), stored),
        call_ensures(remote::token_forgotten, (daemon,), forgotten),
        call_ensures(remote::followed, (daemon,), followed),
    ensures
        text::starts(prompt@, "Jeton pour "@ + daemon@),
        text::starts(stored@, "Jeton enregistré pour "@ + daemon@),
        text::starts(forgotten@, "Jeton oublié pour "@ + daemon@),
        text::occurs(daemon@, followed@),
{
    let a = "Jeton pour "@ + daemon@;
    let b = "Jeton enregistré pour "@ + daemon@;
    let c = "Jeton oublié pour "@ + daemon@;
    assert(prompt@.take(a.len() as int) == a);
    assert(stored@.take(b.len() as int) == b);
    assert(forgotten@.take(c.len() as int) == c);
    lemma_said("Suivi : `mail daemon status --daemon "@, daemon@, "`"@);
}

/// A daemon that answers is told with what it holds; one that does not is told with the reason, and
/// in more words.
pub proof fn a_daemon_that_answers_is_told_apart(
    messages: &str,
    protocol: &str,
    there: Vec<String>,
    why: &str,
    silent: Vec<String>,
)
    requires
        call_ensures(remote::greeted, (Ok((messages, protocol)),), there),
        call_ensures(remote::greeted, (Err(why),), silent),
    ensures
        there@.len() == 1,
        text::starts(there@[0]@, "Démon joignable : "@ + messages@ + " messages"@),
        text::occurs("protocole "@ + protocol@, there@[0]@),
        silent@.len() == 2,
        text::occurs(why@, silent@[1]@),
{
    lemma_lines(there@);
    lemma_lines(silent@);
    let lead = "Démon joignable : "@ + messages@;
    reveal_strlit(" messages, protocole ");
    reveal_strlit(" messages");
    reveal_strlit(", ");
    reveal_strlit("protocole ");
    assert(" messages, protocole "@ == " messages"@ + ", "@ + "protocole "@);
    let begun = lead + " messages"@;
    let said = "protocole "@ + protocol@;
    assert(there@[0]@ == (begun + ", "@) + said + "."@);
    assert(there@[0]@.take(begun.len() as int) == begun);
    lemma_said(begun + ", "@, said, "."@);
    lemma_said("  "@, why@, Seq::empty());
    assert("  "@ + why@ + Seq::<char>::empty() == "  "@ + why@);
}

/// A secret that is kept is told by the name that it is kept under; a server without a known
/// provider by its host; a file by its size.
pub proof fn what_is_told_is_named(
    username: &str,
    held: Vec<String>,
    host: &str,
    unknown: String,
    size: &str,
    hint: String,
)
    requires
        call_ensures(account::held_lines, (username,), held),
        call_ensures(account::unknown_provider, (host,), unknown),
        call_ensures(panes::attached_hint, (size,), hint),
    ensures
        held@.len() == 3,
        text::occurs(username@, held@[0]@),
        text::starts(unknown@, "aucun fournisseur OAuth2 connu pour "@ + host@),
        text::starts(hint@, size@),
{
    lemma_lines(held@);
    lemma_said("Secret déjà dans le trousseau pour "@, username@, " : réutilisé tel quel."@);
    let lead = "aucun fournisseur OAuth2 connu pour "@ + host@;
    assert(unknown@.take(lead.len() as int) == lead);
    assert(hint@.take(size@.len() as int) == size@);
}

/// The user is warned that a profile is left aside where one was given with an import, and nowhere
/// else; and of a server that lacks where it lacks.
pub proof fn a_warning_comes_where_there_is_reason(
    command: &Command,
    note: Option<&'static str>,
    it: &FullAccount,
    lacking: Option<&'static str>,
)
    requires
        call_ensures(dispatch::note, (command,), note),
        call_ensures(sync::no_server, (it,), lacking),
    ensures
        note is Some <==> (*command matches Command::Import { profile, .. } && profile is Some),
        lacking is Some <==> it.server is None,
{
}

/// The highest change is asked of a server that counts changes, and of no other.
pub proof fn changes_are_asked_of_a_server_that_counts_them(
    counting: &'static str,
    plain: &'static str,
)
    requires
        call_ensures(probe::status_items, (true,), counting),
        call_ensures(probe::status_items, (false,), plain),
    ensures
        counting@ == plain@ + " HIGHESTMODSEQ"@,
        plain@ == "MESSAGES UIDNEXT UIDVALIDITY"@,
{
    reveal_strlit("MESSAGES UIDNEXT UIDVALIDITY HIGHESTMODSEQ");
    reveal_strlit("MESSAGES UIDNEXT UIDVALIDITY");
    reveal_strlit(" HIGHESTMODSEQ");
    assert(counting@ == plain@ + " HIGHESTMODSEQ"@);
}

/// A port that is printed is read again as itself, and a number beyond the last port is none.
pub proof fn a_printed_port_is_read_again(n: u64, printed: String, again: &str, port: Option<u16>)
    requires
        call_ensures(text::decimal, (n,), printed),
        again@ == printed@,
        call_ensures(accounts::parse_port, (again,), port),
    ensures
        n <= 65535 ==> port == Some(n as u16),
        n > 65535 ==> port is None,
{
    crate::laws::texts::lemma_dec(n as nat);
    assert(printed@[0] != '+') by {
        assert('0' <= printed@[0] <= '9');
    }
}

/// A cache without a folder is not worth a file, and any other is.
pub proof fn a_cache_is_written_where_it_holds_a_folder(cache: &Snapshot, worth: bool)
    requires
        call_ensures(Snapshot::worth_writing, (cache,), worth),
    ensures
        worth <==> cache.folders@.len() > 0,
{
}

/// The page of the settings opens empty: no form, no question and no message, on the accounts of
/// this machine or of a daemon.
pub proof fn the_settings_open_empty(remote: bool, page: Page)
    requires
        call_ensures(Page::opened, (remote,), page),
    ensures
        page.accounts@.len() == 0,
        page.declaring is None && page.submitting is None && page.consenting is None,
        page.consent_url is None && page.forgetting is None,
        page.message is None && !page.failed,
        page.remote == remote,
{
}

/// A plain style has nothing; an editor counts the characters and the styled parts that it holds.
pub proof fn an_editor_counts_what_it_holds(
    style: Style,
    editor: &Editor,
    glyphs: usize,
    styles: usize,
    selected: bool,
)
    requires
        call_ensures(Style::plain, (), style),
        call_ensures(Editor::glyphs, (editor,), glyphs),
        call_ensures(Editor::styles, (editor,), styles),
        call_ensures(Editor::selected, (editor,), selected),
    ensures
        !style.bold && !style.italic && style.link is None,
        glyphs == editor.document.text@.len(),
        styles == editor.document.spans@.len(),
        editor.selection is None ==> !selected,
        editor.selection matches Some((a, b)) ==> (selected <==> a < b),
{
}

} // verus!
