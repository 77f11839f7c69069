//! Synchronising on the command line: which accounts, and what is said of each.
//!
//! An account that fails stops none of the others, and the command then fails as a whole.
use crate::accounts::{AccountKind, FullAccount};
use crate::text;
use vstd::prelude::*;
use vstd::string::*;

verus! {

/// Whether an account is one of those that a command is about, when they are not paused.
pub open spec fn concerned(account: FullAccount, only: Option<i64>) -> bool {
    account.kind == AccountKind::Imap && (only matches Some(id) ==> account.id == id)
}

/// The ranks, among the first `n` accounts, of those that are taken.
pub open spec fn taken(list: Seq<FullAccount>, only: Option<i64>, n: int) -> Seq<int>
    decreases n,
{
    if n <= 0 {
        Seq::empty()
    } else if concerned(list[n - 1], only) && list[n - 1].enabled {
        taken(list, only, n - 1).push(n - 1)
    } else {
        taken(list, only, n - 1)
    }
}

/// What is said of the paused accounts among the first `n`: nothing, unless an account was named.
/// Nothing having happened, without a reason, is the worst of answers.
pub open spec fn paused(list: Seq<FullAccount>, only: Option<i64>, n: int) -> Seq<Seq<char>>
    decreases n,
{
    if n <= 0 || only is None {
        Seq::empty()
    } else if concerned(list[n - 1], only) && !list[n - 1].enabled {
        paused(list, only, n - 1).push(
            "Compte #"@ + text::signed_dec(list[n - 1].id as int)
                + " en pause — `mail account add` pour le réactiver."@,
        )
    } else {
        paused(list, only, n - 1)
    }
}

/// What is said where no account is taken.
pub open spec fn nobody(only: Option<i64>) -> Seq<char> {
    match only {
        Some(id) => "Aucun compte IMAP actif portant le numéro "@ + text::signed_dec(id as int)
            + "."@,
        None => "Aucun compte IMAP actif. Voir `mail account list`."@,
    }
}

/// The accounts that a command is about.
pub struct Wanted {
    /// Their ranks, in order.
    pub ranks: Vec<usize>,
    /// What is said before anything is done.
    pub lines: Vec<String>,
}

/// Ranks, as numbers.
pub open spec fn ranks_of(ranks: Seq<usize>) -> Seq<int> {
    Seq::new(ranks.len(), |i: int| ranks[i] as int)
}

/// The accounts that are taken.
pub fn active(list: &Vec<FullAccount>, only: Option<i64>) -> (r: Vec<usize>)
    ensures
        ranks_of(r@) == taken(list@, only, list@.len() as int),
{
    let mut ranks: Vec<usize> = Vec::new();
    let mut i: usize = 0;
    assert(ranks_of(ranks@) == Seq::<int>::empty());
    while i < list.len()
        invariant
            i <= list.len(),
            ranks_of(ranks@) == taken(list@, only, i as int),
        decreases list.len() - i,
    {
        if is_concerned(&list[i], only) && list[i].enabled {
            let ghost before = ranks@;
            ranks.push(i);
            assert(ranks_of(ranks@) == ranks_of(before).push(i as int));
        }
        i = i + 1;
    }
    ranks
}

fn is_concerned(account: &FullAccount, only: Option<i64>) -> (r: bool)
    ensures
        r == concerned(*account, only),
{
    account.kind == AccountKind::Imap && match only {
        Some(id) => account.id == id,
        None => true,
    }
}

/// What is said where no account is taken.
pub fn nobody_line(only: Option<i64>) -> (r: String)
    ensures
        r@ == nobody(only),
{
    match only {
        Some(id) => {
            let mut out = "Aucun compte IMAP actif portant le numéro ".to_owned();
            out.append(text::decimal_signed(id).as_str());
            out.append(".");
            out
        },
        None => "Aucun compte IMAP actif. Voir `mail account list`.".to_owned(),
    }
}

/// The accounts to synchronise, and what is said before.
pub fn wanted(list: &Vec<FullAccount>, only: Option<i64>) -> (r: Wanted)
    ensures
        ranks_of(r.ranks@) == taken(list@, only, list@.len() as int),
        text::texts(r.lines@) == if r.ranks@.len() == 0 {
            paused(list@, only, list@.len() as int).push(nobody(only))
        } else {
            paused(list@, only, list@.len() as int)
        },
{
    let ranks = active(list, only);
    let mut lines: Vec<String> = Vec::new();
    assert(text::texts(lines@) == Seq::<Seq<char>>::empty());
    if only.is_some() {
        let mut i: usize = 0;
        while i < list.len()
            invariant
                i <= list.len(),
                only is Some,
                text::texts(lines@) == paused(list@, only, i as int),
            decreases list.len() - i,
        {
            if is_concerned(&list[i], only) && !list[i].enabled {
                let mut line = "Compte #".to_owned();
                line.append(text::decimal_signed(list[i].id).as_str());
                line.append(" en pause — `mail account add` pour le réactiver.");
                text::say(&mut lines, line);
            }
            i = i + 1;
        }
    }
    if ranks.len() == 0 {
        text::say(&mut lines, nobody_line(only));
    }
    Wanted { ranks, lines }
}

/// Every account that is taken is active and read over the network, and none that is so, and
/// concerned, is left out.
pub proof fn the_active_accounts_are_taken(list: Seq<FullAccount>, only: Option<i64>, k: int)
    requires
        0 <= k < list.len(),
    ensures
        taken(list, only, list.len() as int).contains(k) <==> (concerned(list[k], only)
            && list[k].enabled),
{
    lemma_taken(list, only, list.len() as int, k);
}

proof fn lemma_taken(list: Seq<FullAccount>, only: Option<i64>, n: int, k: int)
    requires
        0 <= n <= list.len(),
        0 <= k,
    ensures
        taken(list, only, n).contains(k) <==> (k < n && concerned(list[k], only)
            && list[k].enabled),
    decreases n,
{
    if n > 0 {
        lemma_taken(list, only, n - 1, k);
        let before = taken(list, only, n - 1);
        if concerned(list[n - 1], only) && list[n - 1].enabled {
            assert(before.push(n - 1).contains(k) <==> (before.contains(k) || k == n - 1)) by {
                assert(before.push(n - 1)[before.len() as int] == n - 1);
                if before.contains(k) {
                    let i = choose|i: int| 0 <= i < before.len() && before[i] == k;
                    assert(before.push(n - 1)[i] == k);
                }
            }
        }
    }
}

// ---------------------------------------------------------------------------------------------
// What is said of an account
// ---------------------------------------------------------------------------------------------

/// What the synchronisation of an account came to.
#[derive(Debug)]
pub struct Tally {
    pub folders: usize,
    pub skipped: usize,
    pub fetched: usize,
    pub stored: usize,
    pub duplicates: usize,
    pub vanished: usize,
    pub failures: Vec<String>,
}

/// A synchronisation that did nothing.
pub open spec fn nothing(it: Tally) -> bool {
    &&& it.folders == 0
    &&& it.skipped == 0
    &&& it.fetched == 0
    &&& it.stored == 0
    &&& it.duplicates == 0
    &&& it.vanished == 0
}

/// What an account that could not even be reached came to.
pub fn failed(why: String) -> (r: Tally)
    ensures
        nothing(r),
        text::texts(r.failures@) == seq![why@],
{
    let failures = vec![why];
    assert(text::texts(failures@) == seq![why@]);
    Tally {
        folders: 0,
        skipped: 0,
        fetched: 0,
        stored: 0,
        duplicates: 0,
        vanished: 0,
        failures,
    }
}

/// What is said of an account that should have a server and has none.
pub fn no_server(account: &FullAccount) -> (r: Option<&'static str>)
    ensures
        text::opt_str(r) == if account.server is None {
            Some("compte sans serveur : incohérent en base"@)
        } else {
            None
        },
{
    match &account.server {
        Some(_) => None,
        None => Some("compte sans serveur : incohérent en base"),
    }
}

/// A failure, with what is to be done about it: to insist on a refused password gets an account
/// blocked.
pub fn with_advice(failure: &str, retryable: bool) -> (r: String)
    ensures
        r@ == failure@ + if retryable {
            " (à réessayer)"@
        } else {
            " (à corriger)"@
        },
{
    let mut out = failure.to_owned();
    out.append(
        if retryable {
            " (à réessayer)"
        } else {
            " (à corriger)"
        },
    );
    out
}

/// The lines of an account. `rate` is the share of what was received that was already there.
pub open spec fn report_text(account: FullAccount, tally: Tally, rate: Seq<char>) -> Seq<Seq<char>> {
    let s0 = Seq::<Seq<char>>::empty();
    let s1 = s0.push(""@);
    let s2 = s1.push("Compte #"@ + text::signed_dec(account.id as int) + " — "@ + account.display_name@);
    let s3 = s2.push("  Dossiers        "@ + text::dec(tally.folders as nat) + " ("@ + text::dec(tally.skipped as nat) + " déjà à jour, sans EXAMINE)"@);
    let s4 = s3.push("  Corps reçus     "@ + text::dec(tally.fetched as nat));
    let s5 = s4.push("  Nouveaux        "@ + text::dec(tally.stored as nat) + " ("@ + text::dec(tally.duplicates as nat) + " déjà connus)"@);
    let s6 = if tally.vanished > 0 {
        s5.push("  Disparus        "@ + text::dec(tally.vanished as nat))
    } else {
        s5
    };
    let s7 = if tally.fetched > 0 {
        s6.push("  Dédup           "@ + rate + " % du reçu était déjà dans le store"@)
    } else {
        s6
    };
    let s8 = if tally.failures@.len() == 0 {
        s7.push("  Verdict         terminé"@)
    } else {
        s7
    };
    let s9 = if tally.failures@.len() > 0 {
        s8.push("  Verdict         "@ + text::dec(tally.failures@.len() as nat) + " échec(s) :"@)
    } else {
        s8
    };
    let s10 = text::each_said(s9, "    - "@, text::texts(tally.failures@));
    s10
}

/// The lines of an account. `rate` is the share of what was received that was already there.
pub fn report(account: &FullAccount, tally: &Tally, rate: &str) -> (r: Vec<String>)
    ensures
        text::texts(r@) == report_text(*account, *tally, rate@),
{
    let mut out: Vec<String> = Vec::new();
    assert(text::texts(out@) == Seq::<Seq<char>>::empty());
    text::say(&mut out, "".to_owned());
    {
        let mut line = "Compte #".to_owned();
        line.append(text::decimal_signed(account.id).as_str());
        line.append(" — ");
        line.append(account.display_name.as_str());
        text::say(&mut out, line);
    }
    {
        let mut line = "  Dossiers        ".to_owned();
        line.append(text::decimal_usize(tally.folders).as_str());
        line.append(" (");
        line.append(text::decimal_usize(tally.skipped).as_str());
        line.append(" déjà à jour, sans EXAMINE)");
        text::say(&mut out, line);
    }
    {
        let mut line = "  Corps reçus     ".to_owned();
        line.append(text::decimal_usize(tally.fetched).as_str());
        text::say(&mut out, line);
    }
    {
        let mut line = "  Nouveaux        ".to_owned();
        line.append(text::decimal_usize(tally.stored).as_str());
        line.append(" (");
        line.append(text::decimal_usize(tally.duplicates).as_str());
        line.append(" déjà connus)");
        text::say(&mut out, line);
    }
    if tally.vanished > 0 {
        let mut line = "  Disparus        ".to_owned();
        line.append(text::decimal_usize(tally.vanished).as_str());
        text::say(&mut out, line);
    }
    if tally.fetched > 0 {
        let mut line = "  Dédup           ".to_owned();
        line.append(rate);
        line.append(" % du reçu était déjà dans le store");
        text::say(&mut out, line);
    }
    if tally.failures.len() == 0 {
        text::say(&mut out, "  Verdict         terminé".to_owned());
    }
    if tally.failures.len() > 0 {
        let mut line = "  Verdict         ".to_owned();
        line.append(text::decimal_usize(tally.failures.len()).as_str());
        line.append(" échec(s) :");
        text::say(&mut out, line);
    }
    text::say_each(&mut out, "    - ", &tally.failures);
    out
}

/// Whether all went well.
pub open spec fn all_fine(fine: Seq<bool>) -> bool {
    forall|i: int| 0 <= i < fine.len() ==> #[trigger] fine[i]
}

/// Why a command fails that went through accounts, where it does: `what` is what could not be
/// done.
pub fn failure(fine: &Vec<bool>, what: &str) -> (r: Option<String>)
    ensures
        text::opt_text(r) == if all_fine(fine@) {
            None
        } else {
            Some("au moins un compte n'a pas pu être "@ + what@)
        },
{
    let mut i: usize = 0;
    while i < fine.len()
        invariant
            i <= fine.len(),
            forall|k: int| 0 <= k < i ==> #[trigger] fine@[k],
        decreases fine.len() - i,
    {
        if !fine[i] {
            assert(!fine@[i as int]);
            let mut out = "au moins un compte n'a pas pu être ".to_owned();
            out.append(what);
            return Some(out);
        }
        i = i + 1;
    }
    None
}

} // verus!
