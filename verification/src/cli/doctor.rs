//! The diagnosis of a store: what three engines that do not know one another may disagree on.
//!
//! Nothing here fails: something inconsistent is reported.
use crate::cli::send::SendState;
use crate::text;
use vstd::prelude::*;
use vstd::string::*;

verus! {

/// What a purge did, with the bytes that it gave back as they are to be shown.
#[derive(Debug)]
pub struct Purge {
    pub removed: u64,
    pub freed: String,
    pub failed: u64,
}

/// What was read in a store.
#[derive(Debug)]
pub struct Checkup {
    pub root: String,
    pub messages: u64,
    pub refs: u64,
    /// The bytes of the messages, as they are to be shown.
    pub size: String,
    /// The messages that belong to no thread.
    pub unthreaded: u64,
    /// The references to a message that does not exist.
    pub dangling: u64,
    /// The messages whose content is gone, as they are to be shown.
    pub missing: Vec<String>,
    /// The contents that no message designates.
    pub orphans: u64,
    /// What purging the orphans did, where it was asked for.
    pub purge: Option<Purge>,
    /// The number of indexed documents, or why the index could not be read.
    pub index: Result<u64, String>,
    /// Where the lines of the sending queue stand.
    pub queue: Vec<SendState>,
    /// The lines of the queue of which nobody knows whether they left.
    pub doubtful: Vec<i64>,
}

/// How many lines of the queue, among the first `n`, stand somewhere.
pub open spec fn standing(queue: Seq<SendState>, state: SendState, n: int) -> nat
    decreases n,
{
    if n <= 0 {
        0
    } else if queue[n - 1] == state {
        standing(queue, state, n - 1) + 1
    } else {
        standing(queue, state, n - 1)
    }
}

/// How many lines of the queue stand somewhere.
pub open spec fn count_of(queue: Seq<SendState>, state: SendState) -> nat {
    standing(queue, state, queue.len() as int)
}

fn count(queue: &Vec<SendState>, state: SendState) -> (r: usize)
    ensures
        r == count_of(queue@, state),
        r <= queue@.len(),
{
    let mut found: usize = 0;
    let mut i: usize = 0;
    while i < queue.len()
        invariant
            i <= queue.len(),
            found == standing(queue@, state, i as int),
            found <= i,
        decreases queue.len() - i,
    {
        if queue[i] == state {
            found = found + 1;
        }
        i = i + 1;
    }
    found
}

/// Two states that differ hold no more lines together than there are.
proof fn lemma_apart(queue: Seq<SendState>, a: SendState, b: SendState, n: int)
    requires
        a != b,
        0 <= n <= queue.len(),
    ensures
        standing(queue, a, n) + standing(queue, b, n) <= n,
    decreases n,
{
    if n > 0 {
        lemma_apart(queue, a, b, n - 1);
    }
}

/// Every line of the queue is counted once.
pub proof fn every_line_is_counted_once(queue: Seq<SendState>)
    ensures
        count_of(queue, SendState::Queued) + count_of(queue, SendState::Sending) + count_of(
            queue,
            SendState::Committing,
        ) + count_of(queue, SendState::Sent) + count_of(queue, SendState::Failed) == queue.len(),
{
    lemma_counted(queue, queue.len() as int);
}

proof fn lemma_counted(queue: Seq<SendState>, n: int)
    requires
        0 <= n <= queue.len(),
    ensures
        standing(queue, SendState::Queued, n) + standing(queue, SendState::Sending, n) + standing(
            queue,
            SendState::Committing,
            n,
        ) + standing(queue, SendState::Sent, n) + standing(queue, SendState::Failed, n) == n,
    decreases n,
{
    if n > 0 {
        lemma_counted(queue, n - 1);
    }
}

/// What is to be looked at.
pub open spec fn findings_text(it: Checkup) -> Seq<Seq<char>> {
    let s0 = Seq::<Seq<char>>::empty();
    let s1 = if it.dangling > 0 {
        s0.push(text::dec(it.dangling as nat) + " références vers un message inexistant"@)
    } else {
        s0
    };
    let s2 = if it.missing@.len() > 0 {
        s1.push(text::dec(it.missing@.len() as nat) + " messages dont le blob est absent (premier : "@ + it.missing@[0]@ + ")"@)
    } else {
        s1
    };
    let s3 = if it.orphans > 0 && it.purge is None {
        s2.push(text::dec(it.orphans as nat) + " blobs que plus aucun message ne désigne — de la place, pas du courrier perdu. `--purge-orphans` les supprime, **quand rien n'écrit**"@)
    } else {
        s2
    };
    let s4 = match it.purge {
        Some(purge) => if purge.failed > 0 {
            s3.push(text::dec(purge.failed as nat) + " blobs orphelins n'ont pas pu être supprimés — voir le journal"@)
        } else {
            s3
        },
        None => s3,
    };
    let s5 = match it.index {
        Ok(indexed) => if indexed != it.messages {
            s4.push("index désynchronisé : "@ + text::dec(indexed as nat) + " documents pour "@ + text::dec(it.messages as nat) + " messages — `mail index`"@)
        } else {
            s4
        },
        Err(why) => s4.push("index plein texte illisible : "@ + why@),
    };
    let s6 = if it.unthreaded > 0 {
        s5.push(text::dec(it.unthreaded as nat) + " messages sans fil — la passe de threading n'est pas passée"@)
    } else {
        s5
    };
    let s7 = if it.doubtful@.len() > 0 {
        s6.push(text::dec(it.doubtful@.len() as nat) + " message(s) dont personne ne sait s'ils sont partis — coupés entre le point final et la réponse du serveur. **Aucune reprise automatique** : les renvoyer risque un doublon chez le destinataire, les abandonner risque une perte. Premier : #"@ + text::signed_dec(it.doubtful@[0] as int))
    } else {
        s6
    };
    s7
}

/// What is to be looked at.
pub fn findings(it: &Checkup) -> (r: Vec<String>)
    ensures
        text::texts(r@) == findings_text(*it),
{
    let mut out: Vec<String> = Vec::new();
    assert(text::texts(out@) == Seq::<Seq<char>>::empty());
    if it.dangling > 0 {
        let mut line = text::decimal(it.dangling);
        line.append(" références vers un message inexistant");
        text::say(&mut out, line);
    }
    if it.missing.len() > 0 {
        let mut line = text::decimal_usize(it.missing.len());
        line.append(" messages dont le blob est absent (premier : ");
        line.append(it.missing[0].as_str());
        line.append(")");
        text::say(&mut out, line);
    }
    if it.orphans > 0 && it.purge.is_none() {
        let mut line = text::decimal(it.orphans);
        line.append(" blobs que plus aucun message ne désigne — de la place, pas du courrier perdu. `--purge-orphans` les supprime, **quand rien n'écrit**");
        text::say(&mut out, line);
    }
    match &it.purge {
        Some(purge) => {
            if purge.failed > 0 {
                let mut line = text::decimal(purge.failed);
                line.append(" blobs orphelins n'ont pas pu être supprimés — voir le journal");
                text::say(&mut out, line);
            }
        },
        None => {},
    }
    match &it.index {
        Ok(found) => {
            let indexed: u64 = *found;
            if indexed != it.messages {
                let mut line = "index désynchronisé : ".to_owned();
                line.append(text::decimal(indexed).as_str());
                line.append(" documents pour ");
                line.append(text::decimal(it.messages).as_str());
                line.append(" messages — `mail index`");
                text::say(&mut out, line);
            }
        },
        Err(why) => {
            let mut line = "index plein texte illisible : ".to_owned();
            line.append(why.as_str());
            text::say(&mut out, line);
        },
    }
    if it.unthreaded > 0 {
        let mut line = text::decimal(it.unthreaded);
        line.append(" messages sans fil — la passe de threading n'est pas passée");
        text::say(&mut out, line);
    }
    if it.doubtful.len() > 0 {
        let mut line = text::decimal_usize(it.doubtful.len());
        line.append(" message(s) dont personne ne sait s'ils sont partis — coupés entre le point final et la réponse du serveur. **Aucune reprise automatique** : les renvoyer risque un doublon chez le destinataire, les abandonner risque une perte. Premier : #");
        line.append(text::decimal_signed(it.doubtful[0]).as_str());
        text::say(&mut out, line);
    }
    out
}

/// A store is said to be consistent exactly when nothing is amiss in it.
pub proof fn nothing_amiss_goes_unsaid(it: Checkup)
    ensures
        findings_text(it).len() == 0 <==> {
            &&& it.dangling == 0
            &&& it.missing@.len() == 0
            &&& (it.orphans == 0 || it.purge is Some)
            &&& (it.purge matches Some(purge) ==> purge.failed == 0)
            &&& it.index == Ok::<u64, String>(it.messages)
            &&& it.unthreaded == 0
            &&& it.doubtful@.len() == 0
        },
{
}

/// All that a diagnosis says.
pub open spec fn checkup_text(it: Checkup) -> Seq<Seq<char>> {
    let s0 = Seq::<Seq<char>>::empty();
    let s1 = s0.push("Store              "@ + it.root@);
    let s2 = s1.push("Contenus distincts "@ + text::dec(it.messages as nat));
    let s3 = s2.push("Références         "@ + text::dec(it.refs as nat));
    let s4 = s3.push("Octets RFC 5322    "@ + it.size@);
    let s5 = match it.purge {
        Some(purge) => s4.push(""@).push("Purge              "@ + text::dec(purge.removed as nat) + " blobs supprimés, "@ + purge.freed@ + " rendus"@),
        None => s4,
    };
    let s6 = match it.index {
        Ok(indexed) => s5.push("Documents indexés  "@ + text::dec(indexed as nat)),
        Err(_) => s5,
    };
    let s7 = if it.queue@.len() > 0 {
        s6.push(
            "File d'envoi       "@ + text::dec(
                count_of(it.queue@, SendState::Queued) + count_of(it.queue@, SendState::Sending),
            ) + " en attente, "@ + text::dec(count_of(it.queue@, SendState::Sent))
                + " envoyés, "@ + text::dec(count_of(it.queue@, SendState::Failed)) + " échoués"@,
        )
    } else {
        s6
    };
    let s8 = s7.push(""@);
    let found = findings_text(it);
    if found.len() == 0 {
        s8.push("Aucune incohérence."@)
    } else {
        text::each_said(
            s8.push(text::dec(found.len()) + " points à regarder :"@),
            "  - "@,
            found,
        )
    }
}

/// All that a diagnosis says: what there is, then what is to be looked at.
pub fn report(it: &Checkup) -> (r: Vec<String>)
    ensures
        text::texts(r@) == checkup_text(*it),
{
    let mut out: Vec<String> = Vec::new();
    assert(text::texts(out@) == Seq::<Seq<char>>::empty());
    {
        let mut line = "Store              ".to_owned();
        line.append(it.root.as_str());
        text::say(&mut out, line);
    }
    {
        let mut line = "Contenus distincts ".to_owned();
        line.append(text::decimal(it.messages).as_str());
        text::say(&mut out, line);
    }
    {
        let mut line = "Références         ".to_owned();
        line.append(text::decimal(it.refs).as_str());
        text::say(&mut out, line);
    }
    {
        let mut line = "Octets RFC 5322    ".to_owned();
        line.append(it.size.as_str());
        text::say(&mut out, line);
    }
    match &it.purge {
        Some(purge) => {
            text::say(&mut out, "".to_owned());
            let mut line = "Purge              ".to_owned();
            line.append(text::decimal(purge.removed).as_str());
            line.append(" blobs supprimés, ");
            line.append(purge.freed.as_str());
            line.append(" rendus");
            text::say(&mut out, line);
        },
        None => {},
    }
    match &it.index {
        Ok(found) => {
            let indexed: u64 = *found;
            let mut line = "Documents indexés  ".to_owned();
            line.append(text::decimal(indexed).as_str());
            text::say(&mut out, line);
        },
        Err(_) => {},
    }
    if it.queue.len() > 0 {
        let queued: usize = count(&it.queue, SendState::Queued);
        let sending: usize = count(&it.queue, SendState::Sending);
        proof {
            lemma_apart(
                it.queue@,
                SendState::Queued,
                SendState::Sending,
                it.queue@.len() as int,
            );
        }
        let mut line = "File d'envoi       ".to_owned();
        line.append(text::decimal_usize(queued + sending).as_str());
        line.append(" en attente, ");
        line.append(text::decimal_usize(count(&it.queue, SendState::Sent)).as_str());
        line.append(" envoyés, ");
        line.append(text::decimal_usize(count(&it.queue, SendState::Failed)).as_str());
        line.append(" échoués");
        text::say(&mut out, line);
    }
    text::say(&mut out, "".to_owned());
    let found = findings(it);
    assert(text::texts(found@).len() == found.len());
    if found.len() == 0 {
        text::say(&mut out, "Aucune incohérence.".to_owned());
    } else {
        let mut line = text::decimal_usize(found.len());
        line.append(" points à regarder :");
        text::say(&mut out, line);
        text::say_each(&mut out, "  - ", &found);
    }
    out
}

} // verus!
