//! Probing the servers: what they can do, and what it costs.
use crate::accounts::{FullAccount, Server};
use crate::text;
use vstd::prelude::*;
use vstd::string::*;

verus! {

// ---------------------------------------------------------------------------------------------
// Orders
// ---------------------------------------------------------------------------------------------

/// The place of a number among ordered ones: after all that are no greater.
pub open spec fn place(s: Seq<u64>, x: u64) -> int
    decreases s.len(),
{
    if s.len() == 0 {
        0
    } else if s.last() <= x {
        s.len() as int
    } else {
        place(s.drop_last(), x)
    }
}

/// Numbers, from the smallest to the greatest.
pub open spec fn ordered(s: Seq<u64>) -> Seq<u64>
    decreases s.len(),
{
    if s.len() == 0 {
        s
    } else {
        let before = ordered(s.drop_last());
        before.insert(place(before, s.last()), s.last())
    }
}

/// Ordering numbers loses none, repeats none, and puts no greater one before a smaller one.
pub proof fn ordering_keeps_the_numbers(s: Seq<u64>)
    ensures
        ordered(s).to_multiset() == s.to_multiset(),
        ordered(s).len() == s.len(),
        forall|i: int, j: int| 0 <= i < j < s.len() ==> ordered(s)[i] <= ordered(s)[j],
    decreases s.len(),
{
    if s.len() > 0 {
        let before = ordered(s.drop_last());
        ordering_keeps_the_numbers(s.drop_last());
        lemma_place(before, s.last());
        let at = place(before, s.last());
        let all = ordered(s);
        all.to_multiset_ensures();
        assert(all[at] == s.last());
        assert(all.remove(at) == before);
        assert(all.to_multiset() =~= before.to_multiset().insert(s.last()));
        assert(s == s.drop_last().push(s.last()));
        s.drop_last().to_multiset_ensures();
    }
}

proof fn lemma_place(s: Seq<u64>, x: u64)
    requires
        forall|i: int, j: int| 0 <= i < j < s.len() ==> s[i] <= s[j],
    ensures
        0 <= place(s, x) <= s.len(),
        forall|i: int| 0 <= i < place(s, x) ==> s[i] <= x,
        forall|i: int| place(s, x) <= i < s.len() ==> s[i] > x,
    decreases s.len(),
{
    if s.len() > 0 && s.last() > x {
        let rest = s.drop_last();
        assert forall|i: int, j: int| 0 <= i < j < rest.len() implies rest[i] <= rest[j] by {
            assert(s[i] <= s[j]);
        }
        lemma_place(rest, x);
        assert forall|i: int| place(s, x) <= i < s.len() implies s[i] > x by {
            if i < s.len() - 1 {
                assert(rest[i] == s[i]);
            }
        }
        assert forall|i: int| 0 <= i < place(s, x) implies s[i] <= x by {
            assert(rest[i] == s[i]);
        }
    } else if s.len() > 0 {
        assert forall|i: int| 0 <= i < s.len() implies s[i] <= x by {
            if i < s.len() - 1 {
                assert(s[i] <= s[s.len() - 1]);
            }
        }
    }
}

/// Numbers, from the smallest to the greatest.
pub fn order(numbers: &Vec<u64>) -> (r: Vec<u64>)
    ensures
        r@ == ordered(numbers@),
{
    let mut out: Vec<u64> = Vec::new();
    let mut i: usize = 0;
    assert(numbers@.take(0) == Seq::<u64>::empty());
    while i < numbers.len()
        invariant
            i <= numbers.len(),
            out@ == ordered(numbers@.take(i as int)),
            out.len() == i,
        decreases numbers.len() - i,
    {
        let x: u64 = numbers[i];
        let mut at: usize = out.len();
        assert(out@.take(at as int) == out@);
        while at > 0 && out[at - 1] > x
            invariant
                at <= out.len(),
                place(out@, x) == place(out@.take(at as int), x),
            decreases at,
        {
            assert(out@.take(at as int).drop_last() == out@.take(at - 1));
            at = at - 1;
        }
        proof {
            if at > 0 {
                assert(out@.take(at as int).last() == out@[at - 1]);
            }
            let next = numbers@.take(i + 1);
            assert(next.drop_last() == numbers@.take(i as int));
            assert(next.last() == x);
        }
        out.insert(at, x);
        i = i + 1;
    }
    assert(numbers@.take(numbers.len() as int) == numbers@);
    out
}

/// Whether a word comes before another, as a dictionary of code points has it.
pub open spec fn precedes(a: Seq<char>, b: Seq<char>) -> bool
    decreases a.len(),
{
    if b.len() == 0 {
        false
    } else if a.len() == 0 {
        true
    } else if a[0] != b[0] {
        a[0] < b[0]
    } else {
        precedes(a.skip(1), b.skip(1))
    }
}

/// Of two different words, one comes before the other, and not both.
pub proof fn words_have_one_order(a: Seq<char>, b: Seq<char>)
    ensures
        a == b ==> !precedes(a, b),
        a != b ==> (precedes(a, b) <==> !precedes(b, a)),
    decreases a.len(),
{
    if a.len() == 0 {
        assert(b.len() == 0 ==> a == b);
    } else if b.len() > 0 && a[0] == b[0] {
        words_have_one_order(a.skip(1), b.skip(1));
        if a.skip(1) == b.skip(1) {
            assert(a == seq![a[0]] + a.skip(1));
            assert(b == seq![b[0]] + b.skip(1));
        }
    }
}

/// What comes before a word comes before all that follow it.
pub proof fn the_order_of_words_carries_over(a: Seq<char>, b: Seq<char>, c: Seq<char>)
    requires
        precedes(a, b),
        precedes(b, c),
    ensures
        precedes(a, c),
    decreases a.len(),
{
    if a.len() > 0 && a[0] == b[0] && b[0] == c[0] {
        the_order_of_words_carries_over(a.skip(1), b.skip(1), c.skip(1));
    }
}

fn comes_before(a: &str, b: &str) -> (r: bool)
    ensures
        r == precedes(a@, b@),
{
    let left = text::chars_of(a);
    let right = text::chars_of(b);
    let mut i: usize = 0;
    assert(a@.skip(0) == a@ && b@.skip(0) == b@);
    while i < left.len() && i < right.len()
        invariant
            left@ == a@,
            right@ == b@,
            i <= left.len(),
            i <= right.len(),
            precedes(a@, b@) == precedes(a@.skip(i as int), b@.skip(i as int)),
        decreases left.len() - i,
    {
        assert(a@.skip(i as int)[0] == a@[i as int]);
        assert(b@.skip(i as int)[0] == b@[i as int]);
        if left[i] != right[i] {
            return left[i] < right[i];
        }
        assert(a@.skip(i as int).skip(1) == a@.skip(i + 1));
        assert(b@.skip(i as int).skip(1) == b@.skip(i + 1));
        i = i + 1;
    }
    i < right.len()
}

/// The place of a word among ordered ones.
pub open spec fn word_place(s: Seq<Seq<char>>, x: Seq<char>) -> int
    decreases s.len(),
{
    if s.len() == 0 {
        0
    } else if !precedes(x, s.last()) {
        s.len() as int
    } else {
        word_place(s.drop_last(), x)
    }
}

/// Words, in order.
pub open spec fn words_ordered(s: Seq<Seq<char>>) -> Seq<Seq<char>>
    decreases s.len(),
{
    if s.len() == 0 {
        s
    } else {
        let before = words_ordered(s.drop_last());
        before.insert(word_place(before, s.last()), s.last())
    }
}

/// Ordering words loses none, repeats none, and puts none before one that precedes it.
pub proof fn ordering_keeps_the_words(s: Seq<Seq<char>>)
    ensures
        words_ordered(s).to_multiset() == s.to_multiset(),
        words_ordered(s).len() == s.len(),
        forall|i: int, j: int|
            0 <= i < j < s.len() ==> !precedes(
                #[trigger] words_ordered(s)[j],
                #[trigger] words_ordered(s)[i],
            ),
    decreases s.len(),
{
    if s.len() > 0 {
        let before = words_ordered(s.drop_last());
        let x = s.last();
        ordering_keeps_the_words(s.drop_last());
        lemma_word_place(before, x);
        let at = word_place(before, x);
        let all = words_ordered(s);
        assert forall|i: int, j: int| 0 <= i < j < s.len() implies !precedes(
            #[trigger] all[j],
            #[trigger] all[i],
        ) by {
            if i < at && j > at {
                assert(all[i] == before[i] && all[j] == before[j - 1]);
            } else if i < at && j < at {
                assert(all[i] == before[i] && all[j] == before[j]);
            } else if i < at {
                assert(all[i] == before[i]);
            } else if i == at {
                assert(all[j] == before[j - 1]);
                words_have_one_order(x, before[j - 1]);
            } else {
                assert(all[i] == before[i - 1] && all[j] == before[j - 1]);
            }
        }
        all.to_multiset_ensures();
        assert(all[at] == x);
        assert(all.remove(at) == before);
        assert(all.to_multiset() =~= before.to_multiset().insert(x));
        assert(s == s.drop_last().push(x));
        s.drop_last().to_multiset_ensures();
    }
}

proof fn lemma_word_place(s: Seq<Seq<char>>, x: Seq<char>)
    requires
        forall|i: int, j: int|
            0 <= i < j < s.len() ==> !precedes(#[trigger] s[j], #[trigger] s[i]),
    ensures
        0 <= word_place(s, x) <= s.len(),
        forall|i: int| 0 <= i < word_place(s, x) ==> !precedes(x, #[trigger] s[i]),
        forall|i: int| word_place(s, x) <= i < s.len() ==> precedes(x, #[trigger] s[i]),
    decreases s.len(),
{
    if s.len() > 0 && precedes(x, s.last()) {
        let rest = s.drop_last();
        assert forall|i: int, j: int| 0 <= i < j < rest.len() implies !precedes(
            #[trigger] rest[j],
            #[trigger] rest[i],
        ) by {
            assert(!precedes(s[j], s[i]));
        }
        lemma_word_place(rest, x);
        assert forall|i: int| word_place(s, x) <= i < s.len() implies precedes(
            x,
            #[trigger] s[i],
        ) by {
            if i < s.len() - 1 {
                assert(rest[i] == s[i]);
            }
        }
        assert forall|i: int| 0 <= i < word_place(s, x) implies !precedes(x, #[trigger] s[i]) by {
            assert(rest[i] == s[i]);
        }
    } else if s.len() > 0 {
        assert forall|i: int| 0 <= i < s.len() implies !precedes(x, #[trigger] s[i]) by {
            if i < s.len() - 1 {
                assert(!precedes(s[s.len() - 1], s[i]));
                words_have_one_order(s[i], s.last());
                words_have_one_order(x, s.last());
                if precedes(x, s[i]) {
                    if s[i] != s.last() {
                        the_order_of_words_carries_over(x, s[i], s.last());
                    }
                }
            }
        }
    }
}

/// Words, in order.
pub fn order_words(words: &Vec<String>) -> (r: Vec<String>)
    ensures
        text::texts(r@) == words_ordered(text::texts(words@)),
{
    let mut out: Vec<String> = Vec::new();
    let mut i: usize = 0;
    let ghost all = text::texts(words@);
    assert(all.take(0) == Seq::<Seq<char>>::empty());
    assert(text::texts(out@) == Seq::<Seq<char>>::empty());
    while i < words.len()
        invariant
            i <= words.len(),
            all == text::texts(words@),
            text::texts(out@) == words_ordered(all.take(i as int)),
            out.len() == i,
        decreases words.len() - i,
    {
        let x = words[i].clone();
        let ghost before = text::texts(out@);
        let mut at: usize = out.len();
        assert(before.take(at as int) == before);
        while at > 0 && comes_before(x.as_str(), out[at - 1].as_str())
            invariant
                at <= out.len(),
                before == text::texts(out@),
                word_place(before, x@) == word_place(before.take(at as int), x@),
            decreases at,
        {
            assert(before.take(at as int).drop_last() == before.take(at - 1));
            assert(before[at - 1] == out@[at - 1]@);
            at = at - 1;
        }
        proof {
            if at > 0 {
                assert(before.take(at as int).last() == before[at - 1]);
                assert(before[at - 1] == out@[at - 1]@);
            }
            let next = all.take(i + 1);
            assert(next.drop_last() == all.take(i as int));
            assert(next.last() == x@);
        }
        let ghost held = out@;
        out.insert(at, x);
        assert(text::texts(out@) == before.insert(at as int, x@)) by {
            assert(out@ == held.insert(at as int, x));
        }
        i = i + 1;
    }
    assert(all.take(words.len() as int) == all);
    out
}

// ---------------------------------------------------------------------------------------------
// What was found
// ---------------------------------------------------------------------------------------------

/// What is asked of every folder at once.
pub fn status_items(condstore: bool) -> (r: &'static str)
    ensures
        r@ == if condstore {
            "MESSAGES UIDNEXT UIDVALIDITY HIGHESTMODSEQ"@
        } else {
            "MESSAGES UIDNEXT UIDVALIDITY"@
        },
{
    if condstore {
        "MESSAGES UIDNEXT UIDVALIDITY HIGHESTMODSEQ"
    } else {
        "MESSAGES UIDNEXT UIDVALIDITY"
    }
}

/// The state of a folder, as a server gives it; a number that it does not give is none.
#[derive(Debug)]
pub struct State {
    pub name: String,
    pub messages: Option<u32>,
    pub uidnext: Option<u32>,
    pub uidvalidity: Option<u32>,
    pub highest_modseq: Option<u64>,
}

/// What was learnt of an account.
#[derive(Debug)]
pub struct Findings {
    /// What the server says it can do, once authenticated.
    pub capabilities: Vec<String>,
    /// What was really enabled.
    pub condstore: bool,
    pub qresync: bool,
    pub listed: usize,
    pub selectable: usize,
    /// The milliseconds that listing took.
    pub list_took: u64,
    /// How many states came at once and the milliseconds that took, where the server knows how.
    pub list_status: Option<(usize, u64)>,
    pub states: Vec<State>,
    /// The milliseconds that opening each folder took.
    pub examines: Vec<u64>,
    /// The milliseconds of all that, measured as one.
    pub examined: u64,
    pub failure: Option<String>,
}

/// A number, or a dash where the server gave none: a number that is absent is not a zero.
pub open spec fn shown_number(value: Option<u32>) -> Seq<char> {
    match value {
        Some(n) => text::dec(n as nat),
        None => "—"@,
    }
}

/// A number that the server did not give is never shown as one that it gave, not even as zero.
pub proof fn an_absence_is_no_number(n: u32)
    ensures
        shown_number(None) != shown_number(Some(n)),
{
    reveal_strlit("—");
    assert(shown_number(None)[0] == '—');
    assert(text::dec(n as nat).last() == text::digit(n as int % 10));
}

/// A number, or a dash where the server gave none.
pub fn show(value: Option<u32>) -> (r: String)
    ensures
        r@ == shown_number(value),
{
    match value {
        Some(n) => text::decimal(n as u64),
        None => "—".to_owned(),
    }
}

/// Yes or no.
pub fn oui(value: bool) -> (r: &'static str)
    ensures
        r@ == yes(value),
{
    if value {
        "oui"
    } else {
        "non"
    }
}

/// Yes or no.
pub open spec fn yes(value: bool) -> Seq<char> {
    if value {
        "oui"@
    } else {
        "non"@
    }
}

/// Whether a server says that it can do something, whatever the size of the letters.
pub open spec fn announces(capabilities: Seq<String>, name: Seq<char>) -> bool {
    exists|i: int|
        0 <= i < capabilities.len() && text::same_but_case(#[trigger] capabilities[i]@, name)
}

/// The line of something that is watched for.
pub open spec fn watched_line(capabilities: Seq<String>, name: Seq<char>) -> Seq<char> {
    "  "@ + text::padded_right(name, ' ', 14) + " "@ + if announces(capabilities, name) {
        "annoncé"@
    } else {
        "—"@
    }
}

fn watched(capabilities: &Vec<String>, name: &str) -> (r: String)
    ensures
        r@ == watched_line(capabilities@, name@),
{
    let mut found = false;
    let mut i: usize = 0;
    while i < capabilities.len()
        invariant
            i <= capabilities.len(),
            found == exists|k: int|
                0 <= k < i && text::same_but_case(#[trigger] capabilities@[k]@, name@),
        decreases capabilities.len() - i,
    {
        if text::same_letters(capabilities[i].as_str(), name) {
            assert(text::same_but_case(capabilities@[i as int]@, name@));
            found = true;
        }
        i = i + 1;
    }
    let mut out = "  ".to_owned();
    out.append(text::pad_right(name, ' ', 14).as_str());
    out.append(" ");
    out.append(
        if found {
            "annoncé"
        } else {
            "—"
        },
    );
    out
}

/// The line of what opening every folder cost: the spread before the middle.
pub open spec fn examine_line(findings: Findings) -> Seq<char> {
    let n = findings.examines@.len();
    let times = ordered(findings.examines@);
    if n == 0 {
        "  EXAMINE        aucune boîte sélectionnable"@
    } else {
        "  EXAMINE        "@ + text::dec(n) + " boîtes — "@ + text::dec(findings.examined as nat)
            + " ms au total, min "@ + text::dec(times[0] as nat) + " ms, médiane "@ + text::dec(
            times[n as int / 2] as nat,
        ) + " ms, max "@ + text::dec(times[n - 1] as nat) + " ms"@
    }
}

fn examined(findings: &Findings) -> (r: String)
    ensures
        r@ == examine_line(*findings),
{
    let n: usize = findings.examines.len();
    if n == 0 {
        return "  EXAMINE        aucune boîte sélectionnable".to_owned();
    }
    let times = order(&findings.examines);
    proof {
        ordering_keeps_the_numbers(findings.examines@);
    }
    let mut out = "  EXAMINE        ".to_owned();
    out.append(text::decimal_usize(n).as_str());
    out.append(" boîtes — ");
    out.append(text::decimal(findings.examined).as_str());
    out.append(" ms au total, min ");
    out.append(text::decimal(times[0]).as_str());
    out.append(" ms, médiane ");
    out.append(text::decimal(times[n / 2]).as_str());
    out.append(" ms, max ");
    out.append(text::decimal(times[n - 1]).as_str());
    out.append(" ms");
    out
}

/// The line of the state of a folder.
pub open spec fn state_line(it: State) -> Seq<char> {
    text::padded_right(it.name@, ' ', 40) + " messages "@ + text::padded_left(
        shown_number(it.messages),
        ' ',
        7,
    ) + "  uidnext "@ + text::padded_left(shown_number(it.uidnext), ' ', 8) + "  uidvalidity "@
        + text::padded_left(shown_number(it.uidvalidity), ' ', 10) + "  modseq "@ + match it.highest_modseq {
        Some(n) => text::dec(n as nat),
        None => "—"@,
    }
}

/// The lines of the states of folders.
pub open spec fn state_lines(states: Seq<State>) -> Seq<Seq<char>> {
    Seq::new(states.len(), |i: int| state_line(states[i]))
}

fn states_of(states: &Vec<State>) -> (r: Vec<String>)
    ensures
        text::texts(r@) == state_lines(states@),
{
    let mut out: Vec<String> = Vec::new();
    let mut i: usize = 0;
    while i < states.len()
        invariant
            i <= states.len(),
            out@.len() == i,
            forall|k: int| 0 <= k < i ==> (#[trigger] out@[k])@ == state_line(states@[k]),
        decreases states.len() - i,
    {
        let it = &states[i];
        let mut line = text::pad_right(it.name.as_str(), ' ', 40);
        line.append(" messages ");
        line.append(text::pad_left(show(it.messages).as_str(), ' ', 7).as_str());
        line.append("  uidnext ");
        line.append(text::pad_left(show(it.uidnext).as_str(), ' ', 8).as_str());
        line.append("  uidvalidity ");
        line.append(text::pad_left(show(it.uidvalidity).as_str(), ' ', 10).as_str());
        line.append("  modseq ");
        match it.highest_modseq {
            Some(n) => {
                line.append(text::decimal(n).as_str());
            },
            None => {
                line.append("—");
            },
        }
        out.push(line);
        i = i + 1;
    }
    assert(text::texts(out@) =~= state_lines(states@));
    out
}

/// Where an account reads, as it is shown.
pub open spec fn host_text(server: Option<Server>) -> Seq<char> {
    match server {
        Some(server) => server.host@ + ":"@ + text::dec(server.port as nat),
        None => "?"@,
    }
}

fn host(server: &Option<Server>) -> (r: String)
    ensures
        r@ == host_text(*server),
{
    match server {
        Some(server) => {
            let mut out = server.host.clone();
            out.append(":");
            out.append(text::decimal(server.port as u64).as_str());
            out
        },
        None => "?".to_owned(),
    }
}

/// The line of the states that came at once.
pub open spec fn list_status_line(findings: Findings) -> Seq<char> {
    match findings.list_status {
        Some((answered, took)) => "  LIST-STATUS    "@ + text::dec(answered as nat)
            + " STATUS pour "@ + text::dec(findings.selectable as nat) + " boîtes — "@ + text::dec(
            took as nat,
        ) + " ms"@,
        None => "  LIST-STATUS    non annoncé"@,
    }
}

fn list_status(findings: &Findings) -> (r: String)
    ensures
        r@ == list_status_line(*findings),
{
    match findings.list_status {
        Some((answered, took)) => {
            let mut out = "  LIST-STATUS    ".to_owned();
            out.append(text::decimal_usize(answered).as_str());
            out.append(" STATUS pour ");
            out.append(text::decimal_usize(findings.selectable).as_str());
            out.append(" boîtes — ");
            out.append(text::decimal(took).as_str());
            out.append(" ms");
            out
        },
        None => "  LIST-STATUS    non annoncé".to_owned(),
    }
}

/// What is said of a server that answered.
pub open spec fn answer_text(findings: Findings, detail: bool) -> Seq<Seq<char>> {
    let caps = findings.capabilities@;
    let s0 = seq![
        watched_line(caps, "CONDSTORE"@),
        watched_line(caps, "QRESYNC"@),
        watched_line(caps, "LIST-EXTENDED"@),
        watched_line(caps, "LIST-STATUS"@),
        watched_line(caps, "ESEARCH"@),
        watched_line(caps, "IDLE"@),
        "  ENABLE         condstore "@ + yes(findings.condstore) + ", qresync "@ + yes(
            findings.qresync,
        ),
        "  LIST           "@ + text::dec(findings.listed as nat) + " boîtes, "@ + text::dec(
            findings.selectable as nat,
        ) + " sélectionnables — "@ + text::dec(findings.list_took as nat) + " ms"@,
        list_status_line(findings),
        examine_line(findings),
        "  capacités      "@ + text::joined(words_ordered(text::texts(caps)), " "@),
    ];
    let s1 = if detail && findings.states@.len() > 0 {
        text::each_said(s0.push("  état des boîtes :"@), "    "@, state_lines(findings.states@))
    } else {
        s0
    };
    s1.push(""@)
}

/// All that is said of an account.
pub open spec fn report_text(account: FullAccount, findings: Findings, detail: bool) -> Seq<
    Seq<char>,
> {
    let first = "#"@ + text::signed_dec(account.id as int) + " "@ + account.display_name@ + " — "@
        + host_text(account.server);
    match findings.failure {
        Some(reason) => seq![first, "  échec : "@ + reason@, ""@],
        None => seq![first] + answer_text(findings, detail),
    }
}

fn answer(findings: &Findings, detail: bool, out: &mut Vec<String>)
    ensures
        text::texts(final(out)@) == text::texts(old(out)@) + answer_text(*findings, detail),
{
    let mut more: Vec<String> = Vec::new();
    more.push(watched(&findings.capabilities, "CONDSTORE"));
    more.push(watched(&findings.capabilities, "QRESYNC"));
    more.push(watched(&findings.capabilities, "LIST-EXTENDED"));
    more.push(watched(&findings.capabilities, "LIST-STATUS"));
    more.push(watched(&findings.capabilities, "ESEARCH"));
    more.push(watched(&findings.capabilities, "IDLE"));
    let mut line = "  ENABLE         condstore ".to_owned();
    line.append(oui(findings.condstore));
    line.append(", qresync ");
    line.append(oui(findings.qresync));
    more.push(line);
    let mut line = "  LIST           ".to_owned();
    line.append(text::decimal_usize(findings.listed).as_str());
    line.append(" boîtes, ");
    line.append(text::decimal_usize(findings.selectable).as_str());
    line.append(" sélectionnables — ");
    line.append(text::decimal(findings.list_took).as_str());
    line.append(" ms");
    more.push(line);
    more.push(list_status(findings));
    more.push(examined(findings));
    let words = order_words(&findings.capabilities);
    let mut line = "  capacités      ".to_owned();
    line.append(text::join(&words, " ").as_str());
    more.push(line);
    let ghost caps = findings.capabilities@;
    let ghost s0 = seq![
        watched_line(caps, "CONDSTORE"@),
        watched_line(caps, "QRESYNC"@),
        watched_line(caps, "LIST-EXTENDED"@),
        watched_line(caps, "LIST-STATUS"@),
        watched_line(caps, "ESEARCH"@),
        watched_line(caps, "IDLE"@),
        "  ENABLE         condstore "@ + yes(findings.condstore) + ", qresync "@ + yes(
            findings.qresync,
        ),
        "  LIST           "@ + text::dec(findings.listed as nat) + " boîtes, "@ + text::dec(
            findings.selectable as nat,
        ) + " sélectionnables — "@ + text::dec(findings.list_took as nat) + " ms"@,
        list_status_line(*findings),
        examine_line(*findings),
        "  capacités      "@ + text::joined(words_ordered(text::texts(caps)), " "@),
    ];
    assert(text::texts(more@) =~= s0);
    if detail && findings.states.len() > 0 {
        text::say(&mut more, "  état des boîtes :".to_owned());
        let states = states_of(&findings.states);
        text::say_each(&mut more, "    ", &states);
    }
    text::say(&mut more, "".to_owned());
    let ghost before = text::texts(out@);
    let ghost said = text::texts(more@);
    let ghost held = out@;
    let ghost added = more@;
    out.append(&mut more);
    assert(out@ == held + added);
    assert(text::texts(out@) =~= before + said);
}

/// All that is said of an account. A server that failed is said to have, and nothing else is said
/// of it.
pub fn report(account: &FullAccount, findings: &Findings, detail: bool) -> (r: Vec<String>)
    ensures
        text::texts(r@) == report_text(*account, *findings, detail),
{
    let mut out: Vec<String> = Vec::new();
    let mut line = "#".to_owned();
    line.append(text::decimal_signed(account.id).as_str());
    line.append(" ");
    line.append(account.display_name.as_str());
    line.append(" — ");
    line.append(host(&account.server).as_str());
    let ghost first = line@;
    out.push(line);
    match &findings.failure {
        Some(reason) => {
            let mut line = "  échec : ".to_owned();
            line.append(reason.as_str());
            out.push(line);
            out.push("".to_owned());
            assert(text::texts(out@) =~= report_text(*account, *findings, detail));
        },
        None => {
            assert(text::texts(out@) =~= seq![first]);
            answer(findings, detail, &mut out);
        },
    }
    out
}

} // verus!
