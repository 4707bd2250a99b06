//! Facts that a compacted conversation no longer names.
use vstd::prelude::*;
use vstd::string::*;

use crate::chars::chars_of;
use crate::drift_score::copy_texts;
use crate::keywords::{keyword_set, keywords, KeywordSet};
use crate::keywords::lemma_take_to_set;
use crate::text::{has_char, spells};

verus! {

/// A term whose loss matters more than that of others: one of a few words, or a name with a
/// dot, an underscore or a hyphen in it.
pub open spec fn is_important(term: Seq<char>) -> bool {
    ||| term == "constraint"@ || term == "constraints"@ || term == "failing"@
    ||| term == "failure"@ || term == "migration"@ || term == "privacy"@ || term == "secret"@
    ||| term == "redacted"@ || term == "budget"@ || term == "sqlite"@ || term == "tmux"@
    ||| term == "watch"@ || term == "test"@ || term == "tests"@
    ||| term.contains('.') || term.contains('_') || term.contains('-')
}

/// The order of texts by their characters.
pub open spec fn text_leq(a: Seq<char>, b: Seq<char>) -> bool
    decreases a.len(),
{
    if a.len() == 0 {
        true
    } else if b.len() == 0 {
        false
    } else if a[0] != b[0] {
        a[0] < b[0]
    } else {
        text_leq(a.drop_first(), b.drop_first())
    }
}

/// The order of terms: the important ones come first, and each kind in the order of texts.
pub open spec fn term_leq(a: Seq<char>, b: Seq<char>) -> bool {
    if is_important(a) == is_important(b) {
        text_leq(a, b)
    } else {
        is_important(a)
    }
}

/// The list holds the terms of the set, each once, in the order of terms.
pub open spec fn is_ranking(list: Seq<Seq<char>>, terms: Set<Seq<char>>) -> bool {
    &&& list.no_duplicates()
    &&& list.to_set() == terms
    &&& forall|i: int, j: int|
        #![trigger list[i], list[j]]
        0 <= i < j < list.len() ==> term_leq(list[i], list[j])
}

/// The terms of a set in the order of terms. There is one such list: see `lemma_one_ranking`.
pub open spec fn ranking(terms: Set<Seq<char>>) -> Seq<Seq<char>> {
    choose|list: Seq<Seq<char>>| is_ranking(list, terms)
}

/// The number of important terms from `i` on, until the first that is not.
pub open spec fn important_lead(list: Seq<Seq<char>>, i: int) -> int
    decreases list.len() - i,
{
    if 0 <= i < list.len() && is_important(list[i]) {
        important_lead(list, i + 1)
    } else {
        i
    }
}

/// How many of the ranked terms are told: the important ones, but no more than six, and three
/// where there are fewer important ones and enough terms.
pub open spec fn told_count(list: Seq<Seq<char>>) -> int {
    let important = important_lead(list, 0);
    if important >= 6 {
        6
    } else if important >= 3 {
        important
    } else if list.len() <= 3 {
        list.len() as int
    } else {
        3
    }
}

/// The terms of what came before that the latest text lacks.
pub open spec fn missing_terms(
    assistant: Seq<char>,
    initial: Seq<char>,
    previous: Seq<char>,
    latest: Seq<char>,
) -> Set<Seq<char>> {
    keywords(assistant, initial + " "@ + previous).difference(keywords(assistant, latest))
}

/// The missing facts that are told.
pub open spec fn missing_facts(
    assistant: Seq<char>,
    initial: Seq<char>,
    previous: Seq<char>,
    latest: Seq<char>,
) -> Seq<Seq<char>> {
    let ranked = ranking(missing_terms(assistant, initial, previous, latest));
    ranked.take(told_count(ranked))
}

// ---- The order of terms is a total order ----

proof fn lemma_text_leq_total(a: Seq<char>, b: Seq<char>)
    ensures
        text_leq(a, b) || text_leq(b, a),
    decreases a.len(),
{
    if a.len() > 0 && b.len() > 0 && a[0] == b[0] {
        lemma_text_leq_total(a.drop_first(), b.drop_first());
    }
}

proof fn lemma_text_leq_antisymmetric(a: Seq<char>, b: Seq<char>)
    requires
        text_leq(a, b),
        text_leq(b, a),
    ensures
        a == b,
    decreases a.len(),
{
    if a.len() > 0 && b.len() > 0 {
        lemma_text_leq_antisymmetric(a.drop_first(), b.drop_first());
        assert(a =~= seq![a[0]] + a.drop_first());
        assert(b =~= seq![b[0]] + b.drop_first());
    } else {
        assert(a =~= b);
    }
}

proof fn lemma_text_leq_transitive(a: Seq<char>, b: Seq<char>, c: Seq<char>)
    requires
        text_leq(a, b),
        text_leq(b, c),
    ensures
        text_leq(a, c),
    decreases a.len(),
{
    if a.len() > 0 && b.len() > 0 && c.len() > 0 && a[0] == b[0] && b[0] == c[0] {
        lemma_text_leq_transitive(a.drop_first(), b.drop_first(), c.drop_first());
    }
}

/// Of two terms one comes first, and only equal ones come both first; and the order passes on.
pub proof fn lemma_term_order(a: Seq<char>, b: Seq<char>, c: Seq<char>)
    ensures
        term_leq(a, b) || term_leq(b, a),
        term_leq(a, b) && term_leq(b, a) ==> a == b,
        term_leq(a, b) && term_leq(b, c) ==> term_leq(a, c),
{
    lemma_text_leq_total(a, b);
    if text_leq(a, b) && text_leq(b, a) {
        lemma_text_leq_antisymmetric(a, b);
    }
    if text_leq(a, b) && text_leq(b, c) {
        lemma_text_leq_transitive(a, b, c);
    }
}

/// There is no more than one ranking of a set of terms.
pub proof fn lemma_one_ranking(one: Seq<Seq<char>>, two: Seq<Seq<char>>, terms: Set<Seq<char>>)
    requires
        is_ranking(one, terms),
        is_ranking(two, terms),
    ensures
        one == two,
    decreases one.len(),
{
    one.unique_seq_to_set();
    two.unique_seq_to_set();
    if one.len() == 0 {
        assert(one =~= two);
    } else {
        assert(one.to_set().contains(one[0]));
        assert(two.to_set().contains(two[0]));
        let j = choose|j: int| 0 <= j < two.len() && two[j] == one[0];
        let i = choose|i: int| 0 <= i < one.len() && one[i] == two[0];
        if i > 0 && j > 0 {
            assert(term_leq(one[0], one[i]));
            assert(term_leq(two[0], two[j]));
            lemma_term_order(one[0], two[0], two[0]);
        }
        assert(one[0] == two[0]);
        lemma_tail_ranking(one, terms);
        lemma_tail_ranking(two, terms);
        lemma_one_ranking(one.drop_first(), two.drop_first(), terms.remove(one[0]));
        assert(one =~= seq![one[0]] + one.drop_first());
        assert(two =~= seq![two[0]] + two.drop_first());
    }
}

/// Without its first term a ranking is one of the other terms.
proof fn lemma_tail_ranking(list: Seq<Seq<char>>, terms: Set<Seq<char>>)
    requires
        is_ranking(list, terms),
        list.len() > 0,
    ensures
        is_ranking(list.drop_first(), terms.remove(list[0])),
{
    let tail = list.drop_first();
    assert forall|x: Seq<char>| tail.to_set().contains(x) == terms.remove(list[0]).contains(x) by {
        if tail.contains(x) {
            let k = choose|k: int| 0 <= k < tail.len() && tail[k] == x;
            assert(list[k + 1] == x);
            assert(list.to_set().contains(x));
        }
        if terms.contains(x) && x != list[0] {
            assert(list.to_set().contains(x));
            let k = choose|k: int| 0 <= k < list.len() && list[k] == x;
            assert(tail[k - 1] == x);
        }
    }
    assert(tail.to_set() =~= terms.remove(list[0]));
    assert forall|i: int, j: int|
        #![trigger tail[i], tail[j]]
        0 <= i < j < tail.len() implies term_leq(tail[i], tail[j]) by {
        assert(term_leq(list[i + 1], list[j + 1]));
    }
}

/// A new term that is put behind those that come no later, and before one that does, leaves a
/// ranking.
proof fn lemma_insert_ranking(
    before: Seq<Seq<char>>,
    at: int,
    term: Seq<char>,
    terms: Set<Seq<char>>,
)
    requires
        is_ranking(before, terms),
        !terms.contains(term),
        0 <= at <= before.len(),
        forall|k: int| 0 <= k < at ==> term_leq(#[trigger] before[k], term),
        at < before.len() ==> !term_leq(before[at], term),
    ensures
        is_ranking(before.insert(at, term), terms.insert(term)),
{
    let after = before.insert(at, term);
    if at < before.len() {
        lemma_term_order(before[at], term, term);
    }
    assert forall|x: Seq<char>| after.to_set().contains(x) == terms.insert(term).contains(x) by {
        if after.contains(x) && x != term {
            let k = choose|k: int| 0 <= k < after.len() && after[k] == x;
            let m = if k < at {
                k
            } else {
                k - 1
            };
            assert(before[m] == x);
            assert(before.to_set().contains(x));
        }
        if terms.contains(x) {
            assert(before.to_set().contains(x));
            let k = choose|k: int| 0 <= k < before.len() && before[k] == x;
            let m = if k < at {
                k
            } else {
                k + 1
            };
            assert(after[m] == x);
        }
        assert(after[at] == term);
    }
    assert(after.to_set() =~= terms.insert(term));
    assert forall|i: int| 0 <= i < before.len() implies #[trigger] before[i] != term by {
        assert(before.to_set().contains(before[i]));
    }
    assert forall|i: int, j: int|
        #![trigger after[i], after[j]]
        0 <= i < j < after.len() implies term_leq(after[i], after[j]) && after[i] != after[j] by {
        let m = if i < at {
            i
        } else {
            i - 1
        };
        let n = if j < at {
            j
        } else {
            j - 1
        };
        if i != at && j != at {
            assert(after[i] == before[m] && after[j] == before[n]);
        } else if i == at {
            assert(after[j] == before[n]);
            if n > at {
                assert(term_leq(before[at], before[n]));
            }
            lemma_term_order(term, before[at], before[n]);
        } else {
            assert(after[i] == before[m]);
        }
    }
}

/// A finite set of terms has a ranking.
pub proof fn lemma_ranking(terms: Set<Seq<char>>)
    requires
        terms.finite(),
    ensures
        is_ranking(ranking(terms), terms),
        ranking(terms).len() == terms.len(),
    decreases terms.len(),
{
    if terms.len() == 0 {
        let list = Seq::<Seq<char>>::empty();
        assert(list.to_set() =~= terms);
        assert(is_ranking(list, terms));
    } else {
        let term = terms.choose();
        let rest = terms.remove(term);
        lemma_ranking(rest);
        let list = ranking(rest);
        let at = lead(list, term, 0);
        lemma_lead(list, term, 0);
        lemma_insert_ranking(list, at, term, rest);
        assert(rest.insert(term) =~= terms);
        assert(is_ranking(list.insert(at, term), terms));
    }
    ranking(terms).unique_seq_to_set();
}

/// The end of the stretch of terms from `i` on that come no later than the given one.
spec fn lead(list: Seq<Seq<char>>, term: Seq<char>, i: int) -> int
    decreases list.len() - i,
{
    if 0 <= i < list.len() && term_leq(list[i], term) {
        lead(list, term, i + 1)
    } else {
        i
    }
}

proof fn lemma_lead(list: Seq<Seq<char>>, term: Seq<char>, i: int)
    requires
        0 <= i <= list.len(),
    ensures
        i <= lead(list, term, i) <= list.len(),
        forall|k: int| i <= k < lead(list, term, i) ==> term_leq(#[trigger] list[k], term),
        lead(list, term, i) < list.len() ==> !term_leq(list[lead(list, term, i)], term),
    decreases list.len() - i,
{
    if i < list.len() && term_leq(list[i], term) {
        lemma_lead(list, term, i + 1);
    }
}

// ---- Finding the missing facts ----

/// Decides whether the loss of a term matters more than that of others.
pub fn is_important_term(term: &str) -> (held: bool)
    ensures
        held == is_important(term@),
{
    let t = chars_of(term);
    spells(&t, "constraint") || spells(&t, "constraints") || spells(&t, "failing") || spells(
        &t,
        "failure",
    ) || spells(&t, "migration") || spells(&t, "privacy") || spells(&t, "secret") || spells(
        &t,
        "redacted",
    ) || spells(&t, "budget") || spells(&t, "sqlite") || spells(&t, "tmux") || spells(&t, "watch")
        || spells(&t, "test") || spells(&t, "tests") || has_char(&t, '.') || has_char(&t, '_')
        || has_char(&t, '-')
}

/// Decides whether a text comes no later than another.
fn text_in_order(a: &str, b: &str) -> (held: bool)
    ensures
        held == text_leq(a@, b@),
{
    let x = chars_of(a);
    let y = chars_of(b);
    let mut i: usize = 0;
    assert(x@.skip(0) =~= x@);
    assert(y@.skip(0) =~= y@);
    while i < x.len() && i < y.len()
        invariant
            i <= x@.len(),
            i <= y@.len(),
            text_leq(a@, b@) == text_leq(x@.skip(i as int), y@.skip(i as int)),
        decreases x@.len() - i,
    {
        if x[i] != y[i] {
            return x[i] < y[i];
        }
        assert(x@.skip(i as int).drop_first() =~= x@.skip(i + 1));
        assert(y@.skip(i as int).drop_first() =~= y@.skip(i + 1));
        i += 1;
    }
    i == x.len()
}

/// Decides whether a term comes no later than another.
fn term_in_order(a: &str, b: &str) -> (held: bool)
    ensures
        held == term_leq(a@, b@),
{
    let first: bool = is_important_term(a);
    if first == is_important_term(b) {
        text_in_order(a, b)
    } else {
        first
    }
}

/// Puts a new term in its place.
fn insert_term(list: &mut Vec<String>, term: &str, Ghost(terms): Ghost<Set<Seq<char>>>)
    requires
        is_ranking(old(list).deep_view(), terms),
        !terms.contains(term@),
    ensures
        is_ranking(final(list).deep_view(), terms.insert(term@)),
{
    let ghost before = list.deep_view();
    let mut at: usize = 0;
    while at < list.len() && term_in_order(list[at].as_str(), term)
        invariant
            at <= list@.len(),
            before == list.deep_view(),
            forall|k: int| 0 <= k < at ==> term_leq(#[trigger] before[k], term@),
        decreases list@.len() - at,
    {
        at += 1;
    }
    list.insert(at, term.to_string());
    proof {
        assert(list.deep_view() =~= before.insert(at as int, term@));
        lemma_insert_ranking(before, at as int, term@, terms);
    }
}

/// Ranks the terms of one set that are not in the other.
fn rank_missing(known: &KeywordSet, latest: &KeywordSet) -> (list: Vec<String>)
    requires
        known.wf(),
    ensures
        is_ranking(list.deep_view(), known@.difference(latest@)),
{
    let ghost all = known.listed();
    let count: usize = known.len();
    proof {
        all.unique_seq_to_set();
    }
    let mut list: Vec<String> = Vec::new();
    let mut i: usize = 0;
    assert(list.deep_view() =~= Seq::<Seq<char>>::empty());
    assert(list.deep_view().to_set() =~= all.take(0).to_set().difference(latest@));
    while i < count
        invariant
            i <= count == all.len(),
            all == known.listed(),
            all.no_duplicates(),
            is_ranking(list.deep_view(), all.take(i as int).to_set().difference(latest@)),
        decreases count - i,
    {
        let word = known.word_at(i);
        let ghost before = all.take(i as int).to_set();
        proof {
            lemma_take_to_set(all, i as int);
        }
        if !latest.has(word.as_str()) {
            assert(before.insert(word@).difference(latest@) =~= before.difference(latest@).insert(
                word@,
            ));
            insert_term(&mut list, word.as_str(), Ghost(before.difference(latest@)));
        } else {
            assert(before.insert(word@).difference(latest@) =~= before.difference(latest@));
        }
        i += 1;
    }
    assert(all.take(i as int) =~= all);
    list
}

/// Finds the missing facts that are to be told.
pub fn missing_important_facts(
    assistant: &str,
    initial: &str,
    previous: &str,
    latest: &str,
) -> (facts: Vec<String>)
    ensures
        facts.deep_view() == missing_facts(assistant@, initial@, previous@, latest@),
        facts@.len() <= 6,
{
    let mut both = initial.to_string();
    both.append(" ");
    both.append(previous);
    let known = keyword_set(assistant, both.as_str());
    let now = keyword_set(assistant, latest);
    let ranked = rank_missing(&known, &now);
    let ghost list = ranked.deep_view();
    proof {
        let terms = missing_terms(assistant@, initial@, previous@, latest@);
        assert(is_ranking(list, terms));
        lemma_one_ranking(list, ranking(terms), terms);
    }
    let mut important: usize = 0;
    while important < ranked.len() && is_important_term(ranked[important].as_str())
        invariant
            important <= ranked@.len(),
            list == ranked.deep_view(),
            important_lead(list, 0) == important_lead(list, important as int),
        decreases ranked@.len() - important,
    {
        important += 1;
    }
    let count: usize = if important >= 6 {
        6
    } else if important >= 3 {
        important
    } else if ranked.len() <= 3 {
        ranked.len()
    } else {
        3
    };
    let mut facts = copy_texts(&ranked);
    facts.truncate(count);
    assert(facts.deep_view() =~= list.take(count as int));
    facts
}

} // verus!
