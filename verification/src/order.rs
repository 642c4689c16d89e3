//! Bounded ranking: the first few positions of a list, in the order of a
//! strict total order on positions.
//!
//! `leads` says what such a ranking is. Two orders are offered: by score,
//! higher first, and by name, in dictionary order. In both, positions that
//! tie stay in list order, so a ranking is the start of a stable sort.

use vstd::prelude::*;
use crate::text::{lemma_lex_irreflexive, lemma_lex_total, lemma_lex_transitive, lex_lt, text_lt};

verus! {

/// `order` holds the first `limit` eligible positions below `n` as `precedes`
/// orders them, or all of them where there are fewer: every listed position is
/// eligible, the list is strictly ascending in `precedes`, and a position is
/// left out only of a full list, and only if every listed one precedes it.
pub open spec fn leads(
    order: Seq<usize>,
    n: nat,
    eligible: spec_fn(usize) -> bool,
    precedes: spec_fn(usize, usize) -> bool,
    limit: nat,
) -> bool {
    &&& order.len() <= limit
    &&& forall|k: int| 0 <= k < order.len() ==> (#[trigger] order[k]) < n && eligible(order[k])
    &&& forall|k: int, l: int|
        0 <= k < l < order.len() ==> precedes(#[trigger] order[k], #[trigger] order[l])
    &&& forall|j: usize|
        j < n && #[trigger] eligible(j) && !order.contains(j) ==> order.len() == limit && forall|
            k: int,
        | 0 <= k < order.len() ==> precedes(#[trigger] order[k], j)
}

/// `precedes` is a strict total order on the eligible positions below `n`.
pub open spec fn strict_total(
    n: nat,
    eligible: spec_fn(usize) -> bool,
    precedes: spec_fn(usize, usize) -> bool,
) -> bool {
    &&& forall|a: usize| a < n && eligible(a) ==> !#[trigger] precedes(a, a)
    &&& forall|a: usize, b: usize|
        a < n && b < n && eligible(a) && eligible(b) && a != b ==> #[trigger] precedes(a, b)
            || #[trigger] precedes(b, a)
    &&& forall|a: usize, b: usize, c: usize|
        a < n && b < n && c < n && eligible(a) && eligible(b) && eligible(c) && #[trigger] precedes(
            a,
            b,
        ) && #[trigger] precedes(b, c) ==> precedes(a, c)
}

/// How many of the positions below `n` are eligible.
pub open spec fn eligible_count(n: nat, eligible: spec_fn(usize) -> bool) -> nat
    decreases n,
{
    if n == 0 {
        0
    } else {
        eligible_count((n - 1) as nat, eligible) + if eligible((n - 1) as usize) {
            1nat
        } else {
            0nat
        }
    }
}

/// Position `a` precedes `b` by score: its score is higher, or the scores are
/// equal and `a` comes first in the list.
pub open spec fn score_precedes(scores: Seq<Option<i64>>, a: usize, b: usize) -> bool {
    scores[a as int]->0 > scores[b as int]->0 || (scores[a as int]->0 == scores[b as int]->0 && a
        < b)
}

/// Position `a` precedes `b` by name: its name comes first in dictionary
/// order, or the names are equal and `a` comes first in the list.
pub open spec fn name_precedes(names: Seq<Seq<char>>, a: usize, b: usize) -> bool {
    lex_lt(names[a as int], names[b as int]) || (names[a as int] == names[b as int] && a < b)
}

/// `order` holds the positions of the `limit` highest scores, highest first;
/// a position without a score is never listed.
pub open spec fn leads_by_score(order: Seq<usize>, scores: Seq<Option<i64>>, limit: nat) -> bool {
    leads(
        order,
        scores.len(),
        |i: usize| scores[i as int] is Some,
        |a: usize, b: usize| score_precedes(scores, a, b),
        limit,
    )
}

/// `order` holds the positions of the `limit` first names in dictionary order.
pub open spec fn leads_by_name(order: Seq<usize>, names: Seq<Seq<char>>, limit: nat) -> bool {
    leads(order, names.len(), |i: usize| true, |a: usize, b: usize| name_precedes(names, a, b), limit)
}

/// How many of `scores` are scores.
pub open spec fn match_count(scores: Seq<Option<i64>>) -> nat {
    eligible_count(scores.len(), |i: usize| scores[i as int] is Some)
}

/// The characters of each text of `names`.
pub open spec fn char_texts(names: Seq<Vec<char>>) -> Seq<Seq<char>> {
    Seq::new(names.len(), |i: int| names[i]@)
}

/// A ranking is determined by the list and the order: two lists that both
/// lead under the same strict total order are the same list.
pub proof fn lemma_leads_unique(
    first: Seq<usize>,
    second: Seq<usize>,
    n: nat,
    eligible: spec_fn(usize) -> bool,
    precedes: spec_fn(usize, usize) -> bool,
    limit: nat,
)
    requires
        strict_total(n, eligible, precedes),
        leads(first, n, eligible, precedes, limit),
        leads(second, n, eligible, precedes, limit),
    ensures
        first == second,
{
    lemma_leads_agree(first, second, n, eligible, precedes, limit, first.len() as int);
    lemma_leads_no_longer(first, second, n, eligible, precedes, limit);
    lemma_leads_no_longer(second, first, n, eligible, precedes, limit);
}

/// There is one ranking by score: two lists that both lead by score are the
/// same list.
pub proof fn lemma_score_ranking_unique(
    first: Seq<usize>,
    second: Seq<usize>,
    scores: Seq<Option<i64>>,
    limit: nat,
)
    requires
        leads_by_score(first, scores, limit),
        leads_by_score(second, scores, limit),
    ensures
        first == second,
{
    lemma_leads_unique(
        first,
        second,
        scores.len(),
        |i: usize| scores[i as int] is Some,
        |a: usize, b: usize| score_precedes(scores, a, b),
        limit,
    );
}

/// There is one ranking by name: two lists that both lead by name are the
/// same list.
pub proof fn lemma_name_ranking_unique(
    first: Seq<usize>,
    second: Seq<usize>,
    names: Seq<Seq<char>>,
    limit: nat,
)
    requires
        leads_by_name(first, names, limit),
        leads_by_name(second, names, limit),
    ensures
        first == second,
{
    lemma_names_ordered(names);
    lemma_leads_unique(
        first,
        second,
        names.len(),
        |i: usize| true,
        |a: usize, b: usize| name_precedes(names, a, b),
        limit,
    );
}

/// A ranking by score never rises: no listed position has a higher score
/// than one listed before it.
pub proof fn lemma_score_ranking_descends(order: Seq<usize>, scores: Seq<Option<i64>>, limit: nat)
    requires
        leads_by_score(order, scores, limit),
    ensures
        forall|k: int, l: int|
            0 <= k < l < order.len() ==> scores[order[k] as int]->0 >= scores[order[l] as int]->0,
{
    assert forall|k: int, l: int| 0 <= k < l < order.len() implies scores[order[k] as int]->0
        >= scores[order[l] as int]->0 by {
        assert(score_precedes(scores, order[k], order[l]));
    }
}

/// A ranking by name is sorted ascending: no listed name comes before the
/// name of a position listed earlier.
pub proof fn lemma_name_ranking_ascends(order: Seq<usize>, names: Seq<Seq<char>>, limit: nat)
    requires
        leads_by_name(order, names, limit),
    ensures
        forall|k: int, l: int|
            0 <= k < l < order.len() ==> !lex_lt(names[order[l] as int], names[order[k] as int]),
{
    assert forall|k: int, l: int| 0 <= k < l < order.len() implies !lex_lt(
        names[order[l] as int],
        names[order[k] as int],
    ) by {
        let x = names[order[k] as int];
        let y = names[order[l] as int];
        lemma_lex_irreflexive(x);
        if lex_lt(x, y) && lex_lt(y, x) {
            lemma_lex_transitive(x, y, x);
        }
    }
}

/// Two rankings agree on every place that both have, up to `upto`.
proof fn lemma_leads_agree(
    first: Seq<usize>,
    second: Seq<usize>,
    n: nat,
    eligible: spec_fn(usize) -> bool,
    precedes: spec_fn(usize, usize) -> bool,
    limit: nat,
    upto: int,
)
    requires
        strict_total(n, eligible, precedes),
        leads(first, n, eligible, precedes, limit),
        leads(second, n, eligible, precedes, limit),
        0 <= upto <= first.len(),
    ensures
        forall|k: int| 0 <= k < upto && k < second.len() ==> first[k] == second[k],
    decreases upto,
{
    if upto > 0 {
        lemma_leads_agree(first, second, n, eligible, precedes, limit, upto - 1);
        let k = upto - 1;
        if k < second.len() {
            lemma_leads_not_ahead(first, second, n, eligible, precedes, limit, k);
            lemma_leads_not_ahead(second, first, n, eligible, precedes, limit, k);
        }
    }
}

/// Where two rankings agree before place `k`, the one that `first` has at
/// place `k` does not precede the one that `second` has there.
proof fn lemma_leads_not_ahead(
    first: Seq<usize>,
    second: Seq<usize>,
    n: nat,
    eligible: spec_fn(usize) -> bool,
    precedes: spec_fn(usize, usize) -> bool,
    limit: nat,
    k: int,
)
    requires
        strict_total(n, eligible, precedes),
        leads(first, n, eligible, precedes, limit),
        leads(second, n, eligible, precedes, limit),
        0 <= k < first.len(),
        k < second.len(),
        forall|m: int| 0 <= m < k ==> first[m] == second[m],
    ensures
        !precedes(first[k], second[k]),
{
    let a = first[k];
    if precedes(a, second[k]) {
        // Were `a` missing from `second`, all of `second` would precede it.
        // So it stands there: not before place `k`, where `first` has it a
        // second time, and not behind, where `second[k]` would precede it.
        let m = choose|m: int| 0 <= m < second.len() && second[m] == a;
        assert(second.contains(a) ==> m >= k);
    }
}

/// Of two rankings that agree wherever both have a place, the second is no
/// longer than the first.
proof fn lemma_leads_no_longer(
    first: Seq<usize>,
    second: Seq<usize>,
    n: nat,
    eligible: spec_fn(usize) -> bool,
    precedes: spec_fn(usize, usize) -> bool,
    limit: nat,
)
    requires
        strict_total(n, eligible, precedes),
        leads(first, n, eligible, precedes, limit),
        leads(second, n, eligible, precedes, limit),
        forall|k: int| 0 <= k < first.len() && k < second.len() ==> first[k] == second[k],
    ensures
        second.len() <= first.len(),
{
    if first.len() < second.len() {
        // `second` goes on where `first` ends. What it has there is not in
        // `first`, or `second` would hold it twice; so `first` is full.
        let extra = second[first.len() as int];
        let m = choose|m: int| 0 <= m < first.len() && first[m] == extra;
        assert(!first.contains(extra));
    }
}

/// A list with a strict total order on its positions, in which some positions
/// may be held out of every ranking.
trait Ranked {
    spec fn size(&self) -> nat;

    spec fn eligible(&self, i: usize) -> bool;

    spec fn precedes(&self, a: usize, b: usize) -> bool;

    proof fn lemma_ordered(&self)
        ensures
            strict_total(
                self.size(),
                |i: usize| self.eligible(i),
                |a: usize, b: usize| self.precedes(a, b),
            ),
    ;

    fn len(&self) -> (n: usize)
        ensures
            n == self.size(),
    ;

    fn is_eligible(&self, i: usize) -> (r: bool)
        requires
            i < self.size(),
        ensures
            r == self.eligible(i),
    ;

    fn goes_before(&self, a: usize, b: usize) -> (r: bool)
        requires
            a < self.size(),
            b < self.size(),
            self.eligible(a),
            self.eligible(b),
        ensures
            r == self.precedes(a, b),
    ;
}

/// `order` is the ranking of the positions of `list` below `upto`, with its
/// length, and it leaves nothing out where all fit.
spec fn ranked<R: Ranked>(order: Seq<usize>, list: &R, upto: nat, limit: nat) -> bool {
    let eligible = |i: usize| list.eligible(i);
    let precedes = |a: usize, b: usize| list.precedes(a, b);
    &&& leads(order, upto, eligible, precedes, limit)
    &&& order.len() == vstd::math::min(eligible_count(upto, eligible) as int, limit as int)
    &&& eligible_count(upto, eligible) <= limit ==> forall|j: usize|
        j < upto && eligible(j) ==> order.contains(j)
}

/// Where `i` belongs in `order`: behind everything that it does not precede.
fn place_of<R: Ranked>(list: &R, order: &Vec<usize>, i: usize) -> (p: usize)
    requires
        i < list.size(),
        list.eligible(i),
        forall|k: int| 0 <= k < order.len() ==> (#[trigger] order[k]) < i && list.eligible(order[k]),
    ensures
        p <= order.len(),
        forall|q: int| p <= q < order.len() ==> list.precedes(i, #[trigger] order[q]),
        p == 0 || !list.precedes(i, order[p - 1]),
{
    let mut p: usize = order.len();
    loop
        invariant
            p <= order.len(),
            i < list.size(),
            list.eligible(i),
            forall|k: int|
                0 <= k < order.len() ==> (#[trigger] order[k]) < i && list.eligible(order[k]),
            forall|q: int| p <= q < order.len() ==> list.precedes(i, #[trigger] order[q]),
        ensures
            p == 0 || !list.precedes(i, order[p - 1]),
        decreases p,
    {
        if p == 0 {
            break ;
        }
        if !list.goes_before(i, order[p - 1]) {
            break ;
        }
        p -= 1;
    }
    p
}

/// Takes the eligible position `i` into the ranking of the positions below it.
fn enter_position<R: Ranked>(list: &R, order: &mut Vec<usize>, i: usize, limit: usize)
    requires
        i < list.size(),
        list.eligible(i),
        ranked(old(order)@, list, i as nat, limit as nat),
    ensures
        ranked(final(order)@, list, (i + 1) as nat, limit as nat),
{
    let ghost eligible = |i: usize| list.eligible(i);
    let ghost precedes = |a: usize, b: usize| list.precedes(a, b);
    let ghost before = order@;
    proof {
        list.lemma_ordered();
    }
    let p = place_of(list, order, i);
    proof {
        // whoever stands before place `p` precedes `i`
        assert forall|k: int| 0 <= k < p implies precedes(#[trigger] before[k], i) by {
            let last = before[p - 1];
            assert(precedes(last, i) || precedes(i, last));
        }
    }
    if p < limit {
        order.insert(p, i);
        let ghost grown = order@;
        proof {
            lemma_insert_ordered(before, grown, p as int, i, precedes);
            assert forall|k: int| 0 <= k < grown.len() implies (#[trigger] grown[k]) < i + 1
                && eligible(grown[k]) by {
                lemma_inserted_at(before, p as int, i, k);
            }
            assert forall|j: usize| before.contains(j) implies grown.contains(j) by {
                let m = choose|m: int| 0 <= m < before.len() && before[m] == j;
                lemma_inserted_at(before, p as int, i, if m < p { m } else { m + 1 });
            }
            assert(grown[p as int] == i);
        }
        if order.len() > limit {
            order.pop();
            proof {
                let kept = order@;
                assert forall|j: usize|
                    j < i + 1 && #[trigger] eligible(j) && !kept.contains(j) implies forall|k: int|
                    0 <= k < kept.len() ==> precedes(#[trigger] kept[k], j) by {
                    assert forall|k: int| 0 <= k < kept.len() implies precedes(
                        #[trigger] kept[k],
                        j,
                    ) by {
                        if grown.contains(j) {
                            // `j` is what was dropped: the last of `grown`
                            let m = choose|m: int| 0 <= m < grown.len() && grown[m] == j;
                            assert(m < limit ==> kept[m] == j);
                        } else {
                            // `j` was left out before; `i` precedes whoever
                            // stood at place `p`, and that one precedes `j`
                            lemma_inserted_at(before, p as int, i, k);
                        }
                    }
                }
                assert forall|k: int, l: int| 0 <= k < l < kept.len() implies precedes(
                    #[trigger] kept[k],
                    #[trigger] kept[l],
                ) by {
                    assert(kept[k] == grown[k] && kept[l] == grown[l]);
                }
                assert forall|k: int| 0 <= k < kept.len() implies (#[trigger] kept[k]) < i + 1
                    && eligible(kept[k]) by {
                    assert(kept[k] == grown[k]);
                }
            }
        } else {
            proof {
                // nothing is left out: the list was not full
                assert forall|j: usize| j < i + 1 && #[trigger] eligible(j) implies grown.contains(
                    j,
                ) by {
                    assert(j == i || before.contains(j));
                }
            }
        }
    } else {
        proof {
            // the list is full, and all of it precedes `i`
            assert forall|j: usize|
                j < i + 1 && #[trigger] eligible(j) && !before.contains(j) implies forall|k: int|
                0 <= k < before.len() ==> precedes(#[trigger] before[k], j) by {
                assert(j == i || j < i);
            }
        }
    }
}

/// A list that was in order stays in order when `i` is put at place `p`,
/// behind what precedes it and before what it precedes.
proof fn lemma_insert_ordered(
    before: Seq<usize>,
    grown: Seq<usize>,
    p: int,
    i: usize,
    precedes: spec_fn(usize, usize) -> bool,
)
    requires
        0 <= p <= before.len(),
        grown == before.insert(p, i),
        forall|k: int, l: int|
            0 <= k < l < before.len() ==> precedes(#[trigger] before[k], #[trigger] before[l]),
        forall|k: int| 0 <= k < p ==> precedes(#[trigger] before[k], i),
        forall|q: int| p <= q < before.len() ==> precedes(i, #[trigger] before[q]),
    ensures
        forall|k: int, l: int|
            0 <= k < l < grown.len() ==> precedes(#[trigger] grown[k], #[trigger] grown[l]),
{
    assert forall|k: int, l: int| 0 <= k < l < grown.len() implies precedes(
        #[trigger] grown[k],
        #[trigger] grown[l],
    ) by {
        lemma_inserted_at(before, p, i, k);
        lemma_inserted_at(before, p, i, l);
    }
}

/// What stands at place `k` once `i` is put at place `p`.
proof fn lemma_inserted_at(before: Seq<usize>, p: int, i: usize, k: int)
    requires
        0 <= p <= before.len(),
        0 <= k <= before.len(),
    ensures
        before.insert(p, i)[k] == if k < p {
            before[k]
        } else if k == p {
            i
        } else {
            before[k - 1]
        },
{
}

/// The ranking of the first `limit` eligible positions of `list`.
fn top<R: Ranked>(list: &R, limit: usize) -> (order: Vec<usize>)
    ensures
        leads(
            order@,
            list.size(),
            |i: usize| list.eligible(i),
            |a: usize, b: usize| list.precedes(a, b),
            limit as nat,
        ),
        order.len() == vstd::math::min(
            eligible_count(list.size(), |i: usize| list.eligible(i)) as int,
            limit as int,
        ),
        eligible_count(list.size(), |i: usize| list.eligible(i)) <= limit ==> forall|j: usize|
            j < list.size() && list.eligible(j) ==> order@.contains(j),
{
    let n = list.len();
    let mut order: Vec<usize> = Vec::new();
    let mut i: usize = 0;
    while i < n
        invariant
            i <= n,
            n == list.size(),
            ranked(order@, list, i as nat, limit as nat),
        decreases n - i,
    {
        if list.is_eligible(i) {
            enter_position(list, &mut order, i, limit);
        } else {
            proof {
                // `i` takes no part, so nothing changes
                let eligible = |i: usize| list.eligible(i);
                assert forall|j: usize| j < i + 1 && #[trigger] eligible(j) implies j < i by {
                    assert(j != i);
                }
            }
        }
        i += 1;
    }
    order
}

/// A list of scores, ranked from the highest down.
struct ByScore<'a> {
    scores: &'a Vec<Option<i64>>,
}

impl<'a> Ranked for ByScore<'a> {
    spec fn size(&self) -> nat {
        self.scores@.len()
    }

    spec fn eligible(&self, i: usize) -> bool {
        self.scores@[i as int] is Some
    }

    spec fn precedes(&self, a: usize, b: usize) -> bool {
        score_precedes(self.scores@, a, b)
    }

    proof fn lemma_ordered(&self) {
    }

    fn len(&self) -> (n: usize) {
        self.scores.len()
    }

    fn is_eligible(&self, i: usize) -> (r: bool) {
        self.scores[i].is_some()
    }

    fn goes_before(&self, a: usize, b: usize) -> (r: bool) {
        match (self.scores[a], self.scores[b]) {
            (Some(x), Some(y)) => x > y || (x == y && a < b),
            _ => false,
        }
    }
}

/// A list of names, ranked in dictionary order.
struct ByName<'a> {
    names: &'a Vec<Vec<char>>,
}

impl<'a> Ranked for ByName<'a> {
    spec fn size(&self) -> nat {
        self.names@.len()
    }

    spec fn eligible(&self, i: usize) -> bool {
        true
    }

    spec fn precedes(&self, a: usize, b: usize) -> bool {
        name_precedes(char_texts(self.names@), a, b)
    }

    proof fn lemma_ordered(&self) {
        let names = char_texts(self.names@);
        lemma_names_ordered(names);
        assert((|a: usize, b: usize| self.precedes(a, b)) =~= (|a: usize, b: usize|
            name_precedes(names, a, b)));
    }

    fn len(&self) -> (n: usize) {
        self.names.len()
    }

    fn is_eligible(&self, i: usize) -> (r: bool) {
        true
    }

    fn goes_before(&self, a: usize, b: usize) -> (r: bool) {
        if text_lt(&self.names[a], &self.names[b]) {
            true
        } else if a < b {
            proof {
                lemma_lex_total(self.names[a as int]@, self.names[b as int]@);
            }
            !text_lt(&self.names[b], &self.names[a])
        } else {
            false
        }
    }
}

/// Dictionary order with ties kept in list order is a strict total order on
/// the positions of `names`.
pub proof fn lemma_names_ordered(names: Seq<Seq<char>>)
    ensures
        strict_total(names.len(), |i: usize| true, |a: usize, b: usize| name_precedes(names, a, b)),
{
    assert forall|a: usize| a < names.len() implies !name_precedes(names, a, a) by {
        lemma_lex_irreflexive(names[a as int]);
    }
    assert forall|a: usize, b: usize| a < names.len() && b < names.len() && a != b implies (
    name_precedes(names, a, b) || name_precedes(names, b, a)) by {
        lemma_lex_total(names[a as int], names[b as int]);
    }
    assert forall|a: usize, b: usize, c: usize|
        a < names.len() && b < names.len() && c < names.len() && name_precedes(names, a, b)
            && name_precedes(names, b, c) implies name_precedes(names, a, c) by {
        let x = names[a as int];
        let y = names[b as int];
        let z = names[c as int];
        if lex_lt(x, y) && lex_lt(y, z) {
            lemma_lex_transitive(x, y, z);
        }
    }
}

/// The positions of the `limit` highest of `scores`, highest first; equal
/// scores stay in list order, and a position without a score is left out.
pub fn top_by_score(scores: &Vec<Option<i64>>, limit: usize) -> (order: Vec<usize>)
    ensures
        leads_by_score(order@, scores@, limit as nat),
        order.len() == vstd::math::min(match_count(scores@) as int, limit as int),
        match_count(scores@) <= limit ==> forall|j: usize|
            j < scores.len() && scores[j as int] is Some ==> order@.contains(j),
{
    let list = ByScore { scores };
    let order = top(&list, limit);
    proof {
        assert((|i: usize| list.eligible(i)) =~= (|i: usize| scores@[i as int] is Some));
        assert((|a: usize, b: usize| list.precedes(a, b)) =~= (|a: usize, b: usize|
            score_precedes(scores@, a, b)));
    }
    order
}

/// The positions of the `limit` first of `names` in dictionary order; equal
/// names stay in list order.
pub fn top_by_name(names: &Vec<Vec<char>>, limit: usize) -> (order: Vec<usize>)
    ensures
        leads_by_name(order@, char_texts(names@), limit as nat),
        order.len() == vstd::math::min(names.len() as int, limit as int),
        names.len() <= limit ==> forall|j: usize| j < names.len() ==> order@.contains(j),
{
    let list = ByName { names };
    let order = top(&list, limit);
    proof {
        assert((|i: usize| list.eligible(i)) =~= (|i: usize| true));
        assert((|a: usize, b: usize| list.precedes(a, b)) =~= (|a: usize, b: usize|
            name_precedes(char_texts(names@), a, b)));
        lemma_count_all(names.len() as nat);
    }
    order
}

/// Where every position is eligible, all `n` of them count.
proof fn lemma_count_all(n: nat)
    ensures
        eligible_count(n, |i: usize| true) == n,
    decreases n,
{
    if n > 0 {
        lemma_count_all((n - 1) as nat);
    }
}

} // verus!
