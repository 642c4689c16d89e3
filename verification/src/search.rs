//! Searching a catalog by name: the single best match of a query, and the
//! bounded ranking that narrows as a query is typed.
//!
//! Both searches score names only. The names are first scored as they are;
//! only where that gives no match at all are they scored again with names and
//! query lowercased, and then for every record.

use vstd::prelude::*;
use crate::fuzzy::{skim_match, to_lowercase};
use crate::model::{names, records, CategorizedEntry, RecordModel};
use crate::order::{
    char_texts, leads_by_name, leads_by_score, match_count, top_by_name, top_by_score,
};
use crate::score::{folded_scores, text_scores};
use crate::text::chars_of;

verus! {

/// The most records that a ranking lists.
pub const RANK_LIMIT: usize = 50;

/// One result of a search: a record of the catalog, its position there, and
/// the score it was found with.
#[derive(Clone, Copy, Debug)]
pub struct Hit<'a> {
    pub index: usize,
    pub entry: &'a CategorizedEntry,
    pub score: i64,
}

/// The catalog positions of `hits`, in the order of the hits.
pub open spec fn positions(hits: Seq<Hit>) -> Seq<usize> {
    Seq::new(hits.len(), |k: int| hits[k].index)
}

/// Whether any of `scores` is a score.
pub open spec fn any_match(scores: Seq<Option<i64>>) -> bool {
    exists|i: int| 0 <= i < scores.len() && scores[i] is Some
}

/// The scores that a search for `query` goes by: those of the names as they
/// are where at least one name matches, else those of the lowercased names
/// for the lowercased query.
pub open spec fn name_scores(names: Seq<Seq<char>>, query: Seq<char>) -> Seq<Option<i64>> {
    if any_match(text_scores(names, query)) {
        text_scores(names, query)
    } else {
        folded_scores(names, query)
    }
}

/// Position `i` holds the best of `scores`: a score that none exceeds and
/// that no later position equals.
pub open spec fn is_best(scores: Seq<Option<i64>>, i: int) -> bool {
    &&& 0 <= i < scores.len()
    &&& scores[i] is Some
    &&& forall|j: int|
        0 <= j < scores.len() && (#[trigger] scores[j]) is Some ==> scores[j]->0 <= scores[i]->0
            && (j > i ==> scores[j]->0 < scores[i]->0)
}

/// `hit` is the record at its position in `entries`, with the score that
/// `scores` has for that position.
pub open spec fn hit_of(hit: Hit, entries: Seq<CategorizedEntry>, scores: Seq<Option<i64>>) -> bool {
    &&& hit.index < entries.len()
    &&& *hit.entry == entries[hit.index as int]
    &&& scores[hit.index as int] == Some(hit.score)
}

/// The lowercase pass is taken only where the pass over the names as they are
/// matches nothing: with one match there, the search goes by those scores.
pub proof fn lemma_fallback_only_when_unmatched(names: Seq<Seq<char>>, query: Seq<char>)
    ensures
        any_match(text_scores(names, query)) ==> name_scores(names, query) == text_scores(
            names,
            query,
        ),
        !any_match(text_scores(names, query)) ==> name_scores(names, query) == folded_scores(
            names,
            query,
        ),
{
}

/// A record whose own name scores it above every other record is the best
/// match of that name, whatever the order of the catalog.
pub proof fn lemma_own_name_resolves(all: Seq<RecordModel>, i: int, found: int)
    requires
        0 <= i < all.len(),
        all[i].name().len() > 0,
        text_scores(names(all), all[i].name())[i] is Some,
        forall|j: int|
            0 <= j < all.len() && j != i && (#[trigger] text_scores(names(all), all[i].name())[j])
                is Some ==> text_scores(names(all), all[i].name())[j]->0 < text_scores(
                names(all),
                all[i].name(),
            )[i]->0,
        is_best(name_scores(names(all), all[i].name()), found),
    ensures
        found == i,
{
    // The name matches itself, so the search goes by the scores of the names
    // as they are; there position `i` alone holds the greatest.
    let scores = text_scores(names(all), all[i].name());
    assert(any_match(scores));
    assert(found != i ==> scores[found] is Some);
}

/// Whether any of `scores` is a score.
pub fn has_match(scores: &Vec<Option<i64>>) -> (r: bool)
    ensures
        r == any_match(scores@),
{
    let mut i: usize = 0;
    while i < scores.len()
        invariant
            i <= scores.len(),
            forall|j: int| 0 <= j < i ==> scores[j] is None,
        decreases scores.len() - i,
    {
        if scores[i].is_some() {
            return true;
        }
        i += 1;
    }
    false
}

/// The position of the best of `scores`; of equal best scores the last one.
/// `None` exactly where there is no score.
pub fn best_index(scores: &Vec<Option<i64>>) -> (r: Option<usize>)
    ensures
        match r {
            Some(i) => is_best(scores@, i as int),
            None => !any_match(scores@),
        },
{
    let mut best: Option<(usize, i64)> = None;
    let mut i: usize = 0;
    while i < scores.len()
        invariant
            i <= scores.len(),
            match best {
                Some((at, top)) => at < i && scores[at as int] == Some(top) && forall|j: int|
                    0 <= j < i && (#[trigger] scores[j]) is Some ==> scores[j]->0 <= top && (j > at
                        ==> scores[j]->0 < top),
                None => forall|j: int| 0 <= j < i ==> scores[j] is None,
            },
        decreases scores.len() - i,
    {
        match (scores[i], best) {
            (Some(s), Some((_, top))) => {
                if s >= top {
                    best = Some((i, s));
                }
            },
            (Some(s), None) => {
                best = Some((i, s));
            },
            (None, _) => {},
        }
        i += 1;
    }
    match best {
        Some((at, _)) => Some(at),
        None => None,
    }
}

/// Scores the name of every record for `query`, names and query as they are.
fn score_exact(entries: &[CategorizedEntry], query: &str) -> (scores: Vec<Option<i64>>)
    ensures
        scores@ == text_scores(names(records(entries@)), query@),
{
    let mut scores: Vec<Option<i64>> = Vec::new();
    let mut i: usize = 0;
    while i < entries.len()
        invariant
            i <= entries.len(),
            scores@ == text_scores(names(records(entries@)), query@).take(i as int),
        decreases entries.len() - i,
    {
        scores.push(skim_match(entries[i].name(), query));
        i += 1;
    }
    scores
}

/// Scores the name of every record for `query`, names and query lowercased.
fn score_folded(entries: &[CategorizedEntry], query: &str) -> (scores: Vec<Option<i64>>)
    ensures
        scores@ == folded_scores(names(records(entries@)), query@),
{
    let pattern = to_lowercase(query);
    let mut scores: Vec<Option<i64>> = Vec::new();
    let mut i: usize = 0;
    while i < entries.len()
        invariant
            i <= entries.len(),
            scores@ == folded_scores(names(records(entries@)), query@).take(i as int),
            pattern@ == crate::fuzzy::lowercase(query@),
        decreases entries.len() - i,
    {
        let choice = to_lowercase(entries[i].name());
        scores.push(skim_match(choice.as_str(), pattern.as_str()));
        i += 1;
    }
    scores
}

/// The scores that a search of `entries` for `query` goes by, one for each
/// record, `None` for a record that does not match.
pub fn score_names(entries: &[CategorizedEntry], query: &str) -> (scores: Vec<Option<i64>>)
    ensures
        scores@ == name_scores(names(records(entries@)), query@),
{
    let exact = score_exact(entries, query);
    if has_match(&exact) {
        exact
    } else {
        score_folded(entries, query)
    }
}

/// The single best match of `query` among `entries`: the record whose name
/// scores highest, the last of them where several score the same. `None`
/// exactly where no name matches, neither as it is nor lowercased.
pub fn resolve_best<'a>(entries: &'a [CategorizedEntry], query: &str) -> (r: Option<Hit<'a>>)
    ensures
        match r {
            Some(hit) => {
                &&& is_best(name_scores(names(records(entries@)), query@), hit.index as int)
                &&& hit_of(hit, entries@, name_scores(names(records(entries@)), query@))
            },
            None => !any_match(name_scores(names(records(entries@)), query@)),
        },
{
    let scores = score_names(entries, query);
    match best_index(&scores) {
        Some(index) => {
            match scores[index] {
                Some(score) => Some(Hit { index, entry: &entries[index], score }),
                None => None,
            }
        },
        None => None,
    }
}

/// The names of all records, as characters.
fn name_chars(entries: &[CategorizedEntry]) -> (all: Vec<Vec<char>>)
    ensures
        char_texts(all@) == names(records(entries@)),
{
    let mut all: Vec<Vec<char>> = Vec::new();
    let mut i: usize = 0;
    while i < entries.len()
        invariant
            i <= entries.len(),
            all.len() == i,
            forall|k: int| 0 <= k < i ==> (#[trigger] all[k])@ == entries[k]@.name(),
        decreases entries.len() - i,
    {
        all.push(chars_of(entries[i].name()));
        i += 1;
    }
    all
}

/// The hits for the positions of `order`, each with 0 for its score.
fn hits_unscored<'a>(entries: &'a [CategorizedEntry], order: &Vec<usize>) -> (hits: Vec<Hit<'a>>)
    requires
        forall|k: int| 0 <= k < order.len() ==> (#[trigger] order[k]) < entries.len(),
    ensures
        positions(hits@) == order@,
        forall|k: int|
            0 <= k < hits.len() ==> (#[trigger] hits[k]).score == 0 && hits[k].index
                < entries.len() && *hits[k].entry == entries[hits[k].index as int],
{
    let mut hits: Vec<Hit<'a>> = Vec::new();
    let mut k: usize = 0;
    while k < order.len()
        invariant
            k <= order.len(),
            hits.len() == k,
            forall|m: int| 0 <= m < order.len() ==> (#[trigger] order[m]) < entries.len(),
            forall|m: int| 0 <= m < k ==> (#[trigger] hits[m]).index == order[m],
            forall|m: int|
                0 <= m < k ==> (#[trigger] hits[m]).score == 0 && hits[m].index < entries.len()
                    && *hits[m].entry == entries[hits[m].index as int],
        decreases order.len() - k,
    {
        let index = order[k];
        hits.push(Hit { index, entry: &entries[index], score: 0 });
        k += 1;
    }
    hits
}

/// The hits for the positions of `order`, each with its score from `scores`.
fn hits_scored<'a>(
    entries: &'a [CategorizedEntry],
    order: &Vec<usize>,
    scores: &Vec<Option<i64>>,
) -> (hits: Vec<Hit<'a>>)
    requires
        scores.len() == entries.len(),
        forall|k: int|
            0 <= k < order.len() ==> (#[trigger] order[k]) < entries.len() && scores[order[k] as int]
                is Some,
    ensures
        positions(hits@) == order@,
        forall|k: int| 0 <= k < hits.len() ==> hit_of(#[trigger] hits[k], entries@, scores@),
{
    let mut hits: Vec<Hit<'a>> = Vec::new();
    let mut k: usize = 0;
    while k < order.len()
        invariant
            k <= order.len(),
            hits.len() == k,
            scores.len() == entries.len(),
            forall|m: int|
                0 <= m < order.len() ==> (#[trigger] order[m]) < entries.len()
                    && scores[order[m] as int] is Some,
            forall|m: int| 0 <= m < k ==> (#[trigger] hits[m]).index == order[m],
            forall|m: int| 0 <= m < k ==> hit_of(#[trigger] hits[m], entries@, scores@),
        decreases order.len() - k,
    {
        let index = order[k];
        match scores[index] {
            Some(score) => {
                hits.push(Hit { index, entry: &entries[index], score });
            },
            None => {},
        }
        k += 1;
    }
    hits
}

/// The ranking of `entries` for `query`, at most `RANK_LIMIT` hits.
///
/// For the empty query these are the first records by name, in dictionary
/// order, each with score 0. For any other query they are the records whose
/// names match, highest score first. Records that tie keep catalog order.
pub fn rank<'a>(entries: &'a [CategorizedEntry], query: &str) -> (hits: Vec<Hit<'a>>)
    ensures
        hits.len() <= RANK_LIMIT,
        entries.len() == 0 ==> hits.len() == 0,
        query@.len() == 0 ==> {
            &&& leads_by_name(positions(hits@), names(records(entries@)), RANK_LIMIT as nat)
            &&& hits.len() == vstd::math::min(entries.len() as int, RANK_LIMIT as int)
            &&& entries.len() <= RANK_LIMIT ==> forall|j: usize|
                j < entries.len() ==> positions(hits@).contains(j)
            &&& forall|k: int|
                0 <= k < hits.len() ==> (#[trigger] hits[k]).score == 0 && hits[k].index
                    < entries.len() && *hits[k].entry == entries[hits[k].index as int]
        },
        query@.len() > 0 ==> {
            let scores = name_scores(names(records(entries@)), query@);
            &&& leads_by_score(positions(hits@), scores, RANK_LIMIT as nat)
            &&& hits.len() == vstd::math::min(match_count(scores) as int, RANK_LIMIT as int)
            &&& forall|k: int| 0 <= k < hits.len() ==> hit_of(#[trigger] hits[k], entries@, scores)
        },
{
    if query.is_empty() {
        let all = name_chars(entries);
        let order = top_by_name(&all, RANK_LIMIT);
        hits_unscored(entries, &order)
    } else {
        let scores = score_names(entries, query);
        let order = top_by_score(&scores, RANK_LIMIT);
        hits_scored(entries, &order, &scores)
    }
}

} // verus!
