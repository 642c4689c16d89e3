//! Relevance of one record for a query.
//!
//! A record is scored by its name first. Where the name does not match, the
//! best score among its secondary texts stands in: a define's value, a
//! function's description, the names of fields or members. A typedef has no
//! secondary text.

use vstd::prelude::*;
use crate::fuzzy::{lowercase, skim_match, skim_score, to_lowercase};
use crate::model::{CategorizedEntry, Entry, EntryModel, EnumField, RecordModel, StructField};

verus! {

/// What a match on the name itself is raised by, so that it outranks any
/// match on secondary text.
pub const NAME_BONUS: i64 = 1000;

/// The greater of two optional scores; no score is less than any score.
pub open spec fn better(a: Option<i64>, b: Option<i64>) -> Option<i64> {
    match (a, b) {
        (Some(x), Some(y)) => if x >= y {
            a
        } else {
            b
        },
        (Some(_), None) => a,
        (None, _) => b,
    }
}

/// The greatest of `scores`; `None` where none of them is a score.
pub open spec fn best_of(scores: Seq<Option<i64>>) -> Option<i64>
    decreases scores.len(),
{
    if scores.len() == 0 {
        None
    } else {
        better(best_of(scores.drop_last()), scores.last())
    }
}

/// The texts of a declaration that are searched when its name does not match.
pub open spec fn secondary_texts(entry: EntryModel) -> Seq<Seq<char>> {
    match entry {
        EntryModel::Function { description, .. } => seq![description],
        EntryModel::Typedef { .. } => Seq::empty(),
        EntryModel::Define { value, .. } => seq![value],
        EntryModel::Struct { fields, .. } => Seq::new(fields.len(), |i: int| fields[i].name),
        EntryModel::Union { fields, .. } => Seq::new(fields.len(), |i: int| fields[i].name),
        EntryModel::Enum { fields, .. } => Seq::new(fields.len(), |i: int| fields[i].name),
    }
}

/// The characters of each string slice of `parts`.
pub open spec fn slices(parts: Seq<&str>) -> Seq<Seq<char>> {
    Seq::new(parts.len(), |i: int| parts[i]@)
}

/// The score of each of `texts` for `query`.
pub open spec fn text_scores(texts: Seq<Seq<char>>, query: Seq<char>) -> Seq<Option<i64>> {
    Seq::new(texts.len(), |i: int| skim_score(texts[i], query))
}

/// The score of each of `texts`, lowercased, for the lowercased `query`.
pub open spec fn folded_scores(texts: Seq<Seq<char>>, query: Seq<char>) -> Seq<Option<i64>> {
    Seq::new(texts.len(), |i: int| skim_score(lowercase(texts[i]), lowercase(query)))
}

/// A record's score from the score of its name and those of its secondary
/// texts: a name that matches counts alone, raised by the bonus.
pub open spec fn combined(name_score: Option<i64>, secondary: Seq<Option<i64>>) -> Option<i64> {
    match name_score {
        Some(s) => Some((s + NAME_BONUS) as i64),
        None => best_of(secondary),
    }
}

/// As `combined`, without the bonus.
pub open spec fn combined_plain(name_score: Option<i64>, secondary: Seq<Option<i64>>) -> Option<
    i64,
> {
    match name_score {
        Some(s) => Some(s),
        None => best_of(secondary),
    }
}

/// The relevance of `record` for `query`, texts taken as they are.
pub open spec fn relevance(record: RecordModel, query: Seq<char>) -> Option<i64> {
    combined(
        skim_score(record.name(), query),
        text_scores(secondary_texts(record.entry), query),
    )
}

/// The relevance of `record` for `query` when both are lowercased first. No
/// bonus is given here.
pub open spec fn relevance_folded(record: RecordModel, query: Seq<char>) -> Option<i64> {
    combined_plain(
        skim_score(lowercase(record.name()), lowercase(query)),
        folded_scores(secondary_texts(record.entry), query),
    )
}

/// `best_of` is `None` exactly where there is no score at all; else it is one
/// of the scores and none is greater.
pub proof fn lemma_best_of_is_greatest(scores: Seq<Option<i64>>)
    ensures
        best_of(scores) is None <==> forall|i: int| 0 <= i < scores.len() ==> scores[i] is None,
        best_of(scores) is Some ==> exists|i: int| 0 <= i < scores.len() && scores[i] == best_of(scores),
        forall|i: int|
            0 <= i < scores.len() && scores[i] is Some ==> best_of(scores) is Some
                && scores[i]->0 <= best_of(scores)->0,
    decreases scores.len(),
{
    if scores.len() > 0 {
        let front = scores.drop_last();
        lemma_best_of_is_greatest(front);
        assert forall|i: int| 0 <= i < scores.len() && scores[i] is Some implies best_of(scores) is Some
            && scores[i]->0 <= best_of(scores)->0 by {
            if i < front.len() {
                assert(front[i] == scores[i]);
            }
        }
        if best_of(scores) is Some && best_of(scores) != scores.last() {
            let i = choose|i: int| 0 <= i < front.len() && front[i] == best_of(front);
            assert(scores[i] == best_of(scores));
        }
        if best_of(scores) is None {
            assert forall|i: int| 0 <= i < scores.len() implies scores[i] is None by {
                assert(i < front.len() ==> front[i] == scores[i]);
            }
        }
    }
}

/// The greatest of `scores`.
pub fn best_score(scores: &Vec<Option<i64>>) -> (best: Option<i64>)
    ensures
        best == best_of(scores@),
{
    let mut best: Option<i64> = None;
    let mut i: usize = 0;
    while i < scores.len()
        invariant
            i <= scores.len(),
            best == best_of(scores@.take(i as int)),
        decreases scores.len() - i,
    {
        proof {
            assert(scores@.take(i + 1).drop_last() =~= scores@.take(i as int));
        }
        match (best, scores[i]) {
            (Some(x), Some(y)) => {
                if y > x {
                    best = Some(y);
                }
            },
            (None, Some(y)) => {
                best = Some(y);
            },
            _ => {},
        }
        i += 1;
    }
    proof {
        assert(scores@.take(scores.len() as int) =~= scores@);
    }
    best
}

/// A record's score from the score of its name and those of its secondary
/// texts. The bonus must not carry the name's score past `i64::MAX`.
pub fn combine(name_score: Option<i64>, secondary: &Vec<Option<i64>>) -> (r: Option<i64>)
    requires
        name_score matches Some(s) ==> s + NAME_BONUS <= i64::MAX,
    ensures
        r == combined(name_score, secondary@),
{
    match name_score {
        Some(s) => Some(s + NAME_BONUS),
        None => best_score(secondary),
    }
}

/// As `combine`, without the bonus.
pub fn combine_plain(name_score: Option<i64>, secondary: &Vec<Option<i64>>) -> (r: Option<i64>)
    ensures
        r == combined_plain(name_score, secondary@),
{
    match name_score {
        Some(s) => Some(s),
        None => best_score(secondary),
    }
}

/// Scores each of `texts` for `query`.
fn score_texts(texts: &Vec<&str>, query: &str) -> (scores: Vec<Option<i64>>)
    ensures
        scores@ == text_scores(slices(texts@), query@),
{
    let mut scores: Vec<Option<i64>> = Vec::new();
    let mut i: usize = 0;
    while i < texts.len()
        invariant
            i <= texts.len(),
            scores@ == text_scores(slices(texts@), query@).take(i as int),
        decreases texts.len() - i,
    {
        scores.push(skim_match(texts[i], query));
        i += 1;
    }
    scores
}

/// Scores each of `texts`, lowercased, for the lowercased `query`.
fn score_texts_folded(texts: &Vec<&str>, query: &str) -> (scores: Vec<Option<i64>>)
    ensures
        scores@ == folded_scores(slices(texts@), query@),
{
    let pattern = to_lowercase(query);
    let mut scores: Vec<Option<i64>> = Vec::new();
    let mut i: usize = 0;
    while i < texts.len()
        invariant
            i <= texts.len(),
            pattern@ == lowercase(query@),
            scores@ == folded_scores(slices(texts@), query@).take(i as int),
        decreases texts.len() - i,
    {
        let choice = to_lowercase(texts[i]);
        scores.push(skim_match(choice.as_str(), pattern.as_str()));
        i += 1;
    }
    scores
}

/// The names of `fields`, in order.
fn field_names(fields: &Vec<StructField>) -> (texts: Vec<&str>)
    ensures
        slices(texts@) == Seq::new(fields.len() as nat, |i: int| fields[i].name@),
{
    let mut texts: Vec<&str> = Vec::new();
    let mut i: usize = 0;
    while i < fields.len()
        invariant
            i <= fields.len(),
            texts.len() == i,
            forall|k: int| 0 <= k < i ==> (#[trigger] texts[k])@ == fields[k].name@,
        decreases fields.len() - i,
    {
        texts.push(fields[i].name.as_str());
        i += 1;
    }
    texts
}

/// The names of `members`, in order.
fn member_names(members: &Vec<EnumField>) -> (texts: Vec<&str>)
    ensures
        slices(texts@) == Seq::new(members.len() as nat, |i: int| members[i].name@),
{
    let mut texts: Vec<&str> = Vec::new();
    let mut i: usize = 0;
    while i < members.len()
        invariant
            i <= members.len(),
            texts.len() == i,
            forall|k: int| 0 <= k < i ==> (#[trigger] texts[k])@ == members[k].name@,
        decreases members.len() - i,
    {
        texts.push(members[i].name.as_str());
        i += 1;
    }
    texts
}

impl Entry {
    /// The texts that are searched when the name does not match.
    pub fn secondary(&self) -> (texts: Vec<&str>)
        ensures
            slices(texts@) == secondary_texts(self@),
    {
        match self {
            Entry::Function { description, .. } => {
                let mut texts: Vec<&str> = Vec::new();
                texts.push(description.as_str());
                texts
            },
            Entry::Typedef { .. } => Vec::new(),
            Entry::Define { value, .. } => {
                let mut texts: Vec<&str> = Vec::new();
                texts.push(value.as_str());
                texts
            },
            Entry::Struct { fields, .. } => field_names(fields),
            Entry::Union { fields, .. } => field_names(fields),
            Entry::Enum { fields, .. } => member_names(fields),
        }
    }
}

impl CategorizedEntry {
    /// The relevance of this record for `query`: the score of its name raised
    /// by the bonus, or else the best score among its secondary texts.
    pub fn fuzzy_score(&self, query: &str) -> (r: Option<i64>)
        ensures
            r == relevance(self@, query@),
    {
        let name_score = skim_match(self.name(), query);
        let secondary = if name_score.is_none() {
            score_texts(&self.entry().secondary(), query)
        } else {
            Vec::new()
        };
        combine(name_score, &secondary)
    }

    /// The relevance of this record for `query`, both lowercased first: the
    /// score of its name, or else the best score among its secondary texts.
    pub fn fuzzy_score_ci(&self, query: &str) -> (r: Option<i64>)
        ensures
            r == relevance_folded(self@, query@),
    {
        let choice = to_lowercase(self.name());
        let pattern = to_lowercase(query);
        let name_score = skim_match(choice.as_str(), pattern.as_str());
        let secondary = if name_score.is_none() {
            score_texts_folded(&self.entry().secondary(), query)
        } else {
            Vec::new()
        };
        combine_plain(name_score, &secondary)
    }
}

} // verus!
