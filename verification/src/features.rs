//! Feature selection: the columns that are most strongly correlated with a target.

use polars::prelude::{DataFrame, PolarsError};
use vstd::prelude::*;
use vstd::set_lib::{lemma_int_range, lemma_subset_equality, set_int_range};

use crate::double::{INFINITY_BITS, SIGN_BIT};
use crate::frame::{column_names, column_type, float_cast_error, ColumnType};
use crate::text::same_text;

verus! {

/// A column may serve as a feature unless it is the target itself or one of the
/// two columns that identify a row.
pub open spec fn is_feature(name: Seq<char>, target: Seq<char>) -> bool {
    name != target && name != "time"@ && name != "symbol"@
}

/// The feature columns among `columns`, in the order of `columns`.
pub open spec fn features_of(columns: Seq<Seq<char>>, target: Seq<char>) -> Seq<Seq<char>> {
    columns.filter(|name: Seq<char>| is_feature(name, target))
}

/// The feature columns among `columns`, in their order.
pub fn feature_columns(columns: &Vec<String>, target_col: &str) -> (features: Vec<String>)
    ensures
        crate::text::texts(features@) == features_of(crate::text::texts(columns@), target_col@),
        crate::text::texts(features@) == crate::text::texts(columns@).filter(
            |name: Seq<char>| name != target_col@ && name != "time"@ && name != "symbol"@,
        ),
{
    let mut features: Vec<String> = Vec::new();
    let ghost all = crate::text::texts(columns@);
    let ghost keep = |name: Seq<char>| is_feature(name, target_col@);
    let mut i: usize = 0;
    proof {
        assert(all.take(0) =~= Seq::empty());
        reveal(Seq::filter);
        assert(crate::text::texts(features@) =~= all.take(0).filter(keep));
    }
    while i < columns.len()
        invariant
            i <= columns@.len(),
            all == crate::text::texts(columns@),
            keep == (|name: Seq<char>| is_feature(name, target_col@)),
            crate::text::texts(features@) == all.take(i as int).filter(keep),
        decreases columns@.len() - i,
    {
        let name = &columns[i];
        let ghost before = features@;
        proof {
            reveal(Seq::filter);
            assert(all.take(i + 1).drop_last() =~= all.take(i as int));
            assert(all.take(i + 1).last() == name@);
        }
        if !same_text(name.as_str(), target_col) && !same_text(name.as_str(), "time")
            && !same_text(name.as_str(), "symbol") {
            features.push(name.clone());
            assert(crate::text::texts(features@) =~= crate::text::texts(before).push(name@));
        }
        i = i + 1;
    }
    assert(all.take(columns@.len() as int) =~= all);
    proof {
        assert(keep =~= (|name: Seq<char>|
            name != target_col@ && name != "time"@ && name != "symbol"@));
    }
    features
}

/// Candidate `i` comes before candidate `j`: its score is higher, or the scores
/// are equal and it stands first.
pub open spec fn outranks(scores: Seq<u64>, i: int, j: int) -> bool {
    scores[i] > scores[j] || (scores[i] == scores[j] && i < j)
}

/// `order` lists all candidates by descending score, those of equal score in
/// their original order.
pub open spec fn is_ranking(scores: Seq<u64>, order: Seq<int>) -> bool {
    &&& order.len() == scores.len()
    &&& forall|k: int| 0 <= k < order.len() ==> 0 <= #[trigger] order[k] < scores.len()
    &&& forall|a: int, b: int|
        0 <= a < b < order.len() ==> outranks(scores, #[trigger] order[a], #[trigger] order[b])
}

/// The candidates at the first `count` places of `order`, all of them if there
/// are no more than that.
pub open spec fn leaders(features: Seq<Seq<char>>, order: Seq<int>, count: nat) -> Seq<Seq<char>> {
    order.take(if count < order.len() { count as int } else { order.len() as int }).map_values(
        |k: int| features[k],
    )
}

/// Machine numbers as integers.
pub open spec fn indices(order: Seq<usize>) -> Seq<int> {
    order.map_values(|k: usize| k as int)
}

/// The candidates' numbers by descending score, equal scores in their original order.
fn rank(scores: &Vec<u64>) -> (order: Vec<usize>)
    ensures
        is_ranking(scores@, indices(order@)),
{
    let mut order: Vec<usize> = Vec::new();
    let mut i: usize = 0;
    while i < scores.len()
        invariant
            i <= scores@.len(),
            order@.len() == i,
            forall|k: int| 0 <= k < i ==> #[trigger] order@[k] < i,
            forall|a: int, b: int|
                0 <= a < b < i ==> outranks(
                    scores@,
                    #[trigger] order@[a] as int,
                    #[trigger] order@[b] as int,
                ),
        decreases scores@.len() - i,
    {
        let mut place: usize = 0;
        while place < i && scores[order[place]] >= scores[i]
            invariant
                place <= i < scores@.len(),
                order@.len() == i,
                forall|k: int| 0 <= k < i ==> #[trigger] order@[k] < i,
                forall|k: int| 0 <= k < place ==> scores@[#[trigger] order@[k] as int] >= scores@[i as int],
            decreases i - place,
        {
            place = place + 1;
        }
        let ghost before = order@;
        order.insert(place, i);
        proof {
            assert forall|a: int, b: int| 0 <= a < b < i + 1 implies outranks(
                scores@,
                #[trigger] order@[a] as int,
                #[trigger] order@[b] as int,
            ) by {
                if a == place {
                    assert(order@[b] == before[b - 1]);
                    assert(order@[a] == i);
                    if b - 1 > place {
                        assert(outranks(scores@, before[place as int] as int, before[b - 1] as int));
                    }
                } else if b == place {
                    assert(order@[a] == before[a]);
                } else {
                    let a0 = if a < place { a } else { a - 1 };
                    let b0 = if b < place { b } else { b - 1 };
                    assert(order@[a] == before[a0] && order@[b] == before[b0]);
                }
            }
        }
        i = i + 1;
    }
    order
}

/// The ranking of the candidates that `scores` belongs to; there is exactly one
/// (`ranking_exists`, `ranking_is_unique`).
pub open spec fn ranking(scores: Seq<u64>) -> Seq<int> {
    choose|order: Seq<int>| is_ranking(scores, order)
}

/// The `n_features` candidates of highest score, best first, those of equal score
/// in their original order.
pub fn rank_features(features: &Vec<String>, scores: &Vec<u64>, n_features: usize) -> (selected: Vec<
    String,
>)
    requires
        features@.len() == scores@.len(),
    ensures
        crate::text::texts(selected@) == leaders(
            crate::text::texts(features@),
            ranking(scores@),
            n_features as nat,
        ),
        selected@.len() == if n_features < features@.len() {
            n_features as nat
        } else {
            features@.len()
        },
        exists|order: Seq<int>|
            {
                &&& order.len() == features@.len()
                &&& order.no_duplicates()
                &&& forall|k: int|
                    0 <= k < order.len() ==> 0 <= #[trigger] order[k] < features@.len()
                &&& forall|a: int, b: int|
                    0 <= a < b < order.len() ==> scores@[#[trigger] order[a]]
                        > scores@[#[trigger] order[b]] || (scores@[order[a]] == scores@[order[b]]
                        && order[a] < order[b])
                &&& forall|k: int|
                    0 <= k < selected@.len() ==> (#[trigger] selected@[k])@
                        == features@[order[k]]@
            },
{
    let order = rank(scores);
    proof {
        ranking_is_unique(scores@, ranking(scores@), indices(order@));
    }
    let count: usize = if n_features < order.len() { n_features } else { order.len() };
    let mut selected: Vec<String> = Vec::new();
    let mut k: usize = 0;
    while k < count
        invariant
            k <= count <= order@.len(),
            features@.len() == scores@.len(),
            is_ranking(scores@, indices(order@)),
            selected@.len() == k,
            forall|j: int| 0 <= j < k ==> (#[trigger] selected@[j])@ == features@[order@[j] as int]@,
        decreases count - k,
    {
        assert(0 <= indices(order@)[k as int] < scores@.len());
        selected.push(features[order[k]].clone());
        k = k + 1;
    }
    assert(crate::text::texts(selected@) =~= leaders(
        crate::text::texts(features@),
        indices(order@),
        n_features as nat,
    )) by {
        assert forall|j: int| 0 <= j < count implies crate::text::texts(features@)[indices(
            order@,
        )[j]] == (#[trigger] selected@[j])@ by {
            assert(0 <= indices(order@)[j] < scores@.len());
        }
    }
    proof {
        let places = indices(order@);
        assert(places.no_duplicates()) by {
            assert forall|a: int, b: int|
                0 <= a < places.len() && 0 <= b < places.len() && a != b implies places[a]
                != places[b] by {
                if a < b {
                    assert(outranks(scores@, places[a], places[b]));
                } else {
                    assert(outranks(scores@, places[b], places[a]));
                }
            }
        }
        assert forall|a: int, b: int| 0 <= a < b < places.len() implies scores@[#[trigger] places[a]]
            > scores@[#[trigger] places[b]] || (scores@[places[a]] == scores@[places[b]]
            && places[a] < places[b]) by {
            assert(outranks(scores@, places[a], places[b]));
        }
        assert forall|k: int| 0 <= k < selected@.len() implies (#[trigger] selected@[k])@
            == features@[places[k]]@ by {}
        assert(places.len() == features@.len());
    }
    selected
}

/// Every candidate has a place in a ranking, and only one.
pub proof fn ranking_is_permutation(scores: Seq<u64>, order: Seq<int>, candidate: int)
    requires
        is_ranking(scores, order),
        0 <= candidate < scores.len(),
    ensures
        order.contains(candidate),
        order.no_duplicates(),
{
    let all = set_int_range(0, scores.len() as int);
    assert(order.no_duplicates());
    order.unique_seq_to_set();
    lemma_int_range(0, scores.len() as int);
    assert(order.to_set().subset_of(all)) by {
        assert forall|x: int| order.to_set().contains(x) implies all.contains(x) by {
            assert(order.contains(x));
        }
    }
    lemma_subset_equality(order.to_set(), all);
    assert(order.to_set().contains(candidate));
}

/// The place of a candidate is the number of candidates that come before it.
pub proof fn place_counts_the_better(scores: Seq<u64>, order: Seq<int>, place: int)
    requires
        is_ranking(scores, order),
        0 <= place < order.len(),
    ensures
        ({
            let better = Set::new(
                |i: int| 0 <= i < scores.len() && outranks(scores, i, order[place]),
            );
            better.finite() && better.len() == place
        }),
{
    let better = Set::new(|i: int| 0 <= i < scores.len() && outranks(scores, i, order[place]));
    let before = order.take(place);
    assert(before.to_set() =~= better) by {
        assert forall|i: int| better.contains(i) implies before.contains(i) by {
            ranking_is_permutation(scores, order, i);
            let k = choose|k: int| 0 <= k < order.len() && order[k] == i;
            if k > place {
                assert(outranks(scores, order[place], order[k]));
            }
            assert(before[k] == i);
        }
        assert forall|i: int| before.contains(i) implies better.contains(i) by {
            let k = choose|k: int| 0 <= k < before.len() && before[k] == i;
            assert(outranks(scores, order[k], order[place]));
        }
    }
    assert(before.no_duplicates());
    before.unique_seq_to_set();
}

/// A list of scores has no more than one ranking.
pub proof fn ranking_is_unique(scores: Seq<u64>, first: Seq<int>, second: Seq<int>)
    requires
        is_ranking(scores, first),
        is_ranking(scores, second),
    ensures
        first == second,
{
    assert forall|k: int| 0 <= k < first.len() implies first[k] == second[k] by {
        same_place(scores, first, second, k);
    }
    assert(first =~= second);
}

proof fn same_place(scores: Seq<u64>, first: Seq<int>, second: Seq<int>, k: int)
    requires
        is_ranking(scores, first),
        is_ranking(scores, second),
        0 <= k < scores.len(),
    ensures
        first[k] == second[k],
    decreases k,
{
    assert forall|j: int| 0 <= j < k implies first[j] == second[j] by {
        same_place(scores, first, second, j);
    }
    ranking_is_permutation(scores, second, first[k]);
    ranking_is_permutation(scores, first, second[k]);
    let p = choose|p: int| 0 <= p < second.len() && second[p] == first[k];
    let q = choose|q: int| 0 <= q < first.len() && first[q] == second[k];
    if p < k {
        assert(first[p] == second[p]);
        assert(outranks(scores, first[p], first[k]));
    } else if q < k {
        assert(first[q] == second[q]);
        assert(outranks(scores, second[q], second[k]));
    } else if p > k && q > k {
        assert(outranks(scores, second[k], second[p]));
        assert(outranks(scores, first[k], first[q]));
    }
}

/// Every list of scores has a ranking.
pub proof fn ranking_exists(scores: Seq<u64>)
    ensures
        is_ranking(scores, ranking(scores)),
    decreases scores.len(),
{
    if scores.len() == 0 {
        assert(is_ranking(scores, Seq::empty()));
    } else {
        let fewer = scores.drop_last();
        let new = scores.len() - 1;
        ranking_exists(fewer);
        let order = ranking(fewer);
        let place = first_below(fewer, order, scores[new], 0);
        let extended = order.insert(place, new);
        assert forall|a: int, b: int| 0 <= a < b < extended.len() implies outranks(
            scores,
            #[trigger] extended[a],
            #[trigger] extended[b],
        ) by {
            if a == place {
                assert(extended[b] == order[b - 1]);
                if b - 1 > place {
                    assert(outranks(fewer, order[place], order[b - 1]));
                }
            } else if b == place {
                assert(extended[a] == order[a]);
            } else {
                let a0 = if a < place { a } else { a - 1 };
                let b0 = if b < place { b } else { b - 1 };
                assert(extended[a] == order[a0] && extended[b] == order[b0]);
                assert(outranks(fewer, order[a0], order[b0]));
            }
        }
        assert(is_ranking(scores, extended));
    }
}

/// The first place from `from` on in `order` that holds a candidate of a score
/// below `score`.
proof fn first_below(scores: Seq<u64>, order: Seq<int>, score: u64, from: int) -> (place: int)
    requires
        is_ranking(scores, order),
        0 <= from <= order.len(),
    ensures
        from <= place <= order.len(),
        forall|k: int| from <= k < place ==> scores[#[trigger] order[k]] >= score,
        place < order.len() ==> scores[order[place]] < score,
    decreases order.len() - from,
{
    if from < order.len() && scores[order[from]] >= score {
        first_below(scores, order, score, from + 1)
    } else {
        from
    }
}

/// The selected candidates are as many as asked for, or all there are.
pub proof fn leaders_count(features: Seq<Seq<char>>, scores: Seq<u64>, count: nat)
    ensures
        leaders(features, ranking(scores), count).len() == if count < scores.len() {
            count
        } else {
            scores.len()
        },
{
    ranking_exists(scores);
}

/// Whoever is selected is a candidate, and is still selected, at the same place,
/// when more are asked for.
pub proof fn leaders_extend(
    features: Seq<Seq<char>>,
    scores: Seq<u64>,
    count: nat,
    more: nat,
    place: int,
)
    requires
        features.len() == scores.len(),
        count <= more,
        0 <= place < leaders(features, ranking(scores), count).len(),
    ensures
        features.contains(leaders(features, ranking(scores), count)[place]),
        place < leaders(features, ranking(scores), more).len(),
        leaders(features, ranking(scores), more)[place] == leaders(
            features,
            ranking(scores),
            count,
        )[place],
{
    ranking_exists(scores);
    assert(0 <= ranking(scores)[place] < scores.len());
}

/// No candidate that is left out has a higher score than one that is selected.
pub proof fn leaders_score_highest(scores: Seq<u64>, count: nat, selected: int, other: int)
    requires
        count <= scores.len(),
        ranking(scores).take(count as int).contains(selected),
        0 <= other < scores.len(),
        !ranking(scores).take(count as int).contains(other),
    ensures
        scores[selected] >= scores[other],
{
    ranking_exists(scores);
    let order = ranking(scores);
    ranking_is_permutation(scores, order, other);
    let a = choose|a: int| 0 <= a < count && order.take(count as int)[a] == selected;
    let b = choose|b: int| 0 <= b < order.len() && order[b] == other;
    if b < count {
        assert(order.take(count as int)[b] == other);
    }
    assert(outranks(scores, order[a], order[b]));
}

/// The target and the columns that identify a row are never features; every other
/// column is one.
pub proof fn features_leave_out_target(columns: Seq<Seq<char>>, target: Seq<char>, name: Seq<char>)
    ensures
        features_of(columns, target).contains(name) <==> columns.contains(name) && name != target
            && name != "time"@ && name != "symbol"@,
{
    let keep = |column: Seq<char>| is_feature(column, target);
    let features = columns.filter(keep);
    if features.contains(name) {
        let i = choose|i: int| 0 <= i < features.len() && features[i] == name;
        columns.lemma_filter_pred(keep, i);
        columns.lemma_filter_contains_rev(keep, name);
    }
    if columns.contains(name) && is_feature(name, target) {
        let i = choose|i: int| 0 <= i < columns.len() && columns[i] == name;
        columns.lemma_filter_contains(keep, i);
    }
}

/// If no two columns have the same name, no two features have.
pub proof fn features_are_distinct(columns: Seq<Seq<char>>, target: Seq<char>)
    requires
        columns.no_duplicates(),
    ensures
        features_of(columns, target).no_duplicates(),
    decreases columns.len(),
{
    reveal(Seq::filter);
    if columns.len() > 0 {
        let fewer = columns.drop_last();
        let last = columns.last();
        features_are_distinct(fewer, target);
        features_leave_out_target(fewer, target, last);
        assert(!fewer.contains(last));
        let keep = |column: Seq<char>| is_feature(column, target);
        assert(columns.filter(keep) == if is_feature(last, target) {
            fewer.filter(keep).push(last)
        } else {
            fewer.filter(keep)
        });
    }
}

/// If no two columns have the same name, no column is selected twice.
pub proof fn selection_is_distinct(
    columns: Seq<Seq<char>>,
    target: Seq<char>,
    scores: Seq<u64>,
    count: nat,
)
    requires
        columns.no_duplicates(),
        scores.len() == features_of(columns, target).len(),
    ensures
        leaders(features_of(columns, target), ranking(scores), count).no_duplicates(),
{
    let features = features_of(columns, target);
    features_are_distinct(columns, target);
    ranking_exists(scores);
    let order = ranking(scores);
    let selected = leaders(features, order, count);
    assert forall|a: int, b: int|
        0 <= a < selected.len() && 0 <= b < selected.len() && a != b implies selected[a]
        != selected[b] by {
        assert(0 <= order[a] < scores.len() && 0 <= order[b] < scores.len());
        if a < b {
            assert(outranks(scores, order[a], order[b]));
        } else {
            assert(outranks(scores, order[b], order[a]));
        }
    }
}

/// The rows that count for a correlation: those in which feature and target both
/// have a value.
pub open spec fn paired(feature: Seq<bool>, target: Seq<bool>, row: int) -> bool {
    0 <= row < feature.len() && row < target.len() && feature[row] && target[row]
}

/// The numbers of the rows below `end` that count for a correlation, in their order.
pub open spec fn paired_rows(feature: Seq<bool>, target: Seq<bool>, end: nat) -> Seq<int>
    decreases end,
{
    if end == 0 {
        seq![]
    } else {
        let row = end - 1;
        let before = paired_rows(feature, target, row as nat);
        if paired(feature, target, row) {
            before.push(row)
        } else {
            before
        }
    }
}

/// The rows that the correlation of a feature with the target is computed over;
/// none if it is not defined, which takes that both vary and that more than one
/// row counts. `feature_values` and `target_values` tell for each row whether
/// there is a value.
pub fn correlation_rows(
    feature_values: &Vec<bool>,
    target_values: &Vec<bool>,
    feature_varies: bool,
    target_varies: bool,
) -> (rows: Option<Vec<usize>>)
    requires
        feature_values@.len() == target_values@.len(),
    ensures
        ({
            let counting = paired_rows(
                feature_values@,
                target_values@,
                feature_values@.len(),
            );
            match rows {
                Some(rows) => {
                    &&& feature_varies && target_varies && counting.len() > 1
                    &&& indices(rows@) == counting
                },
                None => !(feature_varies && target_varies && counting.len() > 1),
            }
        }),
        rows matches Some(rows) ==> {
            &&& feature_varies && target_varies && rows@.len() > 1
            &&& forall|i: int|
                0 <= i < feature_values@.len() ==> (feature_values@[i] && target_values@[i]
                    <==> #[trigger] indices(rows@).contains(i))
            &&& forall|k: int|
                0 <= k < rows@.len() ==> (#[trigger] rows@[k]) < feature_values@.len()
            &&& forall|a: int, b: int|
                0 <= a < b < rows@.len() ==> #[trigger] rows@[a] < #[trigger] rows@[b]
        },
        rows is None && feature_varies && target_varies ==> forall|i: int, j: int|
            0 <= i < j < feature_values@.len() ==> !(#[trigger] feature_values@[i]
                && target_values@[i] && #[trigger] feature_values@[j] && target_values@[j]),
{
    let mut rows: Vec<usize> = Vec::new();
    let mut i: usize = 0;
    while i < feature_values.len()
        invariant
            i <= feature_values@.len(),
            feature_values@.len() == target_values@.len(),
            indices(rows@) == paired_rows(feature_values@, target_values@, i as nat),
        decreases feature_values@.len() - i,
    {
        let ghost before = rows@;
        if feature_values[i] && target_values[i] {
            rows.push(i);
            assert(indices(rows@) =~= indices(before).push(i as int));
        }
        i = i + 1;
    }
    proof {
        let counting = paired_rows(feature_values@, target_values@, feature_values@.len());
        paired_rows_are_those_with_values(feature_values@, target_values@, feature_values@.len());
        assert(indices(rows@) == counting);
        assert forall|k: int| 0 <= k < rows@.len() implies (#[trigger] rows@[k])
            < feature_values@.len() by {
            assert(indices(rows@)[k] == rows@[k]);
            assert(counting.contains(counting[k]));
        }
        assert forall|a: int, b: int| 0 <= a < b < rows@.len() implies #[trigger] rows@[a]
            < #[trigger] rows@[b] by {
            assert(indices(rows@)[a] == rows@[a] && indices(rows@)[b] == rows@[b]);
        }
        assert forall|i: int, j: int|
            0 <= i < j < feature_values@.len() && #[trigger] feature_values@[i]
                && target_values@[i] && #[trigger] feature_values@[j] && target_values@[j] implies
            rows@.len() > 1 by {
            assert(counting.contains(i) && counting.contains(j));
            let a = choose|a: int| 0 <= a < counting.len() && counting[a] == i;
            let b = choose|b: int| 0 <= b < counting.len() && counting[b] == j;
            assert(a != b);
        }
    }
    if feature_varies && target_varies && rows.len() > 1 {
        Some(rows)
    } else {
        None
    }
}

/// The rows that count are listed once each, in their order, and no others.
pub proof fn paired_rows_are_those_with_values(feature: Seq<bool>, target: Seq<bool>, end: nat)
    ensures
        forall|row: int| #[trigger]
            paired_rows(feature, target, end).contains(row) <==> row < end && paired(
                feature,
                target,
                row,
            ),
        forall|a: int, b: int|
            0 <= a < b < paired_rows(feature, target, end).len() ==> #[trigger] paired_rows(
                feature,
                target,
                end,
            )[a] < #[trigger] paired_rows(feature, target, end)[b],
    decreases end,
{
    let rows = paired_rows(feature, target, end);
    if end > 0 {
        let last = end - 1;
        let before = paired_rows(feature, target, last as nat);
        paired_rows_are_those_with_values(feature, target, last as nat);
        if paired(feature, target, last) {
            assert forall|row: int| #[trigger] rows.contains(row) <==> row < end && paired(
                feature,
                target,
                row,
            ) by {
                assert(rows[before.len() as int] == last);
                if before.contains(row) {
                    let k = choose|k: int| 0 <= k < before.len() && before[k] == row;
                    assert(rows[k] == row);
                }
                if rows.contains(row) && row != last {
                    let k = choose|k: int| 0 <= k < rows.len() && rows[k] == row;
                    assert(before[k] == row);
                }
            }
            assert forall|a: int, b: int| 0 <= a < b < rows.len() implies #[trigger] rows[a]
                < #[trigger] rows[b] by {
                assert(rows[a] == before[a]);
                assert(before.contains(before[a]));
                if b < before.len() {
                    assert(rows[b] == before[b]);
                }
            }
        }
    }
}

/// Why no features could be selected.
#[derive(Debug)]
pub enum FeatureError {
    /// The frame has no column of the target's name.
    TargetMissing(PolarsError),
    /// The target column cannot be converted to `Float64`.
    TargetNotNumeric(PolarsError),
}

/// How strong a correlation is, which is a double given by its bits: its absolute
/// value, again by its bits, which order as the doubles do. Where there is no
/// correlation, or it is not a number, it is 0.
pub open spec fn strength_of(correlation: Option<u64>) -> u64 {
    match correlation {
        Some(bits) => if crate::double::magnitude(bits) <= INFINITY_BITS {
            crate::double::magnitude(bits)
        } else {
            0
        },
        None => 0,
    }
}

/// How strong a correlation is.
pub fn strength(correlation: Option<u64>) -> (strength: u64)
    ensures
        strength == strength_of(correlation),
        correlation is None ==> strength == 0,
        correlation matches Some(bits) ==> strength == if bits % 0x8000_0000_0000_0000
            <= 0x7ff0_0000_0000_0000 {
            bits % 0x8000_0000_0000_0000
        } else {
            0
        },
{
    match correlation {
        Some(bits) => {
            let magnitude: u64 = bits % SIGN_BIT;
            if magnitude <= INFINITY_BITS {
                magnitude
            } else {
                0
            }
        },
        None => 0,
    }
}

/// The scores of features with these correlations.
pub open spec fn scores_of(correlations: Seq<Option<u64>>) -> Seq<u64> {
    correlations.map_values(|correlation: Option<u64>| strength_of(correlation))
}

/// The correlation with the other sign.
pub open spec fn opposite(correlation: Option<u64>) -> Option<u64> {
    match correlation {
        Some(bits) => Some(crate::double::negated(bits)),
        None => None,
    }
}

/// The sign of a correlation does not matter: if some features' correlations are
/// replaced by their opposites, the same features are selected, in the same order.
pub proof fn sign_does_not_matter(
    features: Seq<Seq<char>>,
    one: Seq<Option<u64>>,
    other: Seq<Option<u64>>,
    count: nat,
)
    requires
        one.len() == other.len(),
        forall|i: int|
            0 <= i < one.len() ==> other[i] == #[trigger] one[i] || other[i] == opposite(one[i]),
    ensures
        scores_of(one) == scores_of(other),
        leaders(features, ranking(scores_of(one)), count) == leaders(
            features,
            ranking(scores_of(other)),
            count,
        ),
{
    assert(scores_of(one) =~= scores_of(other)) by {
        assert forall|i: int| 0 <= i < one.len() implies strength_of(#[trigger] one[i])
            == strength_of(other[i]) by {}
    }
}

/// The correlation of a feature with the target is taken where both hold `Float64` values.
pub open spec fn is_correlated(
    types: Map<Seq<char>, ColumnType>,
    feature: Seq<char>,
    target: Seq<char>,
) -> bool {
    types[feature] == ColumnType::Float64 && types[target] == ColumnType::Float64
}

/// `score` is the score of `feature`: how strong `correlation` says it is correlated,
/// or 0 where no correlation is taken.
pub open spec fn is_score<F: Fn(&String) -> Option<u64>>(
    correlation: F,
    types: Map<Seq<char>, ColumnType>,
    feature: Seq<char>,
    target: Seq<char>,
    score: u64,
) -> bool {
    if is_correlated(types, feature, target) {
        exists|name: String, value: Option<u64>|
            {
                &&& name@ == feature
                &&& #[trigger] call_ensures(correlation, (&name,), value)
                &&& score == strength_of(value)
            }
    } else {
        score == 0
    }
}

/// `value` is what is known of the correlation of `feature` with the target: what
/// `correlation` says, where feature and target both hold `Float64` values, and
/// nothing anywhere else.
pub open spec fn is_told<F: Fn(&String) -> Option<u64>>(
    correlation: F,
    types: Map<Seq<char>, ColumnType>,
    feature: Seq<char>,
    target: Seq<char>,
    value: Option<u64>,
) -> bool {
    if types[feature] == ColumnType::Float64 && types[target] == ColumnType::Float64 {
        exists|name: String| name@ == feature && #[trigger] call_ensures(correlation, (&name,), value)
    } else {
        value is None
    }
}

/// `names` are the first of the features when they stand in the order of their
/// correlations' absolute values, the greatest first, those of equal absolute value
/// in column order; `order` lists the features in that order.
pub open spec fn is_selection(
    features: Seq<Seq<char>>,
    correlations: Seq<Option<u64>>,
    order: Seq<int>,
    names: Seq<Seq<char>>,
) -> bool {
    &&& correlations.len() == features.len()
    &&& order.len() == features.len()
    &&& order.no_duplicates()
    &&& forall|k: int| 0 <= k < order.len() ==> 0 <= #[trigger] order[k] < features.len()
    &&& forall|a: int, b: int|
        0 <= a < b < order.len() ==> {
            let first = absolute_correlation(correlations[#[trigger] order[a]]);
            let second = absolute_correlation(correlations[#[trigger] order[b]]);
            first > second || (first == second && order[a] < order[b])
        }
    &&& names.len() <= order.len()
    &&& forall|k: int| 0 <= k < names.len() ==> #[trigger] names[k] == features[order[k]]
}

/// The `n_features` feature columns of `frame` that are most strongly correlated
/// with its column `target_col`, strongest first, those of equal correlation in
/// column order. If the frame has no more than `n_features` feature columns, it is
/// all of them, in column order, and the target is not looked at.
///
/// `correlation` tells the bits of the named column's correlation with the target,
/// if there is one. How it is computed is left to the caller. Columns that are not
/// of type `Float64` count as not correlated at all.
pub fn select_features<F: Fn(&String) -> Option<u64>>(
    frame: &DataFrame,
    target_col: &str,
    n_features: usize,
    correlation: F,
) -> (selected: Result<Vec<String>, FeatureError>)
    requires
        forall|name: &String| call_requires(correlation, (name,)),
    ensures
        ({
            let columns = crate::frame::frame_columns(*frame);
            let types = crate::frame::frame_types(*frame);
            let features = features_of(columns, target_col@);
            let target_found = columns.contains(target_col@);
            let target_castable = crate::frame::frame_castable(*frame).contains(target_col@);
            match selected {
                Ok(names) => {
                    ||| features.len() <= n_features && crate::text::texts(names@) == features
                    ||| {
                        &&& features.len() > n_features
                        &&& target_found
                        &&& target_castable
                        &&& exists|scores: Seq<u64>|
                            {
                                &&& scores.len() == features.len()
                                &&& forall|i: int|
                                    0 <= i < scores.len() ==> is_score(
                                        correlation,
                                        types,
                                        features[i],
                                        target_col@,
                                        #[trigger] scores[i],
                                    )
                                &&& crate::text::texts(names@) == #[trigger] leaders(
                                    features,
                                    ranking(scores),
                                    n_features as nat,
                                )
                            }
                    }
                },
                Err(FeatureError::TargetMissing(_)) => features.len() > n_features && !target_found,
                Err(FeatureError::TargetNotNumeric(_)) => {
                    features.len() > n_features && target_found && !target_castable
                },
            }
        }),
        crate::frame::frame_types(*frame)[target_col@] != ColumnType::Other ==> !(
        selected matches Err(FeatureError::TargetNotNumeric(_))),
        ({
            let features = crate::frame::frame_columns(*frame).filter(
                |name: Seq<char>| name != target_col@ && name != "time"@ && name != "symbol"@,
            );
            &&& features.len() <= n_features ==> (selected matches Ok(names) && crate::text::texts(
                names@,
            ) == features)
            &&& features.len() > n_features ==> (selected matches Ok(names) ==> names@.len()
                == n_features)
            &&& features.len() > n_features ==> (selected is Ok
                <==> crate::frame::frame_columns(*frame).contains(target_col@)
                && crate::frame::frame_castable(*frame).contains(target_col@))
            &&& selected matches Ok(names) ==> forall|i: int|
                0 <= i < names@.len() ==> features.contains((#[trigger] names@[i])@)
            &&& features.len() > n_features ==> (selected matches Ok(names) ==> exists|
                correlations: Seq<Option<u64>>,
                order: Seq<int>,
            |
                {
                    &&& #[trigger] is_selection(
                        features,
                        correlations,
                        order,
                        crate::text::texts(names@),
                    )
                    &&& forall|i: int|
                        0 <= i < features.len() ==> is_told(
                            correlation,
                            crate::frame::frame_types(*frame),
                            features[i],
                            target_col@,
                            #[trigger] correlations[i],
                        )
                })
        }),
{
    proof {
        let columns = crate::frame::frame_columns(*frame);
        let other = |name: Seq<char>|
            name != target_col@ && name != "time"@ && name != "symbol"@;
        assert((|name: Seq<char>| is_feature(name, target_col@)) =~= other);
        assert(features_of(columns, target_col@) == columns.filter(other));
    }
    let columns = column_names(frame);
    let features = feature_columns(&columns, target_col);
    let ghost types = crate::frame::frame_types(*frame);
    let ghost texts = crate::text::texts(features@);
    if features.len() <= n_features {
        proof {
            assert forall|i: int| 0 <= i < features@.len() implies texts.contains(
                (#[trigger] features@[i])@,
            ) by {
                assert(texts[i] == features@[i]@);
            }
        }
        return Ok(features);
    }
    let target_type = match column_type(frame, target_col) {
        Ok(target_type) => target_type,
        Err(error) => {
            return Err(FeatureError::TargetMissing(error));
        },
    };
    if let Some(error) = float_cast_error(frame, target_col) {
        return Err(FeatureError::TargetNotNumeric(error));
    }
    let mut scores: Vec<u64> = Vec::new();
    let ghost mut told: Seq<Option<u64>> = Seq::empty();
    let mut i: usize = 0;
    while i < features.len()
        invariant
            i <= features@.len(),
            scores@.len() == i,
            told.len() == i,
            scores@ == scores_of(told),
            forall|j: int|
                0 <= j < i ==> is_told(
                    correlation,
                    types,
                    texts[j],
                    target_col@,
                    #[trigger] told[j],
                ),
            texts == crate::text::texts(features@),
            texts == features_of(crate::frame::frame_columns(*frame), target_col@),
            types == crate::frame::frame_types(*frame),
            target_type == types[target_col@],
            forall|name: &String| call_requires(correlation, (name,)),
            forall|j: int|
                0 <= j < i ==> is_score(
                    correlation,
                    types,
                    texts[j],
                    target_col@,
                    #[trigger] scores@[j],
                ),
        decreases features@.len() - i,
    {
        let name = &features[i];
        assert(texts[i as int] == name@);
        proof {
            // A feature is one of the frame's columns, so it has a type.
            let keep = |column: Seq<char>| is_feature(column, target_col@);
            crate::frame::frame_columns(*frame).lemma_filter_contains_rev(keep, name@);
        }
        let value: Option<u64> = match column_type(frame, name.as_str()) {
            Ok(ColumnType::Float64) => if target_type == ColumnType::Float64 {
                let value = correlation(name);
                assert(call_ensures(correlation, (name,), value));
                value
            } else {
                None
            },
            _ => None,
        };
        scores.push(strength(value));
        proof {
            told = told.push(value);
            assert(scores@ =~= scores_of(told));
        }
        i = i + 1;
    }
    let selected = rank_features(&features, &scores, n_features);
    proof {
        assert forall|i: int| 0 <= i < selected@.len() implies texts.contains(
            (#[trigger] selected@[i])@,
        ) by {
            leaders_extend(texts, scores@, n_features as nat, n_features as nat, i);
            assert(crate::text::texts(selected@)[i] == selected@[i]@);
        }
        let order = ranking(scores@);
        ranking_exists(scores@);
        ranking_is_permutation(scores@, order, 0);
        assert forall|a: int, b: int| 0 <= a < b < order.len() implies {
            let first = absolute_correlation(told[#[trigger] order[a]]);
            let second = absolute_correlation(told[#[trigger] order[b]]);
            first > second || (first == second && order[a] < order[b])
        } by {
            selection_is_by_absolute_correlation(told, a, b);
        }
        assert(is_selection(texts, told, order, crate::text::texts(selected@)));
    }
    assert(crate::text::texts(selected@) == leaders(texts, ranking(scores@), n_features as nat));
    Ok(selected)
}

/// The features are the columns without the target and the two columns that
/// identify a row, in column order, each as often as it stands there.
pub proof fn features_are_the_other_columns(columns: Seq<Seq<char>>, target: Seq<char>)
    ensures
        features_of(columns, target) == columns.filter(
            |name: Seq<char>| name != target && name != "time"@ && name != "symbol"@,
        ),
{
    let kept = |name: Seq<char>| is_feature(name, target);
    let other = |name: Seq<char>| name != target && name != "time"@ && name != "symbol"@;
    assert(kept =~= other);
}

/// A column that is added at the end is a feature, the last one, exactly if it is
/// neither the target nor one that identifies a row; the features before it stay.
pub proof fn features_grow_with_the_columns(
    columns: Seq<Seq<char>>,
    target: Seq<char>,
    added: Seq<char>,
)
    ensures
        features_of(Seq::empty(), target).len() == 0,
        features_of(columns.push(added), target) == if added != target && added != "time"@ && added
            != "symbol"@ {
            features_of(columns, target).push(added)
        } else {
            features_of(columns, target)
        },
{
    reveal(Seq::filter);
    assert(columns.push(added).drop_last() =~= columns);
}

/// A ranking lists every candidate once, the better before the worse: by higher
/// score, and of equal scores the one that stands first.
pub proof fn ranking_is_by_score(scores: Seq<u64>, a: int, b: int)
    requires
        0 <= a < b < scores.len(),
    ensures
        ({
            let order = ranking(scores);
            &&& order.len() == scores.len()
            &&& order.no_duplicates()
            &&& 0 <= order[a] < scores.len()
            &&& 0 <= order[b] < scores.len()
            &&& scores[order[a]] >= scores[order[b]]
            &&& scores[order[a]] == scores[order[b]] ==> order[a] < order[b]
        }),
{
    ranking_exists(scores);
    ranking_is_permutation(scores, ranking(scores), a);
    assert(outranks(scores, ranking(scores)[a], ranking(scores)[b]));
}

/// At each place stands the candidate that the ranking has there.
pub proof fn leaders_stand_in_order(features: Seq<Seq<char>>, order: Seq<int>, count: nat, k: int)
    requires
        0 <= k < count,
        k < order.len(),
    ensures
        leaders(features, order, count).len() == if count < order.len() {
            count
        } else {
            order.len()
        },
        leaders(features, order, count)[k] == features[order[k]],
{
}

/// Strength is absolute value: of two correlations that are numbers, the one with
/// the greater absolute value is the stronger one, whatever their signs. Where
/// there is no correlation, or it is not a number, it is as if it were 0.
pub proof fn stronger_is_greater_in_absolute_value(one: u64, other: u64)
    requires
        one % 0x8000_0000_0000_0000 <= 0x7ff0_0000_0000_0000,
        other % 0x8000_0000_0000_0000 <= 0x7ff0_0000_0000_0000,
    ensures
        strength_of(Some(one)) > strength_of(Some(other)) <==> crate::double::absolute(one)
            > crate::double::absolute(other),
        strength_of(Some(one)) == strength_of(Some(other)) <==> crate::double::absolute(one)
            == crate::double::absolute(other),
        strength_of(None) == strength_of(Some(0)),
        crate::double::absolute(0) == 0,
        forall|bits: u64|
            bits % 0x8000_0000_0000_0000 > 0x7ff0_0000_0000_0000 ==> #[trigger] strength_of(
                Some(bits),
            ) == strength_of(None),
{
    let a = crate::double::magnitude(one);
    let b = crate::double::magnitude(other);
    crate::double::sign_and_magnitude(one);
    crate::double::sign_and_magnitude(other);
    crate::double::bits_order_as_doubles(a, b);
    crate::double::bits_order_as_doubles(b, a);
    crate::double::bits_denote(0);
}

/// The absolute value of a correlation, 0 where there is none or it is not a number,
/// in multiples of the smallest positive double.
pub open spec fn absolute_correlation(correlation: Option<u64>) -> nat {
    match correlation {
        Some(bits) => if bits % 0x8000_0000_0000_0000 <= 0x7ff0_0000_0000_0000 {
            crate::double::absolute(bits)
        } else {
            0
        },
        None => 0,
    }
}

proof fn scores_order_as_correlations(one: Option<u64>, other: Option<u64>)
    ensures
        strength_of(one) > strength_of(other) <==> absolute_correlation(one)
            > absolute_correlation(other),
{
    let a = match one {
        Some(bits) => if bits % 0x8000_0000_0000_0000 <= 0x7ff0_0000_0000_0000 {
            bits
        } else {
            0
        },
        None => 0,
    };
    let b = match other {
        Some(bits) => if bits % 0x8000_0000_0000_0000 <= 0x7ff0_0000_0000_0000 {
            bits
        } else {
            0
        },
        None => 0,
    };
    stronger_is_greater_in_absolute_value(a, b);
}

/// The features are selected by how strongly they are correlated with the target:
/// they stand in the order of their correlations' absolute values, the greatest
/// first, those of equal absolute value in column order.
pub proof fn selection_is_by_absolute_correlation(correlations: Seq<Option<u64>>, a: int, b: int)
    requires
        0 <= a < b < correlations.len(),
    ensures
        ({
            let order = ranking(scores_of(correlations));
            let first = correlations[order[a]];
            let second = correlations[order[b]];
            &&& order.len() == correlations.len()
            &&& 0 <= order[a] < correlations.len() && 0 <= order[b] < correlations.len()
            &&& absolute_correlation(first) >= absolute_correlation(second)
            &&& absolute_correlation(first) == absolute_correlation(second) ==> order[a]
                < order[b]
        }),
{
    let scores = scores_of(correlations);
    let order = ranking(scores);
    ranking_is_by_score(scores, a, b);
    scores_order_as_correlations(correlations[order[a]], correlations[order[b]]);
    scores_order_as_correlations(correlations[order[b]], correlations[order[a]]);
}

/// No feature that is left out is more strongly correlated with the target than one
/// that is selected.
pub proof fn no_stronger_feature_is_left_out(
    correlations: Seq<Option<u64>>,
    count: nat,
    selected: int,
    other: int,
)
    requires
        count <= correlations.len(),
        ranking(scores_of(correlations)).take(count as int).contains(selected),
        0 <= other < correlations.len(),
        !ranking(scores_of(correlations)).take(count as int).contains(other),
    ensures
        0 <= selected < correlations.len(),
        absolute_correlation(correlations[selected]) >= absolute_correlation(correlations[other]),
{
    let scores = scores_of(correlations);
    let order = ranking(scores);
    ranking_exists(scores);
    let a = choose|a: int| 0 <= a < count && order.take(count as int)[a] == selected;
    assert(order[a] == selected);
    leaders_score_highest(scores, count, selected, other);
    scores_order_as_correlations(correlations[other], correlations[selected]);
}

/// What a feature's score is: where feature and target both hold `Float64` values,
/// the strength of the correlation that was told of it, and 0 anywhere else.
pub proof fn score_is_the_told_strength<F: Fn(&String) -> Option<u64>>(
    correlation: F,
    types: Map<Seq<char>, ColumnType>,
    feature: Seq<char>,
    target: Seq<char>,
    score: u64,
)
    ensures
        is_score(correlation, types, feature, target, score) && types[feature]
            == ColumnType::Float64 && types[target] == ColumnType::Float64 ==> exists|
            name: String,
            value: Option<u64>,
        |
            {
                &&& name@ == feature
                &&& #[trigger] call_ensures(correlation, (&name,), value)
                &&& score == strength_of(value)
            },
        types[feature] != ColumnType::Float64 || types[target] != ColumnType::Float64 ==> (is_score(
            correlation,
            types,
            feature,
            target,
            score,
        ) <==> score == 0),
{
}

/// The rows that count for a correlation are those in which neither value is
/// missing: a row that is added counts exactly if both values are there.
pub proof fn rows_with_both_values_count(feature: Seq<bool>, target: Seq<bool>, end: nat)
    requires
        end < feature.len(),
        end < target.len(),
    ensures
        paired_rows(feature, target, 0).len() == 0,
        paired_rows(feature, target, end + 1) == if feature[end as int] && target[end as int] {
            paired_rows(feature, target, end).push(end as int)
        } else {
            paired_rows(feature, target, end)
        },
{
}

/// Every feature has a score, in column order: the strength of its correlation.
pub proof fn scores_are_strengths(correlations: Seq<Option<u64>>, i: int)
    requires
        0 <= i < correlations.len(),
    ensures
        scores_of(correlations).len() == correlations.len(),
        scores_of(correlations)[i] == strength_of(correlations[i]),
{
}

} // verus!
