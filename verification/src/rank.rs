//! Ordering of result sets by vote count.

use crate::record::PackageRecord;
use vstd::prelude::*;

verus! {

/// Whether the vote counts of `records` never increase from one position to
/// the next.
pub open spec fn descending(records: Seq<PackageRecord>) -> bool {
    forall|i: int, j: int|
        0 <= i <= j < records.len() ==> records[i].num_votes >= records[j].num_votes
}

/// The test "has exactly `votes` votes".
pub open spec fn has_votes(votes: u32) -> spec_fn(PackageRecord) -> bool {
    |record: PackageRecord| record.num_votes == votes
}

/// The records of `records` that have exactly `votes` votes, in the order in
/// which they stand there.
pub open spec fn tied_at(records: Seq<PackageRecord>, votes: u32) -> Seq<PackageRecord> {
    records.filter(has_votes(votes))
}

/// Whether `ranked` is `input` ordered by descending vote count with ties
/// left in their input order: the vote counts never increase, and for every
/// vote count the records that have it are the same, in the same order, on
/// both sides.
pub open spec fn is_ranking_of(ranked: Seq<PackageRecord>, input: Seq<PackageRecord>) -> bool {
    &&& descending(ranked)
    &&& forall|votes: u32| #[trigger] tied_at(ranked, votes) == tied_at(input, votes)
}

/// Puts `record` into a ranked list behind every record with at least as
/// many votes and before every record with fewer.
pub fn insert_ranked(ranked: &mut Vec<PackageRecord>, record: PackageRecord)
    requires
        descending(old(ranked)@),
    ensures
        is_ranking_of(final(ranked)@, old(ranked)@.push(record)),
        final(ranked)@.to_multiset() == old(ranked)@.to_multiset().insert(record),
        final(ranked)@.len() == old(ranked)@.len() + 1,
{
    let ghost before = ranked@;
    let mut at: usize = 0;
    while at < ranked.len() && ranked[at].num_votes >= record.num_votes
        invariant
            at <= ranked.len(),
            ranked@ == before,
            forall|i: int| 0 <= i < at ==> before[i].num_votes >= record.num_votes,
        decreases ranked.len() - at,
    {
        at += 1;
    }
    ranked.insert(at, record);
    proof {
        let head = before.subrange(0, at as int);
        let tail = before.subrange(at as int, before.len() as int);
        let after = ranked@;
        assert(before == head + tail);
        assert(after == head.push(record) + tail);
        assert forall|i: int| 0 <= i < tail.len() implies tail[i].num_votes
            < record.num_votes by {
            assert(before[at as int].num_votes < record.num_votes);
            assert(before[at as int].num_votes >= before[at + i].num_votes);
        }
        assert forall|votes: u32| #[trigger]
            tied_at(after, votes) == tied_at(before.push(record), votes) by {
            let pred = has_votes(votes);
            Seq::filter_distributes_over_add(head, tail, pred);
            Seq::filter_distributes_over_add(head.push(record), tail, pred);
            head.lemma_filter_push(record, pred);
            before.lemma_filter_push(record, pred);
            if record.num_votes == votes {
                assert forall|i: int| 0 <= i < tail.len() implies !pred(tail[i]) by {}
                tail.lemma_all_neg_filter_empty(pred);
                assert(tail.filter(pred) == Seq::<PackageRecord>::empty());
                assert(head.filter(pred).push(record) + tail.filter(pred) == (head.filter(pred)
                    + tail.filter(pred)).push(record));
            }
        }
        vstd::seq_lib::to_multiset_insert(before, at as int, record);
    }
}

/// Orders a result set by descending vote count. Records with equal vote
/// counts keep the order in which they came.
pub fn rank(results: Vec<PackageRecord>) -> (ranked: Vec<PackageRecord>)
    ensures
        is_ranking_of(ranked@, results@),
        ranked@.to_multiset() == results@.to_multiset(),
        ranked@.len() == results@.len(),
{
    let ghost input = results@;
    let mut pending = results;
    let mut ranked: Vec<PackageRecord> = Vec::new();
    let mut done: usize = 0;
    let total = pending.len();
    proof {
        assert(input.subrange(0, 0) == ranked@);
    }
    while done < total
        invariant
            done <= total,
            total == input.len(),
            pending@ == input.subrange(done as int, total as int),
            is_ranking_of(ranked@, input.subrange(0, done as int)),
            ranked@.to_multiset() == input.subrange(0, done as int).to_multiset(),
            ranked@.len() == done,
        decreases total - done,
    {
        let record = pending.remove(0);
        let ghost so_far = input.subrange(0, done as int);
        let ghost placed = ranked@;
        insert_ranked(&mut ranked, record);
        proof {
            assert(record == input[done as int]);
            assert(input.subrange(0, done + 1) == so_far.push(record));
            assert forall|votes: u32| #[trigger]
                tied_at(ranked@, votes) == tied_at(so_far.push(record), votes) by {
                assert(tied_at(ranked@, votes) == tied_at(placed.push(record), votes));
                let pred = has_votes(votes);
                placed.lemma_filter_push(record, pred);
                so_far.lemma_filter_push(record, pred);
                assert(tied_at(placed, votes) == tied_at(so_far, votes));
            }
            vstd::seq_lib::to_multiset_build(so_far, record);
        }
        done += 1;
    }
    proof {
        assert(input.subrange(0, total as int) == input);
    }
    ranked
}

/// What the last record of a non-empty list tells about its ties: the last
/// record closes the ties at its own vote count and belongs to no other.
proof fn lemma_ties_of_last(records: Seq<PackageRecord>, votes: u32)
    requires
        records.len() > 0,
    ensures
        tied_at(records, votes) == if records.last().num_votes == votes {
            tied_at(records.drop_last(), votes).push(records.last())
        } else {
            tied_at(records.drop_last(), votes)
        },
{
    assert(records == records.drop_last().push(records.last()));
    records.drop_last().lemma_filter_push(records.last(), has_votes(votes));
}

/// A record that is tied at `votes` stands somewhere in the list and has that
/// many votes.
proof fn lemma_tie_has_source(records: Seq<PackageRecord>, votes: u32) -> (at: int)
    requires
        tied_at(records, votes).len() > 0,
    ensures
        0 <= at < records.len(),
        records[at].num_votes == votes,
{
    let tied = tied_at(records, votes);
    records.lemma_filter_pred(has_votes(votes), 0);
    assert(tied.contains(tied[0]));
    records.lemma_filter_contains_rev(has_votes(votes), tied[0]);
    choose|at: int| 0 <= at < records.len() && records[at] == tied[0]
}

/// A list has one ranking only: two lists that both rank `input` are equal.
/// Ranking is therefore a function of the input alone.
pub proof fn lemma_ranking_unique(
    first: Seq<PackageRecord>,
    second: Seq<PackageRecord>,
    input: Seq<PackageRecord>,
)
    requires
        is_ranking_of(first, input),
        is_ranking_of(second, input),
    ensures
        first == second,
    decreases first.len(),
{
    assert forall|votes: u32| #[trigger] tied_at(first, votes) == tied_at(second, votes) by {
        assert(tied_at(first, votes) == tied_at(input, votes));
        assert(tied_at(second, votes) == tied_at(input, votes));
    }
    if first.len() == 0 {
        if second.len() > 0 {
            lemma_ties_of_last(second, second.last().num_votes);
            first.lemma_filter_len(has_votes(second.last().num_votes));
            assert(tied_at(first, second.last().num_votes) == tied_at(
                second,
                second.last().num_votes,
            ));
        }
        assert(first =~= second);
    } else {
        let x = first.last();
        lemma_ties_of_last(first, x.num_votes);
        assert(tied_at(second, x.num_votes) == tied_at(first, x.num_votes));
        let in_second = lemma_tie_has_source(second, x.num_votes);
        let y = second.last();
        lemma_ties_of_last(second, y.num_votes);
        assert(tied_at(first, y.num_votes) == tied_at(second, y.num_votes));
        let in_first = lemma_tie_has_source(first, y.num_votes);
        assert(second[in_second].num_votes >= y.num_votes);
        assert(first[in_first].num_votes >= x.num_votes);
        assert(x.num_votes == y.num_votes);
        assert(tied_at(first, x.num_votes).last() == x);
        assert(tied_at(second, x.num_votes).last() == y);
        assert(x == y);
        let shorter_first = first.drop_last();
        let shorter_second = second.drop_last();
        assert forall|votes: u32| #[trigger]
            tied_at(shorter_first, votes) == tied_at(shorter_second, votes) by {
            lemma_ties_of_last(first, votes);
            lemma_ties_of_last(second, votes);
            assert(tied_at(first, votes) == tied_at(second, votes));
            if votes == x.num_votes {
                assert(tied_at(shorter_first, votes) == tied_at(first, votes).drop_last());
                assert(tied_at(shorter_second, votes) == tied_at(second, votes).drop_last());
            }
        }
        lemma_ranking_unique(shorter_first, shorter_second, shorter_second);
        assert(first == shorter_first.push(x));
        assert(second == shorter_second.push(y));
    }
}

/// Ranking twice changes nothing: a ranking of a ranked list is that list.
pub proof fn lemma_rank_idempotent(
    input: Seq<PackageRecord>,
    once: Seq<PackageRecord>,
    twice: Seq<PackageRecord>,
)
    requires
        is_ranking_of(once, input),
        is_ranking_of(twice, once),
    ensures
        twice == once,
{
    lemma_ranking_unique(twice, once, once);
}

/// In a ranking, two records with equal vote counts stand in the order in
/// which they stood in the input: the record at `i` and the record at `j`
/// behind it are found in the input at two places in that same order, and
/// vote counts never increase along the ranking.
pub proof fn lemma_ranking_keeps_ties_in_order(
    ranked: Seq<PackageRecord>,
    input: Seq<PackageRecord>,
    i: int,
    j: int,
) -> (places: (int, int))
    requires
        is_ranking_of(ranked, input),
        0 <= i < j < ranked.len(),
        ranked[i].num_votes == ranked[j].num_votes,
    ensures
        0 <= places.0 < places.1 < input.len(),
        input[places.0] == ranked[i],
        input[places.1] == ranked[j],
{
    let votes = ranked[i].num_votes;
    let ties = tied_at(ranked, votes);
    let (a, b) = lemma_places_among_ties(ranked, votes, i, j);
    assert(ties == tied_at(input, votes));
    lemma_ties_come_in_order(input, votes, a, b)
}

/// Two records with `votes` votes at `i` and behind it at `j` stand among the
/// ties at `votes` at two places in that order.
proof fn lemma_places_among_ties(records: Seq<PackageRecord>, votes: u32, i: int, j: int) -> (places:
    (int, int))
    requires
        0 <= i < j < records.len(),
        records[i].num_votes == votes,
        records[j].num_votes == votes,
    ensures
        0 <= places.0 < places.1 < tied_at(records, votes).len(),
        tied_at(records, votes)[places.0] == records[i],
        tied_at(records, votes)[places.1] == records[j],
    decreases records.len(),
{
    lemma_ties_of_last(records, votes);
    let shorter = records.drop_last();
    if j == records.len() - 1 {
        let a = lemma_place_among_ties(shorter, votes, i);
        (a, tied_at(shorter, votes).len() as int)
    } else {
        lemma_places_among_ties(shorter, votes, i, j)
    }
}

/// A record with `votes` votes at `i` stands among the ties at `votes`.
proof fn lemma_place_among_ties(records: Seq<PackageRecord>, votes: u32, i: int) -> (place: int)
    requires
        0 <= i < records.len(),
        records[i].num_votes == votes,
    ensures
        0 <= place < tied_at(records, votes).len(),
        tied_at(records, votes)[place] == records[i],
    decreases records.len(),
{
    lemma_ties_of_last(records, votes);
    let shorter = records.drop_last();
    if i == records.len() - 1 {
        tied_at(shorter, votes).len() as int
    } else {
        lemma_place_among_ties(shorter, votes, i)
    }
}

/// The ties at `votes` are a subsequence: the ties at places `a` and `b`
/// behind it come from two places of the list in that same order.
proof fn lemma_ties_come_in_order(records: Seq<PackageRecord>, votes: u32, a: int, b: int) -> (places:
    (int, int))
    requires
        0 <= a < b < tied_at(records, votes).len(),
    ensures
        0 <= places.0 < places.1 < records.len(),
        records[places.0] == tied_at(records, votes)[a],
        records[places.1] == tied_at(records, votes)[b],
    decreases records.len(),
{
    records.lemma_filter_len(has_votes(votes));
    lemma_ties_of_last(records, votes);
    let shorter = records.drop_last();
    if records.last().num_votes == votes && b == tied_at(records, votes).len() - 1 {
        let first = lemma_tie_comes_from(shorter, votes, a);
        (first, records.len() - 1)
    } else {
        lemma_ties_come_in_order(shorter, votes, a, b)
    }
}

/// The tie at place `a` comes from some place of the list.
proof fn lemma_tie_comes_from(records: Seq<PackageRecord>, votes: u32, a: int) -> (place: int)
    requires
        0 <= a < tied_at(records, votes).len(),
    ensures
        0 <= place < records.len(),
        records[place] == tied_at(records, votes)[a],
    decreases records.len(),
{
    records.lemma_filter_len(has_votes(votes));
    lemma_ties_of_last(records, votes);
    let shorter = records.drop_last();
    if records.last().num_votes == votes && a == tied_at(records, votes).len() - 1 {
        records.len() - 1
    } else {
        lemma_tie_comes_from(shorter, votes, a)
    }
}

} // verus!
