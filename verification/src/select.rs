//! Which repositories are reported on: the ones that are not archived, most
//! recently pushed first, and no more of them than asked for.

use crate::instant::Timestamp;
use crate::record::RepoRecord;
use vstd::prelude::*;

verus! {

/// `r` put into `sorted` in front of the first record that was not pushed
/// after it.
pub open spec fn place(sorted: Seq<RepoRecord>, r: RepoRecord) -> Seq<RepoRecord>
    decreases sorted.len(),
{
    if sorted.len() == 0 {
        seq![r]
    } else if sorted[0].pushed_at.after(r.pushed_at) {
        seq![sorted[0]] + place(sorted.drop_first(), r)
    } else {
        seq![r] + sorted
    }
}

/// The records that are not archived, most recently pushed first; records
/// pushed at the same instant stay in the order in which they came.
pub open spec fn ordered(records: Seq<RepoRecord>) -> Seq<RepoRecord>
    decreases records.len(),
{
    if records.len() == 0 {
        Seq::empty()
    } else if records[0].archived {
        ordered(records.drop_first())
    } else {
        place(ordered(records.drop_first()), records[0])
    }
}

/// The first `limit` of the ordered records, or all of them where there are
/// fewer.
pub open spec fn selected(records: Seq<RepoRecord>, limit: nat) -> Seq<RepoRecord> {
    let all = ordered(records);
    if limit < all.len() {
        all.take(limit as int)
    } else {
        all
    }
}

/// The predicate "is not archived".
pub open spec fn is_active() -> spec_fn(RepoRecord) -> bool {
    |r: RepoRecord| !r.archived
}

/// The predicate "is not archived and was pushed at `t`".
pub open spec fn active_at(t: Timestamp) -> spec_fn(RepoRecord) -> bool {
    |r: RepoRecord| !r.archived && r.pushed_at == t
}

/// How many of the records are not archived.
pub open spec fn count_active(records: Seq<RepoRecord>) -> nat {
    records.filter(is_active()).len()
}

/// Each record was pushed no earlier than every record behind it.
pub open spec fn newest_first(s: Seq<RepoRecord>) -> bool {
    forall|i: int, j: int|
        0 <= i < j < s.len() ==> (#[trigger] s[j]).pushed_at.at_most((#[trigger] s[i]).pushed_at)
}

/// `place` inserts the record at `p`, where the records in front of `p` were
/// pushed after it and the record at `p` was not.
proof fn lemma_place_at(sorted: Seq<RepoRecord>, r: RepoRecord, p: int)
    requires
        0 <= p <= sorted.len(),
        forall|j: int| 0 <= j < p ==> (#[trigger] sorted[j]).pushed_at.after(r.pushed_at),
        p < sorted.len() ==> !sorted[p].pushed_at.after(r.pushed_at),
    ensures
        place(sorted, r) == sorted.insert(p, r),
    decreases p,
{
    if p == 0 {
        assert(seq![r] + sorted =~= sorted.insert(0, r));
    } else {
        let rest = sorted.drop_first();
        assert forall|j: int| 0 <= j < p - 1 implies (#[trigger] rest[j]).pushed_at.after(
            r.pushed_at,
        ) by {
            assert(rest[j] == sorted[j + 1]);
        }
        lemma_place_at(rest, r, p - 1);
        assert(seq![sorted[0]] + rest.insert(p - 1, r) =~= sorted.insert(p, r));
    }
}

/// Where `place` puts a record: behind the leading records pushed after it.
pub open spec fn slot(sorted: Seq<RepoRecord>, r: RepoRecord) -> int
    decreases sorted.len(),
{
    if sorted.len() == 0 || !sorted[0].pushed_at.after(r.pushed_at) {
        0
    } else {
        1 + slot(sorted.drop_first(), r)
    }
}

/// `place` inserts the record at its slot: every record in front of the slot
/// was pushed after it, and the record at the slot was not.
pub proof fn lemma_place_is_insert(sorted: Seq<RepoRecord>, r: RepoRecord)
    ensures
        0 <= slot(sorted, r) <= sorted.len(),
        forall|j: int|
            0 <= j < slot(sorted, r) ==> (#[trigger] sorted[j]).pushed_at.after(r.pushed_at),
        slot(sorted, r) < sorted.len() ==> !sorted[slot(sorted, r)].pushed_at.after(r.pushed_at),
        place(sorted, r) == sorted.insert(slot(sorted, r), r),
    decreases sorted.len(),
{
    if sorted.len() != 0 && sorted[0].pushed_at.after(r.pushed_at) {
        let rest = sorted.drop_first();
        let k = slot(rest, r);
        lemma_place_is_insert(rest, r);
        assert forall|j: int| 0 <= j < k + 1 implies (#[trigger] sorted[j]).pushed_at.after(
            r.pushed_at,
        ) by {
            if j > 0 {
                assert(sorted[j] == rest[j - 1]);
            }
        }
        if k + 1 < sorted.len() {
            assert(sorted[k + 1] == rest[k]);
        }
    }
    lemma_place_at(sorted, r, slot(sorted, r));
}

/// Placing a record adds it to those that a predicate keeps, in front of the
/// kept records pushed at the same instant, and moves no other record.
pub proof fn lemma_place_filter(sorted: Seq<RepoRecord>, r: RepoRecord, t: Timestamp)
    ensures
        place(sorted, r).filter(active_at(t)) == (if active_at(t)(r) {
            seq![r]
        } else {
            Seq::empty()
        }) + sorted.filter(active_at(t)),
    decreases sorted.len(),
{
    let keep = active_at(t);
    if sorted.len() == 0 {
        assert(sorted =~= Seq::<RepoRecord>::empty());
        assert(seq![r] =~= seq![r] + sorted);
        sorted.lemma_filter_prepend(r, keep);
    } else if sorted[0].pushed_at.after(r.pushed_at) {
        let rest = sorted.drop_first();
        lemma_place_filter(rest, r, t);
        place(rest, r).lemma_filter_prepend(sorted[0], keep);
        rest.lemma_filter_prepend(sorted[0], keep);
        assert(sorted =~= seq![sorted[0]] + rest);
        if keep(r) {
            assert(!keep(sorted[0]));
            assert(place(sorted, r).filter(keep) =~= seq![r] + sorted.filter(keep));
        } else {
            assert(place(sorted, r).filter(keep) =~= Seq::<RepoRecord>::empty() + sorted.filter(
                keep,
            ));
        }
    } else {
        sorted.lemma_filter_prepend(r, keep);
    }
}

/// The ordered records are exactly the records that are not archived: as
/// many as there are, none archived, each one of the records given, and each
/// pushed no earlier than those behind it.
pub proof fn lemma_ordered(records: Seq<RepoRecord>)
    ensures
        ordered(records).len() == count_active(records),
        forall|i: int|
            0 <= i < ordered(records).len() ==> !(#[trigger] ordered(records)[i]).archived
                && records.contains(ordered(records)[i]),
        newest_first(ordered(records)),
    decreases records.len(),
{
    if records.len() == 0 {
        records.lemma_filter_len(is_active());
    } else {
        let first = records[0];
        let rest = records.drop_first();
        let sub = ordered(rest);
        lemma_ordered(rest);
        assert(records =~= seq![first] + rest);
        rest.lemma_filter_prepend(first, is_active());
        assert forall|i: int| 0 <= i < sub.len() implies records.contains(#[trigger] sub[i]) by {
            let k = choose|k: int| 0 <= k < rest.len() && rest[k] == sub[i];
            assert(records[k + 1] == sub[i]);
        }
        if !first.archived {
            let k = slot(sub, first);
            lemma_place_is_insert(sub, first);
            let out = ordered(records);
            assert(out == sub.insert(k, first));
            assert forall|i: int| 0 <= i < out.len() implies !(#[trigger] out[i]).archived
                && records.contains(out[i]) by {
                if i < k {
                    assert(out[i] == sub[i]);
                } else if i == k {
                    assert(out[i] == records[0]);
                } else {
                    assert(out[i] == sub[i - 1]);
                }
            }
            assert forall|i: int, j: int| 0 <= i < j < out.len() implies (#[trigger] out[j])
                .pushed_at.at_most((#[trigger] out[i]).pushed_at) by {
                if j < k {
                    assert(out[i] == sub[i] && out[j] == sub[j]);
                } else if j == k {
                    assert(out[i] == sub[i]);
                } else if i < k {
                    assert(out[i] == sub[i] && out[j] == sub[j - 1]);
                } else if i == k {
                    assert(out[j] == sub[j - 1]);
                    assert(sub[j - 1] == sub[k] || sub[j - 1].pushed_at.at_most(sub[k].pushed_at));
                } else {
                    assert(out[i] == sub[i - 1] && out[j] == sub[j - 1]);
                }
            }
        }
    }
}

/// Stability: among the ordered records, those pushed at one instant stand
/// in the order in which they were given, and none of them is missing.
pub proof fn lemma_ordered_stable(records: Seq<RepoRecord>, t: Timestamp)
    ensures
        ordered(records).filter(active_at(t)) == records.filter(active_at(t)),
    decreases records.len(),
{
    let keep = active_at(t);
    if records.len() == 0 {
        assert(ordered(records) =~= records);
    } else {
        let first = records[0];
        let rest = records.drop_first();
        lemma_ordered_stable(rest, t);
        assert(records =~= seq![first] + rest);
        rest.lemma_filter_prepend(first, keep);
        if first.archived {
            assert(records.filter(keep) =~= rest.filter(keep));
        } else {
            lemma_place_filter(ordered(rest), first, t);
        }
    }
}

/// As many records are selected as are not archived, up to the limit.
pub proof fn lemma_selected_len(records: Seq<RepoRecord>, limit: nat)
    ensures
        selected(records, limit).len() == (if limit < count_active(records) {
            limit
        } else {
            count_active(records)
        }),
{
    lemma_ordered(records);
}

/// No selected record is archived, and each is one of the records given.
pub proof fn lemma_selected_active(records: Seq<RepoRecord>, limit: nat)
    ensures
        forall|i: int|
            0 <= i < selected(records, limit).len() ==> !(#[trigger] selected(
                records,
                limit,
            )[i]).archived && records.contains(selected(records, limit)[i]),
{
    lemma_ordered(records);
}

/// Archived records do not count against the limit: the selection from the
/// records is the selection from those of them that are not archived.
pub proof fn lemma_selected_ignores_archived(records: Seq<RepoRecord>, limit: nat)
    ensures
        selected(records, limit) == selected(records.filter(is_active()), limit),
{
    lemma_ordered_ignores_archived(records);
}

/// Archived records do not change the order of the others.
proof fn lemma_ordered_ignores_archived(records: Seq<RepoRecord>)
    ensures
        ordered(records) == ordered(records.filter(is_active())),
    decreases records.len(),
{
    if records.len() == 0 {
        records.lemma_filter_len(is_active());
        assert(records.filter(is_active()) =~= records);
    } else {
        let first = records[0];
        let rest = records.drop_first();
        lemma_ordered_ignores_archived(rest);
        assert(records =~= seq![first] + rest);
        rest.lemma_filter_prepend(first, is_active());
        let kept = rest.filter(is_active());
        if first.archived {
            assert(records.filter(is_active()) =~= kept);
        } else {
            let all = seq![first] + kept;
            assert(records.filter(is_active()) =~= all);
            assert(all[0] == first);
            assert(all.drop_first() =~= kept);
        }
    }
}

/// Each selected record was pushed no earlier than every selected record
/// behind it, the next one in particular.
pub proof fn lemma_selected_newest_first(records: Seq<RepoRecord>, limit: nat)
    ensures
        newest_first(selected(records, limit)),
        forall|i: int|
            0 <= i && i + 1 < selected(records, limit).len() ==> (#[trigger] selected(
                records,
                limit,
            )[i + 1]).pushed_at.at_most(selected(records, limit)[i].pushed_at),
{
    lemma_ordered(records);
    let all = ordered(records);
    let out = selected(records, limit);
    assert forall|i: int, j: int| 0 <= i < j < out.len() implies (#[trigger] out[j])
        .pushed_at.at_most((#[trigger] out[i]).pushed_at) by {
        assert(out[i] == all[i] && out[j] == all[j]);
    }
}

/// Stability of the selection: the selected records pushed at one instant are
/// the first of the given records that are not archived and were pushed at
/// that instant, in the order in which they were given.
pub proof fn lemma_selected_stable(records: Seq<RepoRecord>, limit: nat, t: Timestamp)
    ensures
        selected(records, limit).filter(active_at(t)).is_prefix_of(
            records.filter(active_at(t)),
        ),
{
    let keep = active_at(t);
    let all = ordered(records);
    lemma_ordered_stable(records, t);
    if limit < all.len() {
        let head = all.take(limit as int);
        let tail = all.skip(limit as int);
        assert(all =~= head + tail);
        Seq::filter_distributes_over_add(head, tail, keep);
        assert(head.filter(keep) =~= (head.filter(keep) + tail.filter(keep)).subrange(
            0,
            head.filter(keep).len() as int,
        ));
    } else {
        assert(all.filter(keep) =~= all.filter(keep).subrange(0, all.filter(keep).len() as int));
    }
}

/// The records to report on: those of `records` that are not archived, most
/// recently pushed first and otherwise in the order in which they came, cut
/// to the first `limit`. Archived records do not count against the limit.
///
/// The statistics are taken over the selected records only: an organization
/// with more repositories than `limit` reports the sums of its `limit`
/// latest ones, not its totals.
pub fn select(records: Vec<RepoRecord>, limit: usize) -> (out: Vec<RepoRecord>)
    ensures
        out@ == selected(records@, limit as nat),
        out@.len() == (if limit < count_active(records@) {
            limit as nat
        } else {
            count_active(records@)
        }),
        forall|i: int|
            0 <= i < out@.len() ==> !(#[trigger] out@[i]).archived && records@.contains(out@[i]),
        newest_first(out@),
{
    proof {
        lemma_selected_len(records@, limit as nat);
        lemma_selected_active(records@, limit as nat);
        lemma_selected_newest_first(records@, limit as nat);
    }
    let ghost all = records@;
    let mut rest = records;
    let mut out: Vec<RepoRecord> = Vec::new();
    assert(all.skip(all.len() as int) =~= Seq::<RepoRecord>::empty());
    while rest.len() > 0
        invariant
            rest@.len() <= all.len(),
            rest@ == all.take(rest@.len() as int),
            out@ == ordered(all.skip(rest@.len() as int)),
        decreases rest@.len(),
    {
        let ghost before = all.skip(rest@.len() as int);
        let r = rest.pop().unwrap();
        let ghost now = all.skip(rest@.len() as int);
        proof {
            assert(now[0] == r);
            assert(now.drop_first() =~= before);
            assert(rest@ =~= all.take(rest@.len() as int));
        }
        if !r.archived {
            let mut p: usize = 0;
            while p < out.len() && !out[p].pushed_at.le(&r.pushed_at)
                invariant
                    p <= out.len(),
                    forall|j: int| 0 <= j < p ==> (#[trigger] out@[j]).pushed_at.after(r.pushed_at),
                decreases out.len() - p,
            {
                p += 1;
            }
            proof {
                lemma_place_at(out@, r, p as int);
            }
            out.insert(p, r);
        }
    }
    assert(all.skip(0) =~= all);
    out.truncate(limit);
    out
}

} // verus!
