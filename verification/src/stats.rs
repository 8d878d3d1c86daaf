//! The statistics of one organization: sums of the counters of its selected
//! repositories, and the latest of their instants.

use crate::instant::Timestamp;
use crate::record::RepoRecord;
use vstd::prelude::*;

verus! {

/// The statistics as numbers without bound.
pub struct Totals {
    pub stars: nat,
    pub forks: nat,
    pub followers: nat,
    pub updated_at: Timestamp,
    pub pushed_at: Timestamp,
    pub open_issues_count: nat,
    pub size: nat,
}

impl Totals {
    /// The statistics of no repository: every sum is zero, and both instants
    /// are the earliest one, which any repository raises.
    pub open spec fn zero() -> Totals {
        Totals {
            stars: 0,
            forks: 0,
            followers: 0,
            updated_at: Timestamp::earliest(),
            pushed_at: Timestamp::earliest(),
            open_issues_count: 0,
            size: 0,
        }
    }

    /// The statistics after one more repository with these values.
    pub open spec fn plus(
        self,
        stars: nat,
        forks: nat,
        followers: nat,
        updated_at: Timestamp,
        pushed_at: Timestamp,
        open_issues_count: nat,
        size: nat,
    ) -> Totals {
        Totals {
            stars: self.stars + stars,
            forks: self.forks + forks,
            followers: self.followers + followers,
            updated_at: self.updated_at.latest(updated_at),
            pushed_at: self.pushed_at.latest(pushed_at),
            open_issues_count: self.open_issues_count + open_issues_count,
            size: self.size + size,
        }
    }

    /// The statistics after one more repository.
    pub open spec fn with(self, r: RepoRecord) -> Totals {
        self.plus(
            r.stars as nat,
            r.forks as nat,
            r.watchers as nat,
            r.updated_at,
            r.pushed_at,
            r.open_issues as nat,
            r.size as nat,
        )
    }
}

/// The stars of a record.
pub open spec fn stars_of() -> spec_fn(RepoRecord) -> nat {
    |r: RepoRecord| r.stars as nat
}

/// The forks of a record.
pub open spec fn forks_of() -> spec_fn(RepoRecord) -> nat {
    |r: RepoRecord| r.forks as nat
}

/// The watchers of a record, which the statistics call followers.
pub open spec fn watchers_of() -> spec_fn(RepoRecord) -> nat {
    |r: RepoRecord| r.watchers as nat
}

/// The open issues of a record.
pub open spec fn open_issues_of() -> spec_fn(RepoRecord) -> nat {
    |r: RepoRecord| r.open_issues as nat
}

/// The size of a record.
pub open spec fn size_of() -> spec_fn(RepoRecord) -> nat {
    |r: RepoRecord| r.size as nat
}

/// The instant at which a record was last updated.
pub open spec fn updated_of() -> spec_fn(RepoRecord) -> Timestamp {
    |r: RepoRecord| r.updated_at
}

/// The instant at which a record was last pushed to.
pub open spec fn pushed_of() -> spec_fn(RepoRecord) -> Timestamp {
    |r: RepoRecord| r.pushed_at
}

/// The sum of one counter over the records.
pub open spec fn sum_by(s: Seq<RepoRecord>, f: spec_fn(RepoRecord) -> nat) -> nat
    decreases s.len(),
{
    if s.len() == 0 {
        0
    } else {
        sum_by(s.drop_last(), f) + f(s.last())
    }
}

/// The latest of one instant over the records; the earliest instant where
/// there is no record.
pub open spec fn latest_by(s: Seq<RepoRecord>, f: spec_fn(RepoRecord) -> Timestamp) -> Timestamp
    decreases s.len(),
{
    if s.len() == 0 {
        Timestamp::earliest()
    } else {
        latest_by(s.drop_last(), f).latest(f(s.last()))
    }
}

/// The statistics of the records.
pub open spec fn totals(s: Seq<RepoRecord>) -> Totals {
    Totals {
        stars: sum_by(s, stars_of()),
        forks: sum_by(s, forks_of()),
        followers: sum_by(s, watchers_of()),
        updated_at: latest_by(s, updated_of()),
        pushed_at: latest_by(s, pushed_of()),
        open_issues_count: sum_by(s, open_issues_of()),
        size: sum_by(s, size_of()),
    }
}

/// The running statistics of one organization.
#[derive(Clone, Copy, Debug, PartialEq, Eq)]
pub struct SumStats {
    pub stars: u128,
    pub forks: u128,
    pub followers: u128,
    pub updated_at: Timestamp,
    pub pushed_at: Timestamp,
    pub open_issues_count: u128,
    pub size: u128,
}

impl View for SumStats {
    type V = Totals;

    open spec fn view(&self) -> Totals {
        Totals {
            stars: self.stars as nat,
            forks: self.forks as nat,
            followers: self.followers as nat,
            updated_at: self.updated_at,
            pushed_at: self.pushed_at,
            open_issues_count: self.open_issues_count as nat,
            size: self.size as nat,
        }
    }
}

impl SumStats {
    /// No sum of the statistics after these values would pass what the
    /// counters hold.
    pub open spec fn has_room(
        self,
        stars: u32,
        forks: u32,
        followers: u32,
        open_issues_count: u32,
        size: u32,
    ) -> bool {
        &&& self.stars + stars <= u128::MAX
        &&& self.forks + forks <= u128::MAX
        &&& self.followers + followers <= u128::MAX
        &&& self.open_issues_count + open_issues_count <= u128::MAX
        &&& self.size + size <= u128::MAX
    }

    /// Fresh statistics, of no repository.
    pub fn new() -> (r: SumStats)
        ensures
            r@ == Totals::zero(),
            r@ == totals(Seq::empty()),
    {
        SumStats {
            stars: 0,
            forks: 0,
            followers: 0,
            updated_at: Timestamp::min(),
            pushed_at: Timestamp::min(),
            open_issues_count: 0,
            size: 0,
        }
    }

    /// Takes one more repository into the statistics: adds its counters to
    /// the sums and raises each instant to the repository's where that is
    /// later.
    pub fn update(
        &mut self,
        stars: u32,
        forks: u32,
        followers: u32,
        updated_at: Timestamp,
        pushed_at: Timestamp,
        open_issues_count: u32,
        size: u32,
    )
        requires
            old(self).has_room(stars, forks, followers, open_issues_count, size),
        ensures
            final(self)@ == old(self)@.plus(
                stars as nat,
                forks as nat,
                followers as nat,
                updated_at,
                pushed_at,
                open_issues_count as nat,
                size as nat,
            ),
    {
        self.stars = self.stars + stars as u128;
        self.forks = self.forks + forks as u128;
        self.followers = self.followers + followers as u128;
        self.updated_at = self.updated_at.max(updated_at);
        self.pushed_at = self.pushed_at.max(pushed_at);
        self.open_issues_count = self.open_issues_count + open_issues_count as u128;
        self.size = self.size + size as u128;
    }

    /// The statistics of the records, each taken in once.
    pub fn summarize(records: &Vec<RepoRecord>) -> (r: SumStats)
        ensures
            r@ == totals(records@),
    {
        let mut stats = SumStats::new();
        let mut i: usize = 0;
        while i < records.len()
            invariant
                i <= records.len(),
                stats@ == totals(records@.take(i as int)),
                stats.stars <= i * u32::MAX,
                stats.forks <= i * u32::MAX,
                stats.followers <= i * u32::MAX,
                stats.open_issues_count <= i * u32::MAX,
                stats.size <= i * u32::MAX,
            decreases records.len() - i,
        {
            let r = &records[i];
            proof {
                assert(i * u32::MAX + u32::MAX <= u128::MAX) by (nonlinear_arith)
                    requires
                        i <= usize::MAX,
                ;
                assert((i + 1) * u32::MAX == i * u32::MAX + u32::MAX) by (nonlinear_arith);
                let now = records@.take(i + 1);
                assert(now.drop_last() =~= records@.take(i as int));
                assert(now.last() == *r);
            }
            stats.update(
                r.stars,
                r.forks,
                r.watchers,
                r.updated_at,
                r.pushed_at,
                r.open_issues,
                r.size,
            );
            i += 1;
        }
        assert(records@.take(i as int) =~= records@);
        stats
    }
}

/// Taking one more record in is one step of the statistics.
pub proof fn lemma_totals_push(s: Seq<RepoRecord>, r: RepoRecord)
    ensures
        totals(s.push(r)) == totals(s).with(r),
{
    assert(s.push(r).drop_last() =~= s);
}

/// A record in front adds its counter to the sum.
proof fn lemma_sum_prepend(s: Seq<RepoRecord>, r: RepoRecord, f: spec_fn(RepoRecord) -> nat)
    ensures
        sum_by(seq![r] + s, f) == f(r) + sum_by(s, f),
    decreases s.len(),
{
    let all = seq![r] + s;
    if s.len() == 0 {
        assert(all.drop_last() =~= s);
    } else {
        lemma_sum_prepend(s.drop_last(), r, f);
        assert(all.drop_last() =~= seq![r] + s.drop_last());
    }
}

/// A record in front raises the latest instant to its own where that is later.
proof fn lemma_latest_prepend(
    s: Seq<RepoRecord>,
    r: RepoRecord,
    f: spec_fn(RepoRecord) -> Timestamp,
)
    ensures
        latest_by(seq![r] + s, f) == f(r).latest(latest_by(s, f)),
    decreases s.len(),
{
    let all = seq![r] + s;
    if s.len() == 0 {
        assert(all.drop_last() =~= s);
    } else {
        lemma_latest_prepend(s.drop_last(), r, f);
        assert(all.drop_last() =~= seq![r] + s.drop_last());
    }
}

/// A sum is the same from the last record to the first.
proof fn lemma_sum_reverse(s: Seq<RepoRecord>, f: spec_fn(RepoRecord) -> nat)
    ensures
        sum_by(s.reverse(), f) == sum_by(s, f),
    decreases s.len(),
{
    if s.len() == 0 {
        assert(s.reverse() =~= s);
    } else {
        lemma_sum_reverse(s.drop_last(), f);
        lemma_sum_prepend(s.drop_last().reverse(), s.last(), f);
        assert(s.reverse() =~= seq![s.last()] + s.drop_last().reverse());
    }
}

/// The latest instant is the same from the last record to the first.
proof fn lemma_latest_reverse(s: Seq<RepoRecord>, f: spec_fn(RepoRecord) -> Timestamp)
    ensures
        latest_by(s.reverse(), f) == latest_by(s, f),
    decreases s.len(),
{
    if s.len() == 0 {
        assert(s.reverse() =~= s);
    } else {
        lemma_latest_reverse(s.drop_last(), f);
        lemma_latest_prepend(s.drop_last().reverse(), s.last(), f);
        assert(s.reverse() =~= seq![s.last()] + s.drop_last().reverse());
    }
}

/// The order of the records does not matter: taken in from the last to the
/// first they give the same statistics.
pub proof fn lemma_totals_reverse(s: Seq<RepoRecord>)
    ensures
        totals(s.reverse()) == totals(s),
{
    lemma_sum_reverse(s, stars_of());
    lemma_sum_reverse(s, forks_of());
    lemma_sum_reverse(s, watchers_of());
    lemma_sum_reverse(s, open_issues_of());
    lemma_sum_reverse(s, size_of());
    lemma_latest_reverse(s, updated_of());
    lemma_latest_reverse(s, pushed_of());
}

/// The latest instant is an upper bound of the instants of all records, and
/// it is the instant of one of them, or the earliest instant. Where there is
/// a record and the records' instants are well-formed, it is the instant of
/// one of them.
pub proof fn lemma_latest_is_maximum(s: Seq<RepoRecord>, f: spec_fn(RepoRecord) -> Timestamp)
    ensures
        forall|i: int| 0 <= i < s.len() ==> (#[trigger] f(s[i])).at_most(latest_by(s, f)),
        Timestamp::earliest().at_most(latest_by(s, f)),
        latest_by(s, f) == Timestamp::earliest() || exists|i: int|
            0 <= i < s.len() && latest_by(s, f) == #[trigger] f(s[i]),
        s.len() > 0 && (forall|i: int| 0 <= i < s.len() ==> (#[trigger] f(s[i])).wf())
            ==> exists|i: int| 0 <= i < s.len() && latest_by(s, f) == #[trigger] f(s[i]),
    decreases s.len(),
{
    if s.len() > 0 {
        let head = s.drop_last();
        let last = s.len() - 1;
        lemma_latest_is_maximum(head, f);
        assert forall|i: int| 0 <= i < s.len() implies (#[trigger] f(s[i])).at_most(
            latest_by(s, f),
        ) by {
            if i < last {
                assert(head[i] == s[i]);
                assert(f(head[i]).at_most(latest_by(head, f)));
            }
        }
        if latest_by(head, f).at_most(f(s[last])) {
            assert(latest_by(s, f) == f(s[last]));
        } else {
            assert(latest_by(s, f) == latest_by(head, f));
            if latest_by(head, f) != Timestamp::earliest() {
                let k = choose|k: int| 0 <= k < head.len() && latest_by(head, f) == #[trigger] f(
                    head[k],
                );
                assert(head[k] == s[k]);
                assert(latest_by(s, f) == f(s[k]));
            }
        }
        if forall|i: int| 0 <= i < s.len() ==> (#[trigger] f(s[i])).wf() {
            assert(f(s[last]).wf());
            assert(Timestamp::earliest().at_most(f(s[last])));
        }
    }
}

} // verus!
