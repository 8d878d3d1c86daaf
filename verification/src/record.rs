//! What is known of an organization and of each of its repositories.

use crate::instant::{representable, Timestamp};
use vstd::prelude::*;

verus! {

/// An organization, as asked for and as the hosting system names it.
#[derive(Clone, Debug, PartialEq, Eq)]
pub struct Organization {
    /// The name that the caller asked for.
    pub request_name: String,
    /// The name that the hosting system gives, or the requested one.
    pub display_name: String,
    /// The calendar year in which the organization was created.
    pub created_year: i32,
}

impl Organization {
    /// An organization whose display name is `canonical` where the hosting
    /// system gave one, and the requested name where it gave none.
    pub fn new(request_name: String, canonical: Option<String>, created_year: i32) -> (org:
        Organization)
        ensures
            org.request_name == request_name,
            org.created_year == created_year,
            org.display_name == (match canonical {
                Some(name) => name,
                None => request_name,
            }),
    {
        let display_name = match canonical {
            Some(name) => name,
            None => request_name.clone(),
        };
        Organization { request_name, display_name, created_year }
    }
}

/// One repository.
#[derive(Clone, Debug, PartialEq, Eq)]
pub struct RepoRecord {
    pub name: String,
    pub stars: u32,
    pub forks: u32,
    pub watchers: u32,
    /// The display name of the license, where the repository has one.
    pub license_name: Option<String>,
    pub updated_at: Timestamp,
    pub pushed_at: Timestamp,
    pub open_issues: u32,
    pub size: u32,
    /// The calendar year in which the repository was created.
    pub created_year: i32,
    /// Retired and read-only: left out of every report.
    pub archived: bool,
}

impl RepoRecord {
    /// Both instants of the record can be printed.
    pub open spec fn wf(self) -> bool {
        self.updated_at.wf() && self.pushed_at.wf()
    }
}

/// Every record of the sequence is well-formed.
pub open spec fn all_wf(records: Seq<RepoRecord>) -> bool {
    forall|i: int| 0 <= i < records.len() ==> (#[trigger] records[i]).wf()
}

/// A field of a repository that the hosting system must give.
#[derive(Clone, Copy, Debug, PartialEq, Eq)]
pub enum Field {
    PushedAt,
    Archived,
    Stars,
    Forks,
    Watchers,
    UpdatedAt,
    OpenIssues,
    Size,
    CreatedYear,
}

/// What is wrong with a repository as the hosting system gave it.
#[derive(Clone, Copy, Debug, PartialEq, Eq)]
pub enum FetchViolation {
    /// The field is not there.
    Missing(Field),
    /// The field is an instant that cannot be printed.
    OutOfRange(Field),
}

/// One repository as the hosting system gave it: any field but the name may
/// be missing. An instant is its seconds and its nanoseconds.
#[derive(Clone, Debug, PartialEq, Eq)]
pub struct RawRecord {
    pub name: String,
    pub stars: Option<u32>,
    pub forks: Option<u32>,
    pub watchers: Option<u32>,
    pub license_name: Option<String>,
    pub updated_at: Option<(i64, u32)>,
    pub pushed_at: Option<(i64, u32)>,
    pub open_issues: Option<u32>,
    pub size: Option<u32>,
    pub created_year: Option<i32>,
    pub archived: Option<bool>,
}

/// What is wrong with an instant as it was given, if anything.
pub open spec fn instant_violation(given: Option<(i64, u32)>, field: Field) -> Option<
    FetchViolation,
> {
    match given {
        None => Some(FetchViolation::Missing(field)),
        Some(pair) => if representable(pair.0 as int, pair.1 as int) {
            None
        } else {
            Some(FetchViolation::OutOfRange(field))
        },
    }
}

/// The instant of a pair of seconds and nanoseconds; the earliest instant
/// where none is given.
pub open spec fn instant_given(given: Option<(i64, u32)>) -> Timestamp {
    match given {
        Some(pair) => Timestamp { secs: pair.0, nanos: pair.1 },
        None => Timestamp::earliest(),
    }
}

impl RawRecord {
    /// The first thing that is wrong with the record, if anything: the
    /// fields are looked at in the order of `Field`.
    pub open spec fn violation(self) -> Option<FetchViolation> {
        if instant_violation(self.pushed_at, Field::PushedAt) is Some {
            instant_violation(self.pushed_at, Field::PushedAt)
        } else if self.archived is None {
            Some(FetchViolation::Missing(Field::Archived))
        } else if self.stars is None {
            Some(FetchViolation::Missing(Field::Stars))
        } else if self.forks is None {
            Some(FetchViolation::Missing(Field::Forks))
        } else if self.watchers is None {
            Some(FetchViolation::Missing(Field::Watchers))
        } else if instant_violation(self.updated_at, Field::UpdatedAt) is Some {
            instant_violation(self.updated_at, Field::UpdatedAt)
        } else if self.open_issues is None {
            Some(FetchViolation::Missing(Field::OpenIssues))
        } else if self.size is None {
            Some(FetchViolation::Missing(Field::Size))
        } else if self.created_year is None {
            Some(FetchViolation::Missing(Field::CreatedYear))
        } else {
            None
        }
    }

    /// The record with every field in its place; meant for a record with
    /// no violation.
    pub open spec fn completed(self) -> RepoRecord {
        RepoRecord {
            name: self.name,
            stars: self.stars->0,
            forks: self.forks->0,
            watchers: self.watchers->0,
            license_name: self.license_name,
            updated_at: instant_given(self.updated_at),
            pushed_at: instant_given(self.pushed_at),
            open_issues: self.open_issues->0,
            size: self.size->0,
            created_year: self.created_year->0,
            archived: self.archived->0,
        }
    }

    /// The repository's record, where every field is there and both instants
    /// can be printed; else the first violation. No missing field is filled
    /// in with a value.
    pub fn normalize(self) -> (r: Result<RepoRecord, FetchViolation>)
        ensures
            match r {
                Ok(record) => self.violation() is None && record == self.completed()
                    && record.wf(),
                Err(e) => self.violation() == Some(e),
            },
    {
        let pushed_at = match instant_of(self.pushed_at, Field::PushedAt) {
            Ok(t) => t,
            Err(e) => { return Err(e); },
        };
        let archived = match self.archived {
            Some(v) => v,
            None => { return Err(FetchViolation::Missing(Field::Archived)); },
        };
        let stars = match self.stars {
            Some(v) => v,
            None => { return Err(FetchViolation::Missing(Field::Stars)); },
        };
        let forks = match self.forks {
            Some(v) => v,
            None => { return Err(FetchViolation::Missing(Field::Forks)); },
        };
        let watchers = match self.watchers {
            Some(v) => v,
            None => { return Err(FetchViolation::Missing(Field::Watchers)); },
        };
        let updated_at = match instant_of(self.updated_at, Field::UpdatedAt) {
            Ok(t) => t,
            Err(e) => { return Err(e); },
        };
        let open_issues = match self.open_issues {
            Some(v) => v,
            None => { return Err(FetchViolation::Missing(Field::OpenIssues)); },
        };
        let size = match self.size {
            Some(v) => v,
            None => { return Err(FetchViolation::Missing(Field::Size)); },
        };
        let created_year = match self.created_year {
            Some(v) => v,
            None => { return Err(FetchViolation::Missing(Field::CreatedYear)); },
        };
        Ok(
            RepoRecord {
                name: self.name,
                stars,
                forks,
                watchers,
                license_name: self.license_name,
                updated_at,
                pushed_at,
                open_issues,
                size,
                created_year,
                archived,
            },
        )
    }
}

/// The instant that was given, where one was given and it can be printed.
fn instant_of(given: Option<(i64, u32)>, field: Field) -> (r: Result<Timestamp, FetchViolation>)
    ensures
        match r {
            Ok(t) => instant_violation(given, field) is None && t == instant_given(given)
                && t.wf(),
            Err(e) => instant_violation(given, field) == Some(e),
        },
{
    match given {
        None => Err(FetchViolation::Missing(field)),
        Some(pair) => match Timestamp::new(pair.0, pair.1) {
            Some(t) => Ok(t),
            None => Err(FetchViolation::OutOfRange(field)),
        },
    }
}

/// The records of the repositories, in their order, where none has a
/// violation; else the place of the first that has one, and its violation.
pub fn normalize_all(raws: Vec<RawRecord>) -> (r: Result<Vec<RepoRecord>, (usize, FetchViolation)>)
    ensures
        match r {
            Ok(records) => {
                &&& records@.len() == raws@.len()
                &&& forall|i: int|
                    0 <= i < raws@.len() ==> (#[trigger] raws@[i]).violation() is None
                        && records@[i] == raws@[i].completed()
                &&& all_wf(records@)
            },
            Err(at) => {
                &&& at.0 < raws@.len()
                &&& raws@[at.0 as int].violation() == Some(at.1)
                &&& forall|i: int| 0 <= i < at.0 ==> (#[trigger] raws@[i]).violation() is None
            },
        },
{
    let ghost given = raws@;
    let mut rest = raws;
    let mut back: Vec<RepoRecord> = Vec::new();
    let mut bad: Option<(usize, FetchViolation)> = None;
    // From the last to the first, so that the first violation is the one kept.
    while rest.len() > 0
        invariant
            rest@.len() <= given.len(),
            rest@ == given.take(rest@.len() as int),
            match bad {
                Some(at) => {
                    &&& rest@.len() <= at.0 < given.len()
                    &&& given[at.0 as int].violation() == Some(at.1)
                    &&& forall|i: int|
                        rest@.len() <= i < at.0 ==> (#[trigger] given[i]).violation() is None
                },
                None => {
                    &&& back@.len() == given.len() - rest@.len()
                    &&& forall|i: int|
                        rest@.len() <= i < given.len() ==> (#[trigger] given[i]).violation() is None
                            && back@[given.len() - 1 - i] == given[i].completed()
                            && back@[given.len() - 1 - i].wf()
                },
            },
        decreases rest@.len(),
    {
        let raw = rest.pop().unwrap();
        let at = rest.len();
        assert(rest@ =~= given.take(at as int));
        assert(raw == given[at as int]);
        match raw.normalize() {
            Ok(record) => {
                if bad.is_none() {
                    back.push(record);
                }
            },
            Err(e) => {
                bad = Some((at, e));
            },
        }
    }
    match bad {
        Some(at) => Err(at),
        None => {
            let mut records: Vec<RepoRecord> = Vec::new();
            while back.len() > 0
                invariant
                    back@.len() + records@.len() == given.len(),
                    forall|i: int|
                        0 <= i < given.len() ==> (#[trigger] given[i]).violation() is None,
                    forall|i: int|
                        records@.len() <= i < given.len() ==> back@[given.len() - 1 - i]
                            == (#[trigger] given[i]).completed() && back@[given.len() - 1 - i].wf(),
                    forall|i: int|
                        0 <= i < records@.len() ==> records@[i] == (#[trigger] given[i]).completed()
                            && records@[i].wf(),
                decreases back@.len(),
            {
                let ghost at = records@.len() as int;
                assert(back@[given.len() - 1 - at] == given[at].completed());
                let record = back.pop().unwrap();
                records.push(record);
            }
            proof {
                assert forall|i: int| 0 <= i < records@.len() implies (#[trigger] records@[i]).wf() by {
                    assert(records@[i] == given[i].completed());
                }
            }
            Ok(records)
        },
    }
}

} // verus!
