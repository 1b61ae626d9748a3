//! In-memory document store adapter.
//!
//! The real document store is a remote collaborator that offers a field
//! query, a lookup by partition key, and an optimistic (version-checked)
//! single-record write, with no atomicity across records. This module is an
//! in-memory stub with exactly that interface, so the match engine can be
//! verified against the store contract and exercised without the remote
//! service. A fault countdown lets a caller make a write fail, standing in
//! for a store outage or timeout.

use vstd::prelude::*;

use crate::errors::AppError;
use crate::records::{UserDocument, UserView};

verus! {

/// Some record carries the id.
pub open spec fn has_doc(ds: Seq<UserView>, id: Seq<char>) -> bool {
    exists|i: int| 0 <= i < ds.len() && ds[i].id == id
}

/// The index of the record carrying `id`; meaningful only when `has_doc`
/// holds, and unique when record ids are unique.
pub open spec fn doc_index(ds: Seq<UserView>, id: Seq<char>) -> int {
    choose|i: int| 0 <= i < ds.len() && ds[i].id == id
}

/// No two records share an id.
pub open spec fn unique_doc_ids(ds: Seq<UserView>) -> bool {
    forall|i: int, j: int| 0 <= i < j < ds.len() ==> ds[i].id != ds[j].id
}

/// How many records carry the access token `t`.
pub open spec fn count_with_token(ds: Seq<UserView>, t: Seq<char>) -> nat
    decreases ds.len(),
{
    if ds.len() == 0 {
        0
    } else {
        count_with_token(ds.drop_last(), t) + if ds.last().access_token == t {
            1nat
        } else {
            0nat
        }
    }
}

/// How many records carry the email `e`.
pub open spec fn count_with_email(ds: Seq<UserView>, e: Seq<char>) -> nat
    decreases ds.len(),
{
    if ds.len() == 0 {
        0
    } else {
        count_with_email(ds.drop_last(), e) + if ds.last().email == e {
            1nat
        } else {
            0nat
        }
    }
}

proof fn lemma_count_token_step(ds: Seq<UserView>, t: Seq<char>, i: int)
    requires
        0 <= i < ds.len(),
    ensures
        count_with_token(ds.take(i + 1), t) == count_with_token(ds.take(i), t) + if ds[i].access_token
            == t {
            1nat
        } else {
            0nat
        },
{
    assert(ds.take(i + 1).drop_last() =~= ds.take(i));
    assert(ds.take(i + 1).last() == ds[i]);
}

proof fn lemma_count_token_take_le(ds: Seq<UserView>, t: Seq<char>, i: int)
    requires
        0 <= i <= ds.len(),
    ensures
        count_with_token(ds.take(i), t) <= count_with_token(ds, t),
    decreases ds.len() - i,
{
    if i == ds.len() {
        assert(ds.take(i) =~= ds);
    } else {
        lemma_count_token_step(ds, t, i);
        lemma_count_token_take_le(ds, t, i + 1);
    }
}

proof fn lemma_count_email_step(ds: Seq<UserView>, e: Seq<char>, i: int)
    requires
        0 <= i < ds.len(),
    ensures
        count_with_email(ds.take(i + 1), e) == count_with_email(ds.take(i), e) + if ds[i].email
            == e {
            1nat
        } else {
            0nat
        },
{
    assert(ds.take(i + 1).drop_last() =~= ds.take(i));
    assert(ds.take(i + 1).last() == ds[i]);
}

proof fn lemma_count_email_take_le(ds: Seq<UserView>, e: Seq<char>, i: int)
    requires
        0 <= i <= ds.len(),
    ensures
        count_with_email(ds.take(i), e) <= count_with_email(ds, e),
    decreases ds.len() - i,
{
    if i == ds.len() {
        assert(ds.take(i) =~= ds);
    } else {
        lemma_count_email_step(ds, e, i);
        lemma_count_email_take_le(ds, e, i + 1);
    }
}

/// A record version moves forward on every successful write; it saturates
/// instead of wrapping.
pub open spec fn bump(v: u64) -> u64 {
    if v == u64::MAX {
        u64::MAX
    } else {
        (v + 1) as u64
    }
}

/// One step of the fault countdown.
pub open spec fn dec_fault(f: Option<usize>) -> Option<usize> {
    match f {
        None => None,
        Some(k) => Some((k - 1) as usize),
    }
}

/// A successful upsert of `doc` over index `i`.
pub open spec fn put_wrote(
    d0: Seq<UserView>,
    v0: Seq<u64>,
    doc: UserView,
    i: int,
    r: Result<u64, AppError>,
    d1: Seq<UserView>,
    v1: Seq<u64>,
) -> bool {
    &&& r == Ok::<u64, AppError>(bump(v0[i]))
    &&& d1 == d0.update(i, doc)
    &&& v1 == v0.update(i, bump(v0[i]))
}

/// Everything `put` promises: the store is unchanged on failure; an upsert
/// replaces the record with the same id or appends a new one; a version
/// check that does not match the stored version fails with `Conflict`; an
/// exhausted fault countdown fails with `StoreUnavailable`.
pub open spec fn put_post(
    d0: Seq<UserView>,
    v0: Seq<u64>,
    f0: Option<usize>,
    doc: UserView,
    expected: Option<u64>,
    r: Result<u64, AppError>,
    d1: Seq<UserView>,
    v1: Seq<u64>,
    f1: Option<usize>,
) -> bool {
    if f0 == Some(0usize) {
        r == Err::<u64, AppError>(AppError::StoreUnavailable) && d1 == d0 && v1 == v0 && f1 == f0
    } else {
        f1 == dec_fault(f0) && if has_doc(d0, doc.id) {
            match expected {
                Some(v) => if v != v0[doc_index(d0, doc.id)] {
                    r == Err::<u64, AppError>(AppError::Conflict) && d1 == d0 && v1 == v0
                } else {
                    put_wrote(d0, v0, doc, doc_index(d0, doc.id), r, d1, v1)
                },
                None => put_wrote(d0, v0, doc, doc_index(d0, doc.id), r, d1, v1),
            }
        } else {
            match expected {
                Some(v) => r == Err::<u64, AppError>(AppError::Conflict) && d1 == d0 && v1 == v0,
                None => r == Ok::<u64, AppError>(1u64) && d1 == d0.push(doc) && v1 == v0.push(
                    1u64,
                ),
            }
        }
    }
}

/// In-memory store stub: records with their versions, plus a fault
/// countdown that makes writes fail once it reaches zero.
pub struct Store {
    entries: Vec<(UserDocument, u64)>,
    fault_countdown: Option<usize>,
}

impl Store {
    /// The stored records, in insertion order.
    pub closed spec fn docs(self) -> Seq<UserView> {
        self.entries@.map_values(|e: (UserDocument, u64)| e.0@)
    }

    /// The version of each stored record, parallel to `docs`.
    pub closed spec fn versions(self) -> Seq<u64> {
        self.entries@.map_values(|e: (UserDocument, u64)| e.1)
    }

    /// The write-fault countdown: `Some(k)` makes the `k`th next write fail.
    pub closed spec fn faults(self) -> Option<usize> {
        self.fault_countdown
    }

    #[verifier::type_invariant]
    spec fn inv(self) -> bool {
        &&& unique_doc_ids(self.docs())
        &&& forall|i: int| 0 <= i < self.docs().len() ==> (#[trigger] self.docs()[i]).wf()
    }

    pub fn new() -> (s: Store)
        ensures
            s.docs() == Seq::<UserView>::empty(),
            s.versions() == Seq::<u64>::empty(),
            s.faults() == None::<usize>,
    {
        let s = Store { entries: Vec::new(), fault_countdown: None };
        proof {
            assert(s.docs() =~= Seq::<UserView>::empty());
            assert(s.versions() =~= Seq::<u64>::empty());
        }
        s
    }

    /// Arm or clear the fault countdown. With `Some(k)`, the next `k` writes
    /// succeed and the one after them fails; the countdown then stays at
    /// zero until cleared.
    pub fn set_fault_countdown(&mut self, n: Option<usize>)
        ensures
            final(self).docs() == old(self).docs(),
            final(self).versions() == old(self).versions(),
            final(self).faults() == n,
    {
        proof {
            use_type_invariant(&*self);
        }
        self.fault_countdown = n;
    }

    fn index_of(&self, id: &String) -> (r: Option<usize>)
        ensures
            match r {
                Some(i) => has_doc(self.docs(), id@) && i as int == doc_index(self.docs(), id@)
                    && i < self.docs().len() && self.docs()[i as int].id == id@,
                None => !has_doc(self.docs(), id@),
            },
    {
        proof {
            use_type_invariant(&*self);
        }
        let n = self.entries.len();
        let mut i: usize = 0;
        while i < n
            invariant
                i <= n,
                n == self.entries@.len(),
                self.docs().len() == n,
                unique_doc_ids(self.docs()),
                forall|j: int| 0 <= j < i ==> self.docs()[j].id != id@,
            decreases n - i,
        {
            if self.entries[i].0.id == *id {
                proof {
                    assert(self.docs()[i as int].id == id@);
                    assert(has_doc(self.docs(), id@));
                    let k = doc_index(self.docs(), id@);
                    assert(0 <= k < self.docs().len() && self.docs()[k].id == id@);
                    if k < i as int {
                        assert(false);
                    }
                    if k > i as int {
                        assert(false);
                    }
                }
                return Some(i);
            }
            i = i + 1;
        }
        None
    }

    /// Direct lookup by partition key: the record with the given id and its
    /// current version.
    pub fn get_by_id(&self, id: &String) -> (r: Option<(UserDocument, u64)>)
        ensures
            unique_doc_ids(self.docs()),
            forall|i: int| 0 <= i < self.docs().len() ==> (#[trigger] self.docs()[i]).wf(),
            self.versions().len() == self.docs().len(),
            match r {
                Some(dv) => has_doc(self.docs(), id@) && dv.0@ == self.docs()[doc_index(
                    self.docs(),
                    id@,
                )] && dv.0@.id == id@ && dv.0@.wf() && dv.1 == self.versions()[doc_index(
                    self.docs(),
                    id@,
                )],
                None => !has_doc(self.docs(), id@),
            },
    {
        proof {
            use_type_invariant(&*self);
        }
        match self.index_of(id) {
            Some(i) => {
                let d = self.entries[i].0.clone();
                let v = self.entries[i].1;
                Some((d, v))
            },
            None => None,
        }
    }

    /// Field query: up to `max` records whose access token equals `token`,
    /// a page window wide enough to tell zero, one and several matches
    /// apart.
    pub fn find_by_token(&self, token: &String, max: usize) -> (r: Vec<UserDocument>)
        ensures
            r@.len() == if count_with_token(self.docs(), token@) <= max {
                count_with_token(self.docs(), token@)
            } else {
                max as nat
            },
            forall|k: int| #![trigger r@[k]]
                0 <= k < r@.len() ==> r@[k]@.access_token == token@ && r@[k]@.wf() && exists|x: int|
                    0 <= x < self.docs().len() && r@[k]@ == self.docs()[x],
    {
        proof {
            use_type_invariant(&*self);
        }
        let n = self.entries.len();
        let mut out: Vec<UserDocument> = Vec::new();
        let mut i: usize = 0;
        while i < n && out.len() < max
            invariant
                i <= n,
                n == self.entries@.len(),
                self.docs().len() == n,
                forall|x: int| 0 <= x < n ==> (#[trigger] self.docs()[x]).wf(),
                out@.len() <= max,
                out@.len() == count_with_token(self.docs().take(i as int), token@),
                forall|k: int| #![trigger out@[k]]
                    0 <= k < out@.len() ==> out@[k]@.access_token == token@ && out@[k]@.wf()
                        && exists|x: int| 0 <= x < self.docs().len() && out@[k]@ == self.docs()[x],
            decreases n - i,
        {
            if self.entries[i].0.access_token == *token {
                let d = self.entries[i].0.clone();
                proof {
                    assert(d@ == self.docs()[i as int]);
                }
                out.push(d);
            }
            proof {
                lemma_count_token_step(self.docs(), token@, i as int);
            }
            i = i + 1;
        }
        proof {
            if i == n {
                assert(self.docs().take(n as int) =~= self.docs());
            } else {
                lemma_count_token_take_le(self.docs(), token@, i as int);
            }
        }
        out
    }

    /// Field query: up to `max` records whose email equals `email`.
    pub fn find_by_email(&self, email: &String, max: usize) -> (r: Vec<UserDocument>)
        ensures
            r@.len() == if count_with_email(self.docs(), email@) <= max {
                count_with_email(self.docs(), email@)
            } else {
                max as nat
            },
            forall|k: int| #![trigger r@[k]]
                0 <= k < r@.len() ==> r@[k]@.email == email@ && r@[k]@.wf() && exists|x: int|
                    0 <= x < self.docs().len() && r@[k]@ == self.docs()[x],
    {
        proof {
            use_type_invariant(&*self);
        }
        let n = self.entries.len();
        let mut out: Vec<UserDocument> = Vec::new();
        let mut i: usize = 0;
        while i < n && out.len() < max
            invariant
                i <= n,
                n == self.entries@.len(),
                self.docs().len() == n,
                forall|x: int| 0 <= x < n ==> (#[trigger] self.docs()[x]).wf(),
                out@.len() <= max,
                out@.len() == count_with_email(self.docs().take(i as int), email@),
                forall|k: int| #![trigger out@[k]]
                    0 <= k < out@.len() ==> out@[k]@.email == email@ && out@[k]@.wf() && exists|
                        x: int,
                    | 0 <= x < self.docs().len() && out@[k]@ == self.docs()[x],
            decreases n - i,
        {
            if self.entries[i].0.email == *email {
                let d = self.entries[i].0.clone();
                proof {
                    assert(d@ == self.docs()[i as int]);
                }
                out.push(d);
            }
            proof {
                lemma_count_email_step(self.docs(), email@, i as int);
            }
            i = i + 1;
        }
        proof {
            if i == n {
                assert(self.docs().take(n as int) =~= self.docs());
            } else {
                lemma_count_email_take_le(self.docs(), email@, i as int);
            }
        }
        out
    }

    /// Optimistic single-record upsert, keyed by `doc.id`. With
    /// `expected == Some(v)` the write succeeds only while the stored
    /// version is still `v`; with `None` it writes unconditionally,
    /// creating the record if absent.
    pub fn put(&mut self, doc: UserDocument, expected: Option<u64>) -> (r: Result<u64, AppError>)
        requires
            doc@.wf(),
        ensures
            put_post(
                old(self).docs(),
                old(self).versions(),
                old(self).faults(),
                doc@,
                expected,
                r,
                final(self).docs(),
                final(self).versions(),
                final(self).faults(),
            ),
    {
        proof {
            use_type_invariant(&*self);
        }
        match self.fault_countdown {
            Some(k) => {
                if k == 0 {
                    return Err(AppError::StoreUnavailable);
                }
                self.fault_countdown = Some(k - 1);
            },
            None => {},
        }
        let idx = self.index_of(&doc.id);
        match idx {
            Some(i) => {
                let cur: u64 = self.entries[i].1;
                match expected {
                    Some(v) => {
                        if v != cur {
                            return Err(AppError::Conflict);
                        }
                    },
                    None => {},
                }
                let nv: u64 = if cur == u64::MAX {
                    u64::MAX
                } else {
                    cur + 1
                };
                let ghost d0 = self.docs();
                let ghost v0 = self.versions();
                let ghost dv = doc@;
                let mut entries: Vec<(UserDocument, u64)> = Vec::new();
                core::mem::swap(&mut entries, &mut self.entries);
                entries.set(i, (doc, nv));
                proof {
                    let nd = entries@.map_values(|e: (UserDocument, u64)| e.0@);
                    let nver = entries@.map_values(|e: (UserDocument, u64)| e.1);
                    assert(nd =~= d0.update(i as int, dv));
                    assert(nver =~= v0.update(i as int, nv));
                    assert(dv.id == d0[i as int].id);
                    assert forall|x: int, y: int| 0 <= x < y < nd.len() implies nd[x].id
                        != nd[y].id by {
                        assert(d0[x].id != d0[y].id);
                    }
                    assert forall|x: int| 0 <= x < nd.len() implies (#[trigger] nd[x]).wf() by {
                        assert(d0[x].wf());
                    }
                }
                core::mem::swap(&mut entries, &mut self.entries);
                Ok(nv)
            },
            None => {
                match expected {
                    Some(_) => Err(AppError::Conflict),
                    None => {
                        let ghost d0 = self.docs();
                        let ghost v0 = self.versions();
                        let ghost dv = doc@;
                        let mut entries: Vec<(UserDocument, u64)> = Vec::new();
                        core::mem::swap(&mut entries, &mut self.entries);
                        entries.push((doc, 1));
                        proof {
                            let nd = entries@.map_values(|e: (UserDocument, u64)| e.0@);
                            let nver = entries@.map_values(|e: (UserDocument, u64)| e.1);
                            assert(nd =~= d0.push(dv));
                            assert(nver =~= v0.push(1u64));
                            assert(!has_doc(d0, dv.id));
                            assert forall|x: int, y: int| 0 <= x < y < nd.len() implies nd[x].id
                                != nd[y].id by {
                                if y < d0.len() {
                                    assert(d0[x].id != d0[y].id);
                                }
                            }
                            assert forall|x: int| 0 <= x < nd.len() implies (
                            #[trigger] nd[x]).wf() by {
                                if x < d0.len() {
                                    assert(d0[x].wf());
                                }
                            }
                        }
                        core::mem::swap(&mut entries, &mut self.entries);
                        Ok(1)
                    },
                }
            },
        }
    }
}

} // verus!
