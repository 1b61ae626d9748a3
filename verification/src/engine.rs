//! The match state engine: the two-party relationship state machine.
//!
//! Each operation acts on an ordered pair of records (the actor's and the
//! counterpart's). `Propose` creates the pair's entries, `Accept` and
//! `Reject` move both to a terminal status. Because the two records are
//! written one after the other with no cross-record atomicity, every
//! operation also accepts the halfway states a failed second write leaves
//! behind: retrying the same operation completes the other side as a no-op
//! on the side already written.

use vstd::prelude::*;

use crate::errors::AppError;
use crate::records::{
    entry_index, entry_status, find_entry, has_entry, lemma_entry_index_unique, matches_view,
    Match, MatchStatus, MatchView, UserDocument, UserView,
};
use crate::store::{bump, dec_fault, doc_index, has_doc, Store};

verus! {

/// An operation on the relationship between the actor and one counterpart.
pub enum MatchOp {
    /// Open the relationship. The caller supplies the counterpart's display
    /// data to snapshot into the actor's new entry; the actor's own display
    /// data is snapshotted into the counterpart's new entry.
    Propose { target_name: String, target_description: String },
    Accept,
    Reject,
}

/// Mathematical view of a `MatchOp`.
pub ghost enum MatchOpView {
    Propose { target_name: Seq<char>, target_description: Seq<char> },
    Accept,
    Reject,
}

impl View for MatchOp {
    type V = MatchOpView;

    open spec fn view(&self) -> MatchOpView {
        match self {
            MatchOp::Propose { target_name, target_description } => MatchOpView::Propose {
                target_name: target_name@,
                target_description: target_description@,
            },
            MatchOp::Accept => MatchOpView::Accept,
            MatchOp::Reject => MatchOpView::Reject,
        }
    }
}

/// No further transition is permitted out of a terminal status.
pub open spec fn is_terminal(s: MatchStatus) -> bool {
    s == MatchStatus::Accepted || s == MatchStatus::Denied
}

/// The statuses an undecided pair carries, proposer side first.
pub open spec fn complementary(sa: MatchStatus, sp: MatchStatus) -> bool {
    ||| (sa == MatchStatus::Pending && sp == MatchStatus::AwaitingUserAction)
    ||| (sa == MatchStatus::AwaitingUserAction && sp == MatchStatus::Pending)
}

/// `u` with one more match entry.
pub open spec fn with_new_entry(u: UserView, m: MatchView) -> UserView {
    UserView { matches: u.matches.push(m), ..u }
}

/// `u` with the status of its entry for `id` replaced by `s`.
pub open spec fn with_entry_status(u: UserView, id: Seq<char>, s: MatchStatus) -> UserView {
    UserView {
        matches: u.matches.update(
            entry_index(u.matches, id),
            MatchView { match_status: s, ..u.matches[entry_index(u.matches, id)] },
        ),
        ..u
    }
}

/// The entry a successful propose adds on the proposer's side: the
/// counterpart's id and the caller-supplied snapshot of the counterpart's
/// display data.
pub open spec fn proposer_entry(p: UserView, tn: Seq<char>, td: Seq<char>) -> MatchView {
    MatchView { id: p.id, name: tn, description: td, match_status: MatchStatus::Pending }
}

/// The entry a successful propose adds on the counterpart's side: the
/// proposer's id and a snapshot of the proposer's current display data.
pub open spec fn receiver_entry(a: UserView) -> MatchView {
    MatchView {
        id: a.id,
        name: a.name,
        description: match a.description {
            Some(d) => d,
            None => Seq::empty(),
        },
        match_status: MatchStatus::AwaitingUserAction,
    }
}

/// Propose transition. Fresh on both sides it creates the two entries;
/// retried after a partial write (actor side `Pending`, counterpart side
/// absent) it completes the counterpart's side; anything else is a
/// duplicate.
pub open spec fn propose_step(a: UserView, p: UserView, tn: Seq<char>, td: Seq<char>) -> Result<
    (UserView, UserView),
    AppError,
> {
    if !has_entry(a.matches, p.id) && !has_entry(p.matches, a.id) {
        Ok((with_new_entry(a, proposer_entry(p, tn, td)), with_new_entry(p, receiver_entry(a))))
    } else if has_entry(a.matches, p.id) && entry_status(a.matches, p.id) == MatchStatus::Pending
        && !has_entry(p.matches, a.id) {
        Ok((a, with_new_entry(p, receiver_entry(a))))
    } else {
        Err(AppError::DuplicateMatch)
    }
}

/// Accept/Reject transition towards the terminal status `target`. Both
/// entries must exist; an undecided (complementary) pair moves to `target`
/// on both sides; a pair whose actor side already carries `target` is
/// completed (counterpart still undecided) or accepted as an idempotent
/// no-op (counterpart already at `target`); anything else is refused.
pub open spec fn decide_step(a: UserView, p: UserView, target: MatchStatus) -> Result<
    (UserView, UserView),
    AppError,
> {
    if !(has_entry(a.matches, p.id) && has_entry(p.matches, a.id)) {
        Err(AppError::MatchNotFound)
    } else {
        let sa = entry_status(a.matches, p.id);
        let sp = entry_status(p.matches, a.id);
        if complementary(sa, sp) {
            Ok((with_entry_status(a, p.id, target), with_entry_status(p, a.id, target)))
        } else if sa == target && !is_terminal(sp) {
            Ok((a, with_entry_status(p, a.id, target)))
        } else if sa == target && sp == target {
            Ok((a, p))
        } else {
            Err(AppError::MatchNotFound)
        }
    }
}

/// The full state machine, one operation on the pair `(a, p)`.
pub open spec fn step(op: MatchOpView, a: UserView, p: UserView) -> Result<
    (UserView, UserView),
    AppError,
> {
    match op {
        MatchOpView::Propose { target_name, target_description } => propose_step(
            a,
            p,
            target_name,
            target_description,
        ),
        MatchOpView::Accept => decide_step(a, p, MatchStatus::Accepted),
        MatchOpView::Reject => decide_step(a, p, MatchStatus::Denied),
    }
}

/// Consequences of replacing one entry's status: the record stays
/// well-formed, the entry keeps its place, and every other entry is
/// untouched.
proof fn lemma_with_entry_status_facts(u: UserView, id: Seq<char>, s: MatchStatus)
    requires
        u.wf(),
        has_entry(u.matches, id),
    ensures
        ({
            let r = with_entry_status(u, id, s);
            &&& r.wf()
            &&& r.id == u.id
            &&& r.name == u.name
            &&& r.description == u.description
            &&& r.matches.len() == u.matches.len()
            &&& has_entry(r.matches, id)
            &&& entry_status(r.matches, id) == s
            &&& forall|x: int| 0 <= x < u.matches.len() ==> r.matches[x].id == u.matches[x].id
            &&& forall|x: int|
                0 <= x < u.matches.len() && u.matches[x].id != id ==> r.matches[x] == u.matches[x]
        }),
{
    let i = entry_index(u.matches, id);
    assert(0 <= i < u.matches.len() && u.matches[i].id == id);
    let r = with_entry_status(u, id, s);
    assert forall|x: int, y: int| 0 <= x < y < r.matches.len() implies r.matches[x].id
        != r.matches[y].id by {
        assert(u.matches[x].id != u.matches[y].id);
    }
    lemma_entry_index_unique(r.matches, id, i);
}

/// Consequences of appending an entry for a counterpart not yet present.
proof fn lemma_with_new_entry_facts(u: UserView, m: MatchView)
    requires
        u.wf(),
        !has_entry(u.matches, m.id),
    ensures
        ({
            let r = with_new_entry(u, m);
            &&& r.wf()
            &&& r.id == u.id
            &&& r.name == u.name
            &&& r.description == u.description
            &&& r.matches.len() == u.matches.len() + 1
            &&& has_entry(r.matches, m.id)
            &&& entry_status(r.matches, m.id) == m.match_status
            &&& forall|x: int| 0 <= x < u.matches.len() ==> r.matches[x] == u.matches[x]
        }),
{
    let r = with_new_entry(u, m);
    assert forall|x: int, y: int| 0 <= x < y < r.matches.len() implies r.matches[x].id
        != r.matches[y].id by {
        if y < u.matches.len() {
            assert(u.matches[x].id != u.matches[y].id);
        } else {
            assert(u.matches[x].id != m.id);
        }
    }
    lemma_entry_index_unique(r.matches, m.id, u.matches.len() as int);
}

/// A successful step keeps both records well-formed and does not touch
/// their identity or profile fields.
pub proof fn lemma_step_wf(op: MatchOpView, a: UserView, p: UserView, a2: UserView, p2: UserView)
    requires
        a.wf(),
        p.wf(),
        a.id != p.id,
        step(op, a, p) == Ok::<(UserView, UserView), AppError>((a2, p2)),
    ensures
        a2.wf(),
        p2.wf(),
        a2.id == a.id,
        p2.id == p.id,
{
    match op {
        MatchOpView::Propose { target_name: tn, target_description: td } => {
            if !has_entry(a.matches, p.id) && !has_entry(p.matches, a.id) {
                lemma_with_new_entry_facts(a, proposer_entry(p, tn, td));
                lemma_with_new_entry_facts(p, receiver_entry(a));
            } else {
                lemma_with_new_entry_facts(p, receiver_entry(a));
            }
        },
        MatchOpView::Accept => {
            lemma_decide_wf(a, p, MatchStatus::Accepted, a2, p2);
        },
        MatchOpView::Reject => {
            lemma_decide_wf(a, p, MatchStatus::Denied, a2, p2);
        },
    }
}

proof fn lemma_decide_wf(a: UserView, p: UserView, t: MatchStatus, a2: UserView, p2: UserView)
    requires
        a.wf(),
        p.wf(),
        a.id != p.id,
        decide_step(a, p, t) == Ok::<(UserView, UserView), AppError>((a2, p2)),
    ensures
        a2.wf(),
        p2.wf(),
        a2.id == a.id,
        p2.id == p.id,
{
    let sa = entry_status(a.matches, p.id);
    let sp = entry_status(p.matches, a.id);
    if complementary(sa, sp) {
        lemma_with_entry_status_facts(a, p.id, t);
        lemma_with_entry_status_facts(p, a.id, t);
    } else if sa == t && !is_terminal(sp) {
        lemma_with_entry_status_facts(p, a.id, t);
    }
}

/// Law: after a successful propose, the proposer's entry for the
/// counterpart is `Pending` and the counterpart's entry for the proposer is
/// `AwaitingUserAction`; the counterpart's new entry snapshots the
/// proposer's current display data.
pub proof fn lemma_propose_statuses(
    a: UserView,
    p: UserView,
    tn: Seq<char>,
    td: Seq<char>,
    a2: UserView,
    p2: UserView,
)
    requires
        a.wf(),
        p.wf(),
        a.id != p.id,
        step(
            MatchOpView::Propose { target_name: tn, target_description: td },
            a,
            p,
        ) == Ok::<(UserView, UserView), AppError>((a2, p2)),
    ensures
        has_entry(a2.matches, p.id),
        entry_status(a2.matches, p.id) == MatchStatus::Pending,
        has_entry(p2.matches, a.id),
        entry_status(p2.matches, a.id) == MatchStatus::AwaitingUserAction,
        p2.matches[entry_index(p2.matches, a.id)] == receiver_entry(a),
{
    if !has_entry(a.matches, p.id) && !has_entry(p.matches, a.id) {
        lemma_with_new_entry_facts(a, proposer_entry(p, tn, td));
        lemma_with_new_entry_facts(p, receiver_entry(a));
        lemma_entry_index_unique(p2.matches, a.id, p.matches.len() as int);
    } else {
        lemma_with_new_entry_facts(p, receiver_entry(a));
        lemma_entry_index_unique(p2.matches, a.id, p.matches.len() as int);
    }
}

/// Law: once a propose has fully succeeded, proposing again in either
/// direction fails with `DuplicateMatch`, whatever display data the second
/// propose carries.
pub proof fn lemma_propose_duplicate(
    a: UserView,
    p: UserView,
    tn: Seq<char>,
    td: Seq<char>,
    a2: UserView,
    p2: UserView,
    tn2: Seq<char>,
    td2: Seq<char>,
)
    requires
        a.wf(),
        p.wf(),
        a.id != p.id,
        step(
            MatchOpView::Propose { target_name: tn, target_description: td },
            a,
            p,
        ) == Ok::<(UserView, UserView), AppError>((a2, p2)),
    ensures
        step(MatchOpView::Propose { target_name: tn2, target_description: td2 }, a2, p2) == Err::<
            (UserView, UserView),
            AppError,
        >(AppError::DuplicateMatch),
        step(MatchOpView::Propose { target_name: tn2, target_description: td2 }, p2, a2) == Err::<
            (UserView, UserView),
            AppError,
        >(AppError::DuplicateMatch),
{
    lemma_step_wf(
        MatchOpView::Propose { target_name: tn, target_description: td },
        a,
        p,
        a2,
        p2,
    );
    lemma_propose_statuses(a, p, tn, td, a2, p2);
}

/// Law: accepting a proposed pair decides it — both entries become
/// `Accepted`. Afterwards a `Reject` from either side fails with
/// `MatchNotFound` (the entries are terminal), while repeating `Accept`
/// from either side is accepted as an idempotent no-op, as the retry
/// contract for partial writes requires.
pub proof fn lemma_accept_decides(
    a: UserView,
    p: UserView,
    tn: Seq<char>,
    td: Seq<char>,
    a2: UserView,
    p2: UserView,
    b3: UserView,
    a3: UserView,
)
    requires
        a.wf(),
        p.wf(),
        a.id != p.id,
        step(
            MatchOpView::Propose { target_name: tn, target_description: td },
            a,
            p,
        ) == Ok::<(UserView, UserView), AppError>((a2, p2)),
        step(MatchOpView::Accept, p2, a2) == Ok::<(UserView, UserView), AppError>((b3, a3)),
    ensures
        entry_status(b3.matches, a.id) == MatchStatus::Accepted,
        entry_status(a3.matches, p.id) == MatchStatus::Accepted,
        step(MatchOpView::Reject, b3, a3) == Err::<(UserView, UserView), AppError>(
            AppError::MatchNotFound,
        ),
        step(MatchOpView::Reject, a3, b3) == Err::<(UserView, UserView), AppError>(
            AppError::MatchNotFound,
        ),
        step(MatchOpView::Accept, b3, a3) == Ok::<(UserView, UserView), AppError>((b3, a3)),
        step(MatchOpView::Accept, a3, b3) == Ok::<(UserView, UserView), AppError>((a3, b3)),
{
    lemma_propose_statuses(a, p, tn, td, a2, p2);
    lemma_step_wf(MatchOpView::Propose { target_name: tn, target_description: td }, a, p, a2, p2);
    lemma_with_entry_status_facts(p2, a.id, MatchStatus::Accepted);
    lemma_with_entry_status_facts(a2, p.id, MatchStatus::Accepted);
    lemma_step_wf(MatchOpView::Accept, p2, a2, b3, a3);
}

/// Law: rejecting a proposed pair denies it — both entries become `Denied`
/// — and retrying the same `Reject` after full success is an error-free
/// no-op.
pub proof fn lemma_reject_idempotent(
    a: UserView,
    p: UserView,
    tn: Seq<char>,
    td: Seq<char>,
    a2: UserView,
    p2: UserView,
    b3: UserView,
    a3: UserView,
)
    requires
        a.wf(),
        p.wf(),
        a.id != p.id,
        step(
            MatchOpView::Propose { target_name: tn, target_description: td },
            a,
            p,
        ) == Ok::<(UserView, UserView), AppError>((a2, p2)),
        step(MatchOpView::Reject, p2, a2) == Ok::<(UserView, UserView), AppError>((b3, a3)),
    ensures
        entry_status(b3.matches, a.id) == MatchStatus::Denied,
        entry_status(a3.matches, p.id) == MatchStatus::Denied,
        step(MatchOpView::Reject, b3, a3) == Ok::<(UserView, UserView), AppError>((b3, a3)),
{
    lemma_propose_statuses(a, p, tn, td, a2, p2);
    lemma_step_wf(MatchOpView::Propose { target_name: tn, target_description: td }, a, p, a2, p2);
    lemma_with_entry_status_facts(p2, a.id, MatchStatus::Denied);
    lemma_with_entry_status_facts(a2, p.id, MatchStatus::Denied);
    lemma_step_wf(MatchOpView::Reject, p2, a2, b3, a3);
}

/// Law: retrying an operation whose first write succeeded and whose second
/// write was lost completes the pair to the same state the uninterrupted
/// operation would have reached — the actor's already-written side is a
/// no-op.
pub proof fn lemma_retry_after_partial(
    op: MatchOpView,
    a: UserView,
    p: UserView,
    a2: UserView,
    p2: UserView,
)
    requires
        a.wf(),
        p.wf(),
        a.id != p.id,
        step(op, a, p) == Ok::<(UserView, UserView), AppError>((a2, p2)),
    ensures
        step(op, a2, p) == Ok::<(UserView, UserView), AppError>((a2, p2)),
{
    lemma_step_wf(op, a, p, a2, p2);
    match op {
        MatchOpView::Propose { target_name: tn, target_description: td } => {
            if !has_entry(a.matches, p.id) && !has_entry(p.matches, a.id) {
                lemma_with_new_entry_facts(a, proposer_entry(p, tn, td));
                lemma_with_new_entry_facts(p, receiver_entry(a));
                assert(receiver_entry(a2) == receiver_entry(a));
            } else {
                lemma_with_new_entry_facts(p, receiver_entry(a));
            }
        },
        MatchOpView::Accept => {
            lemma_retry_decide_partial(a, p, MatchStatus::Accepted, a2, p2);
        },
        MatchOpView::Reject => {
            lemma_retry_decide_partial(a, p, MatchStatus::Denied, a2, p2);
        },
    }
}

proof fn lemma_retry_decide_partial(
    a: UserView,
    p: UserView,
    t: MatchStatus,
    a2: UserView,
    p2: UserView,
)
    requires
        a.wf(),
        p.wf(),
        a.id != p.id,
        is_terminal(t),
        decide_step(a, p, t) == Ok::<(UserView, UserView), AppError>((a2, p2)),
    ensures
        decide_step(a2, p, t) == Ok::<(UserView, UserView), AppError>((a2, p2)),
{
    let sa = entry_status(a.matches, p.id);
    let sp = entry_status(p.matches, a.id);
    if complementary(sa, sp) {
        lemma_with_entry_status_facts(a, p.id, t);
        lemma_with_entry_status_facts(p, a.id, t);
    } else if sa == t && !is_terminal(sp) {
        lemma_with_entry_status_facts(p, a.id, t);
    }
}

/// Law: retrying `Accept` or `Reject` after the whole operation succeeded
/// is an error-free no-op on both sides.
pub proof fn lemma_retry_after_success(
    op: MatchOpView,
    a: UserView,
    p: UserView,
    a2: UserView,
    p2: UserView,
)
    requires
        a.wf(),
        p.wf(),
        a.id != p.id,
        op is Accept || op is Reject,
        step(op, a, p) == Ok::<(UserView, UserView), AppError>((a2, p2)),
    ensures
        step(op, a2, p2) == Ok::<(UserView, UserView), AppError>((a2, p2)),
{
    lemma_step_wf(op, a, p, a2, p2);
    let t = if op is Accept {
        MatchStatus::Accepted
    } else {
        MatchStatus::Denied
    };
    let sa = entry_status(a.matches, p.id);
    let sp = entry_status(p.matches, a.id);
    if complementary(sa, sp) {
        lemma_with_entry_status_facts(a, p.id, t);
        lemma_with_entry_status_facts(p, a.id, t);
    } else if sa == t && !is_terminal(sp) {
        lemma_with_entry_status_facts(p, a.id, t);
    }
}

/// The cross-record invariant between two settled records: either neither
/// side has an entry for the other, or both do and the two statuses are
/// complementary while undecided or carry the same terminal value once
/// decided.
pub open spec fn pair_consistent(a: UserView, p: UserView) -> bool {
    if has_entry(a.matches, p.id) || has_entry(p.matches, a.id) {
        &&& has_entry(a.matches, p.id)
        &&& has_entry(p.matches, a.id)
        &&& ({
            let sa = entry_status(a.matches, p.id);
            let sp = entry_status(p.matches, a.id);
            complementary(sa, sp) || (sa == MatchStatus::Accepted && sp == MatchStatus::Accepted)
                || (sa == MatchStatus::Denied && sp == MatchStatus::Denied)
        })
    } else {
        true
    }
}

/// Law: every successful operation carries the cross-record invariant
/// forward — the window between the two writes is the only state in which
/// it may not hold.
pub proof fn lemma_step_preserves_consistency(
    op: MatchOpView,
    a: UserView,
    p: UserView,
    a2: UserView,
    p2: UserView,
)
    requires
        a.wf(),
        p.wf(),
        a.id != p.id,
        step(op, a, p) == Ok::<(UserView, UserView), AppError>((a2, p2)),
    ensures
        pair_consistent(a2, p2),
{
    lemma_step_wf(op, a, p, a2, p2);
    match op {
        MatchOpView::Propose { target_name: tn, target_description: td } => {
            if !has_entry(a.matches, p.id) && !has_entry(p.matches, a.id) {
                lemma_with_new_entry_facts(a, proposer_entry(p, tn, td));
                lemma_with_new_entry_facts(p, receiver_entry(a));
            } else {
                lemma_with_new_entry_facts(p, receiver_entry(a));
            }
        },
        MatchOpView::Accept => {
            lemma_decide_consistent(a, p, MatchStatus::Accepted, a2, p2);
        },
        MatchOpView::Reject => {
            lemma_decide_consistent(a, p, MatchStatus::Denied, a2, p2);
        },
    }
}

proof fn lemma_decide_consistent(
    a: UserView,
    p: UserView,
    t: MatchStatus,
    a2: UserView,
    p2: UserView,
)
    requires
        a.wf(),
        p.wf(),
        a.id != p.id,
        is_terminal(t),
        decide_step(a, p, t) == Ok::<(UserView, UserView), AppError>((a2, p2)),
    ensures
        pair_consistent(a2, p2),
{
    let sa = entry_status(a.matches, p.id);
    let sp = entry_status(p.matches, a.id);
    if complementary(sa, sp) {
        lemma_with_entry_status_facts(a, p.id, t);
        lemma_with_entry_status_facts(p, a.id, t);
    } else if sa == t && !is_terminal(sp) {
        lemma_with_entry_status_facts(p, a.id, t);
    }
}

/// `doc` with one more entry appended.
fn push_entry(doc: &UserDocument, m: Match) -> (r: UserDocument)
    ensures
        r@ == with_new_entry(doc@, m@),
{
    let ghost mv = m@;
    let mut r = doc.clone();
    r.matches.push(m);
    proof {
        assert(matches_view(r.matches@) =~= doc@.matches.push(mv));
        assert(r@ =~~= with_new_entry(doc@, mv));
    }
    r
}

/// `doc` with the status of its entry at position `i` replaced by `s`.
fn with_status_at(doc: &UserDocument, i: usize, s: MatchStatus) -> (r: UserDocument)
    requires
        i < doc.matches@.len(),
    ensures
        r@ == (UserView {
            matches: doc@.matches.update(
                i as int,
                MatchView { match_status: s, ..doc@.matches[i as int] },
            ),
            ..doc@
        }),
{
    let mut r = doc.clone();
    let m = Match {
        id: doc.matches[i].id.clone(),
        name: doc.matches[i].name.clone(),
        description: doc.matches[i].description.clone(),
        match_status: s,
    };
    let ghost mv = m@;
    proof {
        assert(r.matches@.len() == doc@.matches.len());
    }
    r.matches.set(i, m);
    proof {
        assert(matches_view(r.matches@) =~= doc@.matches.update(i as int, mv));
        assert(mv =~~= (MatchView { match_status: s, ..doc@.matches[i as int] }));
        assert(r@ =~~= (UserView {
            matches: doc@.matches.update(
                i as int,
                MatchView { match_status: s, ..doc@.matches[i as int] },
            ),
            ..doc@
        }));
    }
    r
}

/// Accept or Reject on two in-memory records: the executable form of
/// `decide_step`.
fn decide_pair(actor: &UserDocument, peer: &UserDocument, target: MatchStatus) -> (r: Result<
    (UserDocument, UserDocument),
    AppError,
>)
    requires
        actor@.wf(),
        peer@.wf(),
        actor@.id != peer@.id,
        is_terminal(target),
    ensures
        match r {
            Ok(pair) => decide_step(actor@, peer@, target) == Ok::<(UserView, UserView), AppError>(
                (pair.0@, pair.1@),
            ) && pair.0@.wf() && pair.1@.wf(),
            Err(e) => decide_step(actor@, peer@, target) == Err::<(UserView, UserView), AppError>(
                e,
            ),
        },
{
    let ea = find_entry(&actor.matches, &peer.id);
    let ep = find_entry(&peer.matches, &actor.id);
    match (ea, ep) {
        (Some(i), Some(j)) => {
            proof {
                lemma_entry_index_unique(actor@.matches, peer@.id, i as int);
                lemma_entry_index_unique(peer@.matches, actor@.id, j as int);
            }
            let sa = actor.matches[i].match_status;
            let sp = peer.matches[j].match_status;
            proof {
                assert(sa == entry_status(actor@.matches, peer@.id));
                assert(sp == entry_status(peer@.matches, actor@.id));
            }
            if (sa == MatchStatus::Pending && sp == MatchStatus::AwaitingUserAction) || (sa
                == MatchStatus::AwaitingUserAction && sp == MatchStatus::Pending) {
                let a2 = with_status_at(actor, i, target);
                let p2 = with_status_at(peer, j, target);
                proof {
                    assert(a2@ == with_entry_status(actor@, peer@.id, target));
                    assert(p2@ == with_entry_status(peer@, actor@.id, target));
                    lemma_with_entry_status_facts(actor@, peer@.id, target);
                    lemma_with_entry_status_facts(peer@, actor@.id, target);
                }
                Ok((a2, p2))
            } else if sa == target && (sp == MatchStatus::Pending || sp
                == MatchStatus::AwaitingUserAction) {
                let p2 = with_status_at(peer, j, target);
                proof {
                    assert(p2@ == with_entry_status(peer@, actor@.id, target));
                    lemma_with_entry_status_facts(peer@, actor@.id, target);
                }
                Ok((actor.clone(), p2))
            } else if sa == target && sp == target {
                Ok((actor.clone(), peer.clone()))
            } else {
                Err(AppError::MatchNotFound)
            }
        },
        _ => Err(AppError::MatchNotFound),
    }
}

/// One operation applied to two in-memory records: the executable form of
/// `step`. The store is not involved; the caller persists the returned
/// records.
pub fn apply_pair(op: &MatchOp, actor: &UserDocument, peer: &UserDocument) -> (r: Result<
    (UserDocument, UserDocument),
    AppError,
>)
    requires
        actor@.wf(),
        peer@.wf(),
        actor@.id != peer@.id,
    ensures
        match r {
            Ok(pair) => step(op@, actor@, peer@) == Ok::<(UserView, UserView), AppError>(
                (pair.0@, pair.1@),
            ) && pair.0@.wf() && pair.1@.wf() && pair.0@.id == actor@.id && pair.1@.id == peer@.id,
            Err(e) => step(op@, actor@, peer@) == Err::<(UserView, UserView), AppError>(e),
        },
{
    match op {
        MatchOp::Propose { target_name, target_description } => {
            proof {
                assert(op@ == (MatchOpView::Propose {
                    target_name: target_name@,
                    target_description: target_description@,
                }));
            }
            let ea = find_entry(&actor.matches, &peer.id);
            let ep = find_entry(&peer.matches, &actor.id);
            match (ea, ep) {
                (None, None) => {
                    let ma = Match {
                        id: peer.id.clone(),
                        name: target_name.clone(),
                        description: target_description.clone(),
                        match_status: MatchStatus::Pending,
                    };
                    let mp = Match {
                        id: actor.id.clone(),
                        name: actor.name.clone(),
                        description: match &actor.description {
                            Some(d) => d.clone(),
                            None => String::new(),
                        },
                        match_status: MatchStatus::AwaitingUserAction,
                    };
                    proof {
                        assert(ma@ =~~= proposer_entry(peer@, target_name@, target_description@));
                        assert(mp@ =~~= receiver_entry(actor@));
                        lemma_with_new_entry_facts(
                            actor@,
                            proposer_entry(peer@, target_name@, target_description@),
                        );
                        lemma_with_new_entry_facts(peer@, receiver_entry(actor@));
                    }
                    let a2 = push_entry(actor, ma);
                    let p2 = push_entry(peer, mp);
                    Ok((a2, p2))
                },
                (Some(i), None) => {
                    proof {
                        lemma_entry_index_unique(actor@.matches, peer@.id, i as int);
                    }
                    if actor.matches[i].match_status == MatchStatus::Pending {
                        let mp = Match {
                            id: actor.id.clone(),
                            name: actor.name.clone(),
                            description: match &actor.description {
                                Some(d) => d.clone(),
                                None => String::new(),
                            },
                            match_status: MatchStatus::AwaitingUserAction,
                        };
                        proof {
                            assert(mp@ =~~= receiver_entry(actor@));
                            lemma_with_new_entry_facts(peer@, receiver_entry(actor@));
                        }
                        let p2 = push_entry(peer, mp);
                        Ok((actor.clone(), p2))
                    } else {
                        Err(AppError::DuplicateMatch)
                    }
                },
                (None, Some(j)) => {
                    proof {
                        lemma_entry_index_unique(peer@.matches, actor@.id, j as int);
                    }
                    Err(AppError::DuplicateMatch)
                },
                (Some(i), Some(j)) => {
                    proof {
                        lemma_entry_index_unique(actor@.matches, peer@.id, i as int);
                        lemma_entry_index_unique(peer@.matches, actor@.id, j as int);
                    }
                    Err(AppError::DuplicateMatch)
                },
            }
        },
        MatchOp::Accept => {
            proof {
                assert(op@ == MatchOpView::Accept);
            }
            decide_pair(actor, peer, MatchStatus::Accepted)
        },
        MatchOp::Reject => {
            proof {
                assert(op@ == MatchOpView::Reject);
            }
            decide_pair(actor, peer, MatchStatus::Denied)
        },
    }
}

/// Everything `apply` promises, over the store's contents before and after
/// the call. The actor must name a counterpart other than itself and both
/// records must exist; the pair transition is `step`; the actor's record is
/// written first, so a write failure leaves either nothing applied
/// (`StoreUnavailable`) or exactly the actor's side applied
/// (`PartiallyApplied`).
pub open spec fn apply_post(
    d0: Seq<UserView>,
    v0: Seq<u64>,
    f0: Option<usize>,
    op: MatchOpView,
    actor_id: Seq<char>,
    peer_id: Seq<char>,
    r: Result<(), AppError>,
    d1: Seq<UserView>,
    v1: Seq<u64>,
    f1: Option<usize>,
) -> bool {
    if actor_id == peer_id {
        r == Err::<(), AppError>(AppError::NotFoundError) && d1 == d0 && v1 == v0 && f1 == f0
    } else if !has_doc(d0, actor_id) {
        r == Err::<(), AppError>(AppError::Unauthenticated) && d1 == d0 && v1 == v0 && f1 == f0
    } else if !has_doc(d0, peer_id) {
        r == Err::<(), AppError>(AppError::NotFoundError) && d1 == d0 && v1 == v0 && f1 == f0
    } else {
        let ai = doc_index(d0, actor_id);
        let pi = doc_index(d0, peer_id);
        match step(op, d0[ai], d0[pi]) {
            Err(e) => r == Err::<(), AppError>(e) && d1 == d0 && v1 == v0 && f1 == f0,
            Ok(pair) => {
                if f0 == Some(0usize) {
                    r == Err::<(), AppError>(AppError::StoreUnavailable) && d1 == d0 && v1 == v0
                        && f1 == f0
                } else if f0 == Some(1usize) {
                    r == Err::<(), AppError>(AppError::PartiallyApplied) && d1 == d0.update(
                        ai,
                        pair.0,
                    ) && v1 == v0.update(ai, bump(v0[ai])) && f1 == Some(0usize)
                } else {
                    r == Ok::<(), AppError>(()) && d1 == d0.update(ai, pair.0).update(pi, pair.1)
                        && v1 == v0.update(ai, bump(v0[ai])).update(pi, bump(v0[pi])) && f1
                        == dec_fault(dec_fault(f0))
                }
            },
        }
    }
}

/// Apply one operation for the resolved actor against the counterpart
/// `peer_id`.
///
/// The engine reads both records fresh (of the resolved actor only the id
/// is relied on), computes the pair transition, then persists the actor's
/// record and the counterpart's record in that order,
/// each as an optimistic single-record write. The two writes are not
/// atomic: when the second fails the call surfaces `PartiallyApplied`, and
/// retrying the same operation completes the counterpart's side while the
/// actor's side is accepted as already applied.
pub fn apply(store: &mut Store, op: &MatchOp, actor: &UserDocument, peer_id: &String) -> (r:
    Result<(), AppError>)
    ensures
        apply_post(
            old(store).docs(),
            old(store).versions(),
            old(store).faults(),
            op@,
            actor@.id,
            peer_id@,
            r,
            final(store).docs(),
            final(store).versions(),
            final(store).faults(),
        ),
{
    let ghost d0 = store.docs();
    let ghost v0 = store.versions();
    let ghost f0 = store.faults();
    if actor.id == *peer_id {
        return Err(AppError::NotFoundError);
    }
    let (a, va) = match store.get_by_id(&actor.id) {
        Some(x) => x,
        None => {
            return Err(AppError::Unauthenticated);
        },
    };
    let (p, vp) = match store.get_by_id(peer_id) {
        Some(x) => x,
        None => {
            return Err(AppError::NotFoundError);
        },
    };
    let ghost ai = doc_index(d0, actor@.id);
    let ghost pi = doc_index(d0, peer_id@);
    let (a2, p2) = match apply_pair(op, &a, &p) {
        Ok(x) => x,
        Err(e) => {
            return Err(e);
        },
    };
    let ghost a2v = a2@;
    let ghost p2v = p2@;
    match store.put(a2, Some(va)) {
        Ok(_) => {},
        Err(e) => {
            proof {
                assert(store.docs() == d0);
                assert(f0 == Some(0usize) && e == AppError::StoreUnavailable);
            }
            return Err(e);
        },
    }
    proof {
        assert(store.docs() == d0.update(ai, a2v));
        assert(doc_index(store.docs(), peer_id@) == pi) by {
            assert(store.docs()[pi].id == peer_id@);
            let k = doc_index(store.docs(), peer_id@);
            assert(has_doc(store.docs(), peer_id@));
            assert(0 <= k < store.docs().len() && store.docs()[k].id == peer_id@);
            if k != pi {
                assert(store.docs()[k].id == d0[k].id);
                assert(false);
            }
        }
        assert(store.versions()[pi] == vp);
    }
    match store.put(p2, Some(vp)) {
        Ok(_) => {},
        Err(_) => {
            return Err(AppError::PartiallyApplied);
        },
    }
    proof {
        assert(store.docs() == d0.update(ai, a2v).update(pi, p2v)) by {
            assert(store.docs() =~= d0.update(ai, a2v).update(pi, p2v));
        }
        assert(store.versions() == v0.update(ai, bump(v0[ai])).update(pi, bump(v0[pi]))) by {
            assert(store.versions() =~= v0.update(ai, bump(v0[ai])).update(pi, bump(v0[pi])));
        }
    }
    Ok(())
}

} // verus!
