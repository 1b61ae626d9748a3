//! User records, match entries, and their mathematical views.

use vstd::prelude::*;

verus! {

/// A latitude/longitude pair in fixed-point micro-degrees.
///
/// Coordinates are held as integers so that midpoint and distance
/// comparisons are exact; one unit is one millionth of a degree.
#[derive(Clone, Copy, PartialEq, Eq, Structural, Debug)]
pub struct Point {
    pub latitude: i32,
    pub longitude: i32,
}

impl Point {
    pub fn new(latitude: i32, longitude: i32) -> (p: Point)
        ensures
            p == (Point { latitude, longitude }),
    {
        Point { latitude, longitude }
    }
}

/// The state of one side of a two-party relationship.
///
/// `Accepted` and `Denied` are terminal: no further transition is permitted
/// on an entry that carries one of them.
#[derive(Clone, Copy, PartialEq, Eq, Structural, Debug)]
pub enum MatchStatus {
    /// The actor proposed and waits for the counterpart's decision.
    Pending,
    /// The counterpart proposed; this side owes a decision.
    AwaitingUserAction,
    /// Both sides agreed; location data may be shared to arrange a meeting.
    Accepted,
    /// The proposal was declined.
    Denied,
}

/// Mathematical view of a `Match` entry.
#[verifier::ext_equal]
pub ghost struct MatchView {
    pub id: Seq<char>,
    pub name: Seq<char>,
    pub description: Seq<char>,
    pub match_status: MatchStatus,
}

/// One user's view of a relationship with exactly one counterpart.
///
/// `name` and `description` are a snapshot of the counterpart's display data
/// taken at proposal time; they are not kept in sync with later edits.
#[derive(Debug)]
pub struct Match {
    /// The counterpart's user id.
    pub id: String,
    pub name: String,
    pub description: String,
    pub match_status: MatchStatus,
}

impl View for Match {
    type V = MatchView;

    open spec fn view(&self) -> MatchView {
        MatchView {
            id: self.id@,
            name: self.name@,
            description: self.description@,
            match_status: self.match_status,
        }
    }
}

impl Clone for Match {
    fn clone(&self) -> (r: Self)
        ensures
            r == *self,
    {
        Match {
            id: self.id.clone(),
            name: self.name.clone(),
            description: self.description.clone(),
            match_status: self.match_status,
        }
    }
}

/// Mathematical view of a `UserDocument`.
#[verifier::ext_equal]
pub ghost struct UserView {
    pub id: Seq<char>,
    pub email: Seq<char>,
    pub name: Seq<char>,
    pub access_token: Seq<char>,
    pub description: Option<Seq<char>>,
    pub description_embeddings: Option<Seq<i64>>,
    pub location: Option<Point>,
    pub matches: Seq<MatchView>,
}

/// No two entries name the same counterpart.
pub open spec fn unique_entry_ids(ms: Seq<MatchView>) -> bool {
    forall|i: int, j: int| 0 <= i < j < ms.len() ==> ms[i].id != ms[j].id
}

impl UserView {
    /// Well-formedness: match entries are keyed uniquely by counterpart id,
    /// and the profile text and its vector representation are both present
    /// or both absent.
    pub open spec fn wf(self) -> bool {
        &&& unique_entry_ids(self.matches)
        &&& (self.description is Some <==> self.description_embeddings is Some)
    }
}

/// Identity and relationship state for one user.
///
/// `id` is assigned at first creation and immutable thereafter; it is also
/// the store's partition key. `access_token` is the current bearer
/// credential, overwritten on every successful login, so at most one token
/// per user is valid at a time. `description` and `description_embeddings`
/// are both present or both absent; the embedding vector is held in a
/// fixed-point integer representation.
#[derive(Debug)]
pub struct UserDocument {
    pub id: String,
    pub email: String,
    pub name: String,
    pub access_token: String,
    pub description: Option<String>,
    pub description_embeddings: Option<Vec<i64>>,
    pub location: Option<Point>,
    /// Relationship entries, one per counterpart user.
    pub matches: Vec<Match>,
}

/// The views of a sequence of match entries.
pub open spec fn matches_view(ms: Seq<Match>) -> Seq<MatchView> {
    ms.map_values(|m: Match| m@)
}

impl View for UserDocument {
    type V = UserView;

    open spec fn view(&self) -> UserView {
        UserView {
            id: self.id@,
            email: self.email@,
            name: self.name@,
            access_token: self.access_token@,
            description: match self.description {
                Some(d) => Some(d@),
                None => None,
            },
            description_embeddings: match self.description_embeddings {
                Some(e) => Some(e@),
                None => None,
            },
            location: self.location,
            matches: matches_view(self.matches@),
        }
    }
}

impl Clone for UserDocument {
    fn clone(&self) -> (r: Self)
        ensures
            r@ == self@,
    {
        let r = UserDocument {
            id: self.id.clone(),
            email: self.email.clone(),
            name: self.name.clone(),
            access_token: self.access_token.clone(),
            description: match &self.description {
                Some(d) => Some(d.clone()),
                None => None,
            },
            description_embeddings: match &self.description_embeddings {
                Some(e) => Some(e.clone()),
                None => None,
            },
            location: self.location,
            matches: self.matches.clone(),
        };
        proof {
            assert(r.matches@ =~= self.matches@);
            match (&r.description_embeddings, &self.description_embeddings) {
                (Some(re), Some(se)) => {
                    assert(re@ =~= se@);
                }
                _ => {}
            }
            assert(r@ =~~= self@);
        }
        r
    }
}

impl UserDocument {
    /// Runtime check of the record's well-formedness, for callers outside
    /// verified code that must establish it before a store write.
    pub fn is_wf(&self) -> (b: bool)
        ensures
            b == self@.wf(),
    {
        let both_or_neither: bool = match (&self.description, &self.description_embeddings) {
            (Some(_), Some(_)) => true,
            (None, None) => true,
            _ => false,
        };
        if !both_or_neither {
            return false;
        }
        let n = self.matches.len();
        let mut i: usize = 0;
        while i < n
            invariant
                i <= n,
                n == self.matches@.len(),
                forall|x: int, y: int| 0 <= x < y < i ==> matches_view(self.matches@)[x].id
                    != matches_view(self.matches@)[y].id,
                both_or_neither == (self@.description is Some <==> self@.description_embeddings
                    is Some),
                both_or_neither,
            decreases n - i,
        {
            let mut j: usize = 0;
            while j < i
                invariant
                    j <= i < n,
                    n == self.matches@.len(),
                    forall|y: int| 0 <= y < j ==> matches_view(self.matches@)[y].id != matches_view(
                        self.matches@,
                    )[i as int].id,
                decreases i - j,
            {
                if self.matches[j].id == self.matches[i].id {
                    proof {
                        let ghost mv = matches_view(self.matches@);
                        assert(mv[j as int].id == mv[i as int].id);
                        assert(!unique_entry_ids(mv));
                    }
                    return false;
                }
                j = j + 1;
            }
            i = i + 1;
        }
        true
    }
}

/// First entry whose counterpart id equals `id`, if any.
///
/// `Some(i)` points at a matching entry and every earlier entry differs;
/// `None` means no entry matches.
pub fn find_entry(ms: &Vec<Match>, id: &String) -> (r: Option<usize>)
    ensures
        match r {
            Some(i) => i < ms@.len() && ms@[i as int]@.id == id@ && (forall|j: int|
                0 <= j < i ==> ms@[j]@.id != id@),
            None => !has_entry(matches_view(ms@), id@),
        },
{
    let n = ms.len();
    let mut i: usize = 0;
    while i < n
        invariant
            i <= n,
            n == ms@.len(),
            forall|j: int| 0 <= j < i ==> ms@[j]@.id != id@,
        decreases n - i,
    {
        if ms[i].id == *id {
            return Some(i);
        }
        i = i + 1;
    }
    assert(forall|j: int|
        0 <= j < matches_view(ms@).len() ==> matches_view(ms@)[j].id != id@);
    None
}

/// Some entry names the counterpart `id`.
pub open spec fn has_entry(ms: Seq<MatchView>, id: Seq<char>) -> bool {
    exists|i: int| 0 <= i < ms.len() && ms[i].id == id
}

/// The index of the entry naming `id`; meaningful only when `has_entry`
/// holds, and unique when the entry ids are unique.
pub open spec fn entry_index(ms: Seq<MatchView>, id: Seq<char>) -> int {
    choose|i: int| 0 <= i < ms.len() && ms[i].id == id
}

/// The status of the entry naming `id`.
pub open spec fn entry_status(ms: Seq<MatchView>, id: Seq<char>) -> MatchStatus {
    ms[entry_index(ms, id)].match_status
}

/// When entry ids are unique, `entry_index` names exactly the one matching
/// position.
pub proof fn lemma_entry_index_unique(ms: Seq<MatchView>, id: Seq<char>, i: int)
    requires
        unique_entry_ids(ms),
        0 <= i < ms.len(),
        ms[i].id == id,
    ensures
        has_entry(ms, id),
        entry_index(ms, id) == i,
{
    assert(has_entry(ms, id));
    let k = entry_index(ms, id);
    assert(0 <= k < ms.len() && ms[k].id == id);
    if k < i {
        assert(false);
    }
    if k > i {
        assert(false);
    }
}

} // verus!
