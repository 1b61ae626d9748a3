//! Meeting-point selection for an accepted pair.
//!
//! The midpoint of the two locations is the arithmetic mean of the
//! coordinate pairs — a planar approximation, deliberately not geodesic —
//! and the chosen point of interest minimizes the squared Euclidean
//! distance to it, ties broken by input order. To stay exact in integer
//! arithmetic the comparison works at doubled scale: the distance of `q`
//! to the midpoint of `u` and `v` is compared through
//! `(2q - (u + v))²`, four times the squared distance to the exact
//! midpoint, which never rounds.

use vstd::prelude::*;

use crate::errors::AppError;
use crate::records::{find_entry, has_entry, Point, UserDocument};

verus! {

/// Four times the squared Euclidean distance from `q` to the midpoint of
/// `u` and `v`, exact in integers.
pub open spec fn midpoint_dist2(q: Point, u: Point, v: Point) -> int {
    let dx = 2 * (q.latitude as int) - ((u.latitude as int) + (v.latitude as int));
    let dy = 2 * (q.longitude as int) - ((u.longitude as int) + (v.longitude as int));
    dx * dx + dy * dy
}

/// `r` is the first point of the sequence at minimal distance to the
/// midpoint of `u` and `v`: no point is nearer, and every earlier point is
/// strictly farther.
pub open spec fn selects_first_nearest(r: Point, u: Point, v: Point, pois: Seq<Point>) -> bool {
    exists|i: int|
        #![trigger pois[i]]
        0 <= i < pois.len() && r == pois[i] && (forall|j: int|
            0 <= j < pois.len() ==> midpoint_dist2(r, u, v) <= midpoint_dist2(
                #[trigger] pois[j],
                u,
                v,
            )) && (forall|j: int|
            0 <= j < i ==> midpoint_dist2(#[trigger] pois[j], u, v) > midpoint_dist2(r, u, v))
}

/// Law: over a one-element point-of-interest set the selection is that
/// element, whatever the midpoint.
pub proof fn lemma_single_poi_selected(r: Point, u: Point, v: Point, pois: Seq<Point>)
    requires
        pois.len() == 1,
        selects_first_nearest(r, u, v, pois),
    ensures
        r == pois[0],
{
}

/// The comparison distance, computed exactly in wide integers.
fn dist2(q: Point, u: Point, v: Point) -> (d: i128)
    ensures
        d == midpoint_dist2(q, u, v),
{
    let dx: i128 = 2 * (q.latitude as i128) - ((u.latitude as i128) + (v.latitude as i128));
    let dy: i128 = 2 * (q.longitude as i128) - ((u.longitude as i128) + (v.longitude as i128));
    proof {
        assert(dx * dx >= 0 && dx * dx <= 0x2_0000_0000i128 * 0x2_0000_0000i128 && dy * dy >= 0
            && dy * dy <= 0x2_0000_0000i128 * 0x2_0000_0000i128) by (nonlinear_arith)
            requires
                -0x2_0000_0000i128 <= dx <= 0x2_0000_0000i128,
                -0x2_0000_0000i128 <= dy <= 0x2_0000_0000i128,
        ;
    }
    dx * dx + dy * dy
}

/// The point of interest nearest to the midpoint of the two locations; the
/// first of several equally near points wins.
pub fn select(user: Point, peer: Point, pois: &Vec<Point>) -> (r: Point)
    requires
        pois@.len() > 0,
    ensures
        selects_first_nearest(r, user, peer, pois@),
{
    let mut best: Point = pois[0];
    let mut best_d: i128 = dist2(best, user, peer);
    let mut best_i: usize = 0;
    let mut k: usize = 1;
    while k < pois.len()
        invariant
            1 <= k <= pois@.len(),
            best_i < k,
            best == pois@[best_i as int],
            best_d == midpoint_dist2(best, user, peer),
            forall|j: int|
                0 <= j < k ==> best_d <= midpoint_dist2(#[trigger] pois@[j], user, peer),
            forall|j: int|
                0 <= j < best_i ==> midpoint_dist2(#[trigger] pois@[j], user, peer) > best_d,
        decreases pois@.len() - k,
    {
        let d = dist2(pois[k], user, peer);
        if d < best_d {
            best = pois[k];
            best_d = d;
            best_i = k;
        }
        k = k + 1;
    }
    proof {
        assert(0 <= best_i < pois@.len() && best == pois@[best_i as int]);
    }
    best
}

/// Propose a meeting point to the caller for the counterpart `target`.
///
/// Fails with `NotMatched` when the caller's record has no entry for the
/// counterpart, and with `MissingLocationData` when either record carries
/// no location; otherwise returns the nearest point of interest to the
/// midpoint of the two locations. The caller is expected to have confirmed
/// an accepted relationship before sharing the result.
pub fn meet(user: &UserDocument, target: &UserDocument, pois: &Vec<Point>) -> (r: Result<
    Point,
    AppError,
>)
    requires
        pois@.len() > 0,
    ensures
        r is Ok <==> (has_entry(user@.matches, target@.id) && user@.location is Some
            && target@.location is Some),
        match r {
            Ok(q) => selects_first_nearest(
                q,
                user@.location->Some_0,
                target@.location->Some_0,
                pois@,
            ),
            Err(e) => if !has_entry(user@.matches, target@.id) {
                e == AppError::NotMatched
            } else {
                e == AppError::MissingLocationData
            },
        },
{
    match find_entry(&user.matches, &target.id) {
        None => {
            return Err(AppError::NotMatched);
        },
        Some(i) => {
            proof {
                assert(user@.matches[i as int].id == target@.id);
                assert(has_entry(user@.matches, target@.id));
            }
        },
    }
    match (user.location, target.location) {
        (Some(ul), Some(tl)) => Ok(select(ul, tl, pois)),
        _ => Err(AppError::MissingLocationData),
    }
}

} // verus!
