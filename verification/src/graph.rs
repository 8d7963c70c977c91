//! The contact graph as the solver sees it: for each pair of colliders its
//! manifolds, and for each contact point of a manifold the impulses kept
//! for the warm start of the next step.

use crate::contact::ContactConstraint;
use crate::contact::ContactConstraints;
use crate::contact::ContactImpulse;
use crate::contact::ConstraintPoint;
use crate::contact::TangentImpulse;
use crate::scalar::ZERO;
use vstd::prelude::*;

verus! {

/// One contact point of a manifold.
#[derive(Clone, Copy, Debug, PartialEq, Eq, Structural)]
pub struct ContactPoint {
    /// The geometric feature that made the point: the same feature in two
    /// steps is the same contact.
    pub feature_id: u32,
    /// The impulses kept for the point.
    pub impulse: ContactImpulse,
}

/// The contact points that share one normal.
#[derive(Clone, Debug, PartialEq, Eq)]
pub struct ContactManifold {
    /// The contact points.
    pub points: Vec<ContactPoint>,
}

impl View for ContactManifold {
    type V = Seq<ContactPoint>;

    open spec fn view(&self) -> Seq<ContactPoint> {
        self.points@
    }
}

/// The impulse that a contact made by feature `feature_id` takes over from
/// the points of the step before: that of the first point made by the same
/// feature, and zero where there is none.
pub open spec fn carried_impulse(previous: Seq<ContactPoint>, feature_id: u32) -> ContactImpulse
    decreases previous.len(),
{
    if previous.len() == 0 {
        ContactImpulse::zero()
    } else if previous[0].feature_id == feature_id {
        previous[0].impulse
    } else {
        carried_impulse(previous.skip(1), feature_id)
    }
}

/// The constraint points that start a step from the impulses kept in
/// `points`: with a friction part taken from the kept impulse where
/// `has_friction`, and without one otherwise.
pub open spec fn warm_points_of(points: Seq<ContactPoint>, has_friction: bool) -> Seq<
    ConstraintPoint,
> {
    Seq::new(
        points.len(),
        |k: int|
            ConstraintPoint {
                normal_impulse: points[k].impulse.normal,
                tangent_impulse: if has_friction {
                    Some(
                        TangentImpulse {
                            x: points[k].impulse.tangent_x,
                            y: points[k].impulse.tangent_y,
                        },
                    )
                } else {
                    None
                },
            },
    )
}

/// The points of a manifold made by `features`, each with the impulse that
/// it takes over from `previous`.
pub open spec fn fresh_points(previous: Seq<ContactPoint>, features: Seq<u32>) -> Seq<ContactPoint> {
    Seq::new(
        features.len(),
        |k: int|
            ContactPoint {
                feature_id: features[k],
                impulse: carried_impulse(previous, features[k]),
            },
    )
}

/// The features that made `points`, in order.
pub open spec fn features_of(points: Seq<ContactPoint>) -> Seq<u32> {
    Seq::new(points.len(), |k: int| points[k].feature_id)
}

/// No two of `points` were made by the same feature.
pub open spec fn features_distinct(points: Seq<ContactPoint>) -> bool {
    forall|i: int, j: int|
        0 <= i < j < points.len() ==> (#[trigger] points[i]).feature_id != (
        #[trigger] points[j]).feature_id
}

/// A feature that made none of the points of the step before starts from
/// zero.
pub proof fn law_new_contact_starts_from_zero(previous: Seq<ContactPoint>, feature_id: u32)
    requires
        forall|k: int| 0 <= k < previous.len() ==> (#[trigger] previous[k]).feature_id != feature_id,
    ensures
        carried_impulse(previous, feature_id) == ContactImpulse::zero(),
    decreases previous.len(),
{
    if previous.len() > 0 {
        assert(previous[0].feature_id != feature_id);
        let rest = previous.skip(1);
        assert forall|k: int| 0 <= k < rest.len() implies (#[trigger] rest[k]).feature_id
            != feature_id by {
            assert(rest[k] == previous[k + 1]);
        }
        law_new_contact_starts_from_zero(rest, feature_id);
    }
}

/// A feature takes over the impulse of the first point that it made in the
/// step before.
pub proof fn law_known_contact_keeps_impulse(previous: Seq<ContactPoint>, k: int)
    requires
        0 <= k < previous.len(),
        forall|j: int| 0 <= j < k ==> (#[trigger] previous[j]).feature_id != previous[k].feature_id,
    ensures
        carried_impulse(previous, previous[k].feature_id) == previous[k].impulse,
    decreases k,
{
    if k > 0 {
        assert(previous[0].feature_id != previous[k].feature_id);
        let rest = previous.skip(1);
        assert(rest[k - 1] == previous[k]);
        assert forall|j: int| 0 <= j < k - 1 implies (#[trigger] rest[j]).feature_id != rest[k
            - 1].feature_id by {
            assert(rest[j] == previous[j + 1]);
        }
        law_known_contact_keeps_impulse(rest, k - 1);
    }
}

/// A manifold whose points were each made by a feature of their own hands
/// all its impulses on to a manifold of the same features.
pub proof fn law_same_features_keep_impulses(points: Seq<ContactPoint>)
    requires
        features_distinct(points),
    ensures
        fresh_points(points, features_of(points)) == points,
{
    assert forall|k: int| 0 <= k < points.len() implies fresh_points(points, features_of(points))[k]
        == points[k] by {
        law_known_contact_keeps_impulse(points, k);
    }
    assert(fresh_points(points, features_of(points)) =~= points);
}

impl ContactManifold {
    /// A manifold of the given points.
    pub fn new(points: Vec<ContactPoint>) -> (manifold: ContactManifold)
        ensures
            manifold@ == points@,
    {
        ContactManifold { points }
    }

    /// A manifold with a point for each of `features`, each with the
    /// impulse that it takes over from `previous`, the manifold of the step
    /// before, or with zero where there is none.
    pub fn carried_over(features: &Vec<u32>, previous: Option<&ContactManifold>) -> (manifold:
        ContactManifold)
        ensures
            manifold@ == fresh_points(
                match previous {
                    Some(before) => before@,
                    None => Seq::empty(),
                },
                features@,
            ),
    {
        let mut points: Vec<ContactPoint> = Vec::new();
        let mut k: usize = 0;
        while k < features.len()
            invariant
                k <= features@.len(),
                points@.len() == k,
                forall|i: int|
                    0 <= i < k ==> #[trigger] points@[i] == (ContactPoint {
                        feature_id: features@[i],
                        impulse: ContactImpulse::zero(),
                    }),
            decreases features@.len() - k,
        {
            points.push(
                ContactPoint {
                    feature_id: features[k],
                    impulse: ContactImpulse { normal: ZERO, tangent_x: ZERO, tangent_y: ZERO },
                },
            );
            k = k + 1;
        }
        let mut manifold = ContactManifold { points };
        match previous {
            Some(before) => {
                manifold.match_contacts(before);
                proof {
                    assert(manifold@ =~= fresh_points(before@, features@));
                }
            },
            None => {
                proof {
                    assert forall|i: int| 0 <= i < features@.len() implies carried_impulse(
                        Seq::<ContactPoint>::empty(),
                        #[trigger] features@[i],
                    ) == ContactImpulse::zero() by {}
                    assert(manifold@ =~= fresh_points(Seq::empty(), features@));
                }
            },
        }
        manifold
    }

    /// Gives each point the impulse kept for its feature in `previous`,
    /// the manifold of the step before, and zero where the feature is new.
    pub fn match_contacts(&mut self, previous: &ContactManifold)
        ensures
            final(self)@.len() == old(self)@.len(),
            forall|k: int|
                0 <= k < old(self)@.len() ==> #[trigger] final(self)@[k] == (ContactPoint {
                    feature_id: old(self)@[k].feature_id,
                    impulse: carried_impulse(previous@, old(self)@[k].feature_id),
                }),
    {
        let mut k: usize = 0;
        while k < self.points.len()
            invariant
                k <= self.points@.len(),
                self.points@.len() == old(self).points@.len(),
                forall|i: int|
                    0 <= i < self.points@.len() ==> #[trigger] self.points@[i] == if i < k {
                        ContactPoint {
                            feature_id: old(self).points@[i].feature_id,
                            impulse: carried_impulse(previous@, old(self).points@[i].feature_id),
                        }
                    } else {
                        old(self).points@[i]
                    },
            decreases self.points@.len() - k,
        {
            let feature_id: u32 = self.points[k].feature_id;
            let mut impulse = ContactImpulse { normal: ZERO, tangent_x: ZERO, tangent_y: ZERO };
            let mut j: usize = 0;
            proof {
                assert(previous@.skip(0) =~= previous@);
            }
            while j < previous.points.len()
                invariant_except_break
                    j <= previous.points@.len(),
                    impulse == ContactImpulse::zero(),
                    carried_impulse(previous@, feature_id) == carried_impulse(
                        previous@.skip(j as int),
                        feature_id,
                    ),
                ensures
                    impulse == carried_impulse(previous@, feature_id),
                decreases previous.points@.len() - j,
            {
                proof {
                    assert(previous@.skip(j as int).skip(1) =~= previous@.skip(j + 1));
                }
                if previous.points[j].feature_id == feature_id {
                    impulse = previous.points[j].impulse;
                    break ;
                }
                j = j + 1;
            }
            self.points[k].impulse = impulse;
            k = k + 1;
        }
    }

    /// The constraint points that start a step from the impulses kept in
    /// this manifold, one per contact point and in the same order.
    pub fn warm_points(&self, has_friction: bool) -> (points: Vec<ConstraintPoint>)
        ensures
            points@ == warm_points_of(self@, has_friction),
    {
        let mut points: Vec<ConstraintPoint> = Vec::new();
        let mut k: usize = 0;
        while k < self.points.len()
            invariant
                k <= self.points@.len(),
                points@.len() == k,
                forall|i: int|
                    0 <= i < k ==> #[trigger] points@[i] == warm_points_of(self@, has_friction)[i],
            decreases self.points@.len() - k,
        {
            points.push(ConstraintPoint::warm(self.points[k].impulse, has_friction));
            k = k + 1;
        }
        proof {
            assert(points@ =~= warm_points_of(self@, has_friction));
        }
        points
    }
}

/// The manifolds between two colliders.
#[derive(Clone, Debug, PartialEq, Eq)]
pub struct ContactPair {
    /// One collider.
    pub collider1: u64,
    /// The other collider.
    pub collider2: u64,
    /// The manifolds between them.
    pub manifolds: Vec<ContactManifold>,
}

/// What a contact pair holds.
pub struct PairView {
    pub collider1: u64,
    pub collider2: u64,
    pub manifolds: Seq<Seq<ContactPoint>>,
}

impl PairView {
    /// Whether this is the pair of `a` and `b`, in either order.
    pub open spec fn joins(&self, a: u64, b: u64) -> bool {
        (self.collider1 == a && self.collider2 == b) || (self.collider1 == b && self.collider2
            == a)
    }
}

impl View for ContactPair {
    type V = PairView;

    open spec fn view(&self) -> PairView {
        PairView {
            collider1: self.collider1,
            collider2: self.collider2,
            manifolds: Seq::new(self.manifolds@.len(), |i: int| self.manifolds@[i]@),
        }
    }
}

/// No two pairs of `pairs` join the same two colliders.
pub open spec fn pairs_distinct(pairs: Seq<PairView>) -> bool {
    forall|i: int, j: int|
        0 <= i < j < pairs.len() ==> !(#[trigger] pairs[i]).joins(
            (#[trigger] pairs[j]).collider1,
            pairs[j].collider2,
        )
}

/// Whether `pairs` holds the pair of `a` and `b`.
pub open spec fn has_pair(pairs: Seq<PairView>, a: u64, b: u64) -> bool {
    exists|i: int| 0 <= i < pairs.len() && (#[trigger] pairs[i]).joins(a, b)
}

/// The place of the pair of `a` and `b` in `pairs`, where it holds one.
pub open spec fn pair_index(pairs: Seq<PairView>, a: u64, b: u64) -> int {
    choose|i: int| 0 <= i < pairs.len() && (#[trigger] pairs[i]).joins(a, b)
}

/// Among distinct pairs, the pair of two colliders stands at one place
/// only.
pub proof fn lemma_pair_index_unique(pairs: Seq<PairView>, a: u64, b: u64, i: int)
    requires
        pairs_distinct(pairs),
        0 <= i < pairs.len(),
        pairs[i].joins(a, b),
    ensures
        has_pair(pairs, a, b),
        pair_index(pairs, a, b) == i,
{
    let j = pair_index(pairs, a, b);
    assert(0 <= j < pairs.len() && pairs[j].joins(a, b));
    if j < i {
        assert(pairs[j].joins(pairs[i].collider1, pairs[i].collider2));
    } else if i < j {
        assert(pairs[i].joins(pairs[j].collider1, pairs[j].collider2));
    }
}

/// The impulses that the points of a constraint hand on, in order.
pub open spec fn kept_impulses(points: Seq<ConstraintPoint>) -> Seq<ContactImpulse> {
    Seq::new(points.len(), |k: int| points[k].kept())
}

/// The points of a manifold after the impulses `kept` were written to them
/// index by index: point `k` takes `kept[k]` where there is one, and stays
/// as it is otherwise. No point is added or dropped.
pub open spec fn with_impulses(points: Seq<ContactPoint>, kept: Seq<ContactImpulse>) -> Seq<
    ContactPoint,
> {
    Seq::new(
        points.len(),
        |k: int|
            if k < kept.len() {
                ContactPoint { feature_id: points[k].feature_id, impulse: kept[k] }
            } else {
                points[k]
            },
    )
}

/// Whether `pairs` holds the manifold that `constraint` was made for.
pub open spec fn resolves(pairs: Seq<PairView>, constraint: ContactConstraint) -> bool {
    &&& has_pair(pairs, constraint.collider1, constraint.collider2)
    &&& constraint.manifold_index < pairs[pair_index(
        pairs,
        constraint.collider1,
        constraint.collider2,
    )].manifolds.len()
}

/// Whether `pairs` holds the manifold of each of `constraints`.
pub open spec fn all_resolve(pairs: Seq<PairView>, constraints: Seq<ContactConstraint>) -> bool {
    forall|i: int| 0 <= i < constraints.len() ==> resolves(pairs, #[trigger] constraints[i])
}

/// The graph after the impulses of `constraint` were written to its
/// manifold.
pub open spec fn store_one(pairs: Seq<PairView>, constraint: ContactConstraint) -> Seq<PairView>
    recommends
        resolves(pairs, constraint),
{
    let p = pair_index(pairs, constraint.collider1, constraint.collider2);
    let m = constraint.manifold_index as int;
    pairs.update(
        p,
        PairView {
            collider1: pairs[p].collider1,
            collider2: pairs[p].collider2,
            manifolds: pairs[p].manifolds.update(
                m,
                with_impulses(pairs[p].manifolds[m], kept_impulses(constraint.points@)),
            ),
        },
    )
}

/// The graph after the impulses of each of `constraints` were written to
/// its manifold, the first constraint first.
pub open spec fn store_all(pairs: Seq<PairView>, constraints: Seq<ContactConstraint>) -> Seq<
    PairView,
>
    decreases constraints.len(),
{
    if constraints.len() == 0 {
        pairs
    } else {
        store_one(store_all(pairs, constraints.drop_last()), constraints.last())
    }
}

/// Two graphs with the same pairs at the same places, each with as many
/// manifolds, and each manifold with as many points made by the same
/// features.
pub open spec fn same_shape(a: Seq<PairView>, b: Seq<PairView>) -> bool {
    &&& a.len() == b.len()
    &&& forall|p: int|
        0 <= p < a.len() ==> {
            &&& (#[trigger] a[p]).collider1 == b[p].collider1
            &&& a[p].collider2 == b[p].collider2
            &&& a[p].manifolds.len() == b[p].manifolds.len()
            &&& forall|m: int|
                0 <= m < a[p].manifolds.len() ==> {
                    &&& (#[trigger] a[p].manifolds[m]).len() == b[p].manifolds[m].len()
                    &&& forall|k: int|
                        0 <= k < a[p].manifolds[m].len() ==> (#[trigger] a[p].manifolds[m][k]).feature_id
                            == b[p].manifolds[m][k].feature_id
                }
        }
}

/// Graphs of the same shape hold the same pairs at the same places, and
/// resolve the same constraints.
pub proof fn lemma_same_shape_same_pairs(a: Seq<PairView>, b: Seq<PairView>)
    requires
        same_shape(a, b),
        pairs_distinct(a),
    ensures
        pairs_distinct(b),
        forall|x: u64, y: u64| #[trigger] has_pair(b, x, y) == has_pair(a, x, y),
        forall|x: u64, y: u64|
            has_pair(a, x, y) ==> #[trigger] pair_index(b, x, y) == pair_index(a, x, y),
        forall|c: ContactConstraint| #[trigger] resolves(b, c) == resolves(a, c),
{
    assert forall|i: int, j: int| 0 <= i < j < b.len() implies !(#[trigger] b[i]).joins(
        (#[trigger] b[j]).collider1,
        b[j].collider2,
    ) by {
        assert(!a[i].joins(a[j].collider1, a[j].collider2));
    }
    assert forall|x: u64, y: u64| #[trigger] has_pair(b, x, y) == has_pair(a, x, y) by {
        if has_pair(a, x, y) {
            let i = pair_index(a, x, y);
            assert(b[i].joins(x, y));
        }
        if has_pair(b, x, y) {
            let i = pair_index(b, x, y);
            assert(a[i].joins(x, y));
        }
    }
    assert forall|x: u64, y: u64| has_pair(a, x, y) implies #[trigger] pair_index(b, x, y)
        == pair_index(a, x, y) by {
        let i = pair_index(a, x, y);
        assert(b[i].joins(x, y));
        lemma_pair_index_unique(b, x, y, i);
    }
    assert forall|c: ContactConstraint| #[trigger] resolves(b, c) == resolves(a, c) by {
        if has_pair(a, c.collider1, c.collider2) {
            let i = pair_index(a, c.collider1, c.collider2);
            assert(b[i].joins(c.collider1, c.collider2));
            lemma_pair_index_unique(b, c.collider1, c.collider2, i);
        }
    }
}

/// Writing the impulses of a constraint keeps the shape of the graph.
pub proof fn lemma_store_one_same_shape(pairs: Seq<PairView>, constraint: ContactConstraint)
    requires
        resolves(pairs, constraint),
    ensures
        same_shape(pairs, store_one(pairs, constraint)),
{
    let after = store_one(pairs, constraint);
    let at = pair_index(pairs, constraint.collider1, constraint.collider2);
    assert(0 <= at < pairs.len());
    assert forall|p: int| 0 <= p < pairs.len() implies {
        &&& (#[trigger] pairs[p]).collider1 == after[p].collider1
        &&& pairs[p].collider2 == after[p].collider2
        &&& pairs[p].manifolds.len() == after[p].manifolds.len()
        &&& forall|m: int|
            0 <= m < pairs[p].manifolds.len() ==> {
                &&& (#[trigger] pairs[p].manifolds[m]).len() == after[p].manifolds[m].len()
                &&& forall|k: int|
                    0 <= k < pairs[p].manifolds[m].len() ==> (#[trigger] pairs[p].manifolds[m][k]).feature_id
                        == after[p].manifolds[m][k].feature_id
            }
    } by {
        if p == at {
            assert forall|m: int| 0 <= m < pairs[p].manifolds.len() implies {
                &&& (#[trigger] pairs[p].manifolds[m]).len() == after[p].manifolds[m].len()
                &&& forall|k: int|
                    0 <= k < pairs[p].manifolds[m].len() ==> (#[trigger] pairs[p].manifolds[m][k]).feature_id
                        == after[p].manifolds[m][k].feature_id
            } by {}
        }
    }
}

/// Writing the impulses of several constraints keeps the shape of the
/// graph: no pair, manifold or point is added, dropped or moved, and every
/// point keeps its feature.
pub proof fn law_store_keeps_shape(pairs: Seq<PairView>, constraints: Seq<ContactConstraint>)
    requires
        pairs_distinct(pairs),
        all_resolve(pairs, constraints),
    ensures
        same_shape(pairs, store_all(pairs, constraints)),
        pairs_distinct(store_all(pairs, constraints)),
    decreases constraints.len(),
{
    if constraints.len() == 0 {
    } else {
        let front = constraints.drop_last();
        let last = constraints.last();
        assert forall|i: int| 0 <= i < front.len() implies resolves(pairs, #[trigger] front[i]) by {
            assert(front[i] == constraints[i]);
        }
        law_store_keeps_shape(pairs, front);
        let mid = store_all(pairs, front);
        lemma_same_shape_same_pairs(pairs, mid);
        assert(resolves(pairs, last));
        assert(resolves(mid, last));
        lemma_store_one_same_shape(mid, last);
        lemma_same_shape_trans(pairs, mid, store_one(mid, last));
        lemma_same_shape_same_pairs(pairs, store_one(mid, last));
    }
}

/// Having the same shape carries over from one graph to the next.
pub proof fn lemma_same_shape_trans(a: Seq<PairView>, b: Seq<PairView>, c: Seq<PairView>)
    requires
        same_shape(a, b),
        same_shape(b, c),
    ensures
        same_shape(a, c),
{
    assert forall|p: int| 0 <= p < a.len() implies {
        &&& (#[trigger] a[p]).collider1 == c[p].collider1
        &&& a[p].collider2 == c[p].collider2
        &&& a[p].manifolds.len() == c[p].manifolds.len()
        &&& forall|m: int|
            0 <= m < a[p].manifolds.len() ==> {
                &&& (#[trigger] a[p].manifolds[m]).len() == c[p].manifolds[m].len()
                &&& forall|k: int|
                    0 <= k < a[p].manifolds[m].len() ==> (#[trigger] a[p].manifolds[m][k]).feature_id
                        == c[p].manifolds[m][k].feature_id
            }
    } by {
        assert(a[p].collider1 == b[p].collider1);
        assert(b[p].collider1 == c[p].collider1);
        assert forall|m: int| 0 <= m < a[p].manifolds.len() implies {
            &&& (#[trigger] a[p].manifolds[m]).len() == c[p].manifolds[m].len()
            &&& forall|k: int|
                0 <= k < a[p].manifolds[m].len() ==> (#[trigger] a[p].manifolds[m][k]).feature_id
                    == c[p].manifolds[m][k].feature_id
        } by {
            assert(a[p].manifolds[m].len() == b[p].manifolds[m].len());
            assert(b[p].manifolds[m].len() == c[p].manifolds[m].len());
            assert forall|k: int| 0 <= k < a[p].manifolds[m].len() implies (
            #[trigger] a[p].manifolds[m][k]).feature_id == c[p].manifolds[m][k].feature_id by {
                assert(a[p].manifolds[m][k].feature_id == b[p].manifolds[m][k].feature_id);
                assert(b[p].manifolds[m][k].feature_id == c[p].manifolds[m][k].feature_id);
            }
        }
    }
}

/// The colliders of one manifold of a step, and the features that made its
/// contact points.
#[derive(Clone, Debug, PartialEq, Eq)]
pub struct ManifoldKey {
    /// One collider.
    pub collider1: u64,
    /// The other collider.
    pub collider2: u64,
    /// The features of the contact points, in order.
    pub features: Vec<u32>,
}

/// The points of the manifold at `place` of the pair of `a` and `b`; no
/// points where `pairs` holds no such manifold.
pub open spec fn kept_points(pairs: Seq<PairView>, a: u64, b: u64, place: int) -> Seq<ContactPoint> {
    if has_pair(pairs, a, b) && 0 <= place < pairs[pair_index(pairs, a, b)].manifolds.len() {
        pairs[pair_index(pairs, a, b)].manifolds[place]
    } else {
        Seq::empty()
    }
}

/// The place that the next manifold of the pair of `a` and `b` takes: the
/// number of manifolds that the pair has so far.
pub open spec fn next_place(pairs: Seq<PairView>, a: u64, b: u64) -> int {
    if has_pair(pairs, a, b) {
        pairs[pair_index(pairs, a, b)].manifolds.len() as int
    } else {
        0
    }
}

/// The graph with one more manifold for the pair of `a` and `b`: behind
/// the manifolds of the pair where the graph holds it, and as the first
/// manifold of a new last pair otherwise.
pub open spec fn with_manifold(pairs: Seq<PairView>, a: u64, b: u64, points: Seq<ContactPoint>) -> Seq<
    PairView,
> {
    if has_pair(pairs, a, b) {
        let p = pair_index(pairs, a, b);
        pairs.update(
            p,
            PairView {
                collider1: pairs[p].collider1,
                collider2: pairs[p].collider2,
                manifolds: pairs[p].manifolds.push(points),
            },
        )
    } else {
        pairs.push(PairView { collider1: a, collider2: b, manifolds: seq![points] })
    }
}

/// The graph of a step: the manifolds of `keys`, each pair of colliders
/// where it first occurs and its manifolds in the order of `keys`, and each
/// contact point with the impulse that its feature takes over from the
/// manifold at the same place of the same pair in `previous`, the graph of
/// the step before.
pub open spec fn refreshed(previous: Seq<PairView>, keys: Seq<ManifoldKey>) -> Seq<PairView>
    decreases keys.len(),
{
    if keys.len() == 0 {
        Seq::empty()
    } else {
        let graph = refreshed(previous, keys.drop_last());
        let key = keys.last();
        let place = next_place(graph, key.collider1, key.collider2);
        with_manifold(
            graph,
            key.collider1,
            key.collider2,
            fresh_points(
                kept_points(previous, key.collider1, key.collider2, place),
                key.features@,
            ),
        )
    }
}

/// One more manifold keeps the pairs distinct and at their places, keeps
/// the manifolds that were there, and stands last among the manifolds of
/// its pair.
pub proof fn lemma_with_manifold(pairs: Seq<PairView>, a: u64, b: u64, points: Seq<ContactPoint>)
    requires
        pairs_distinct(pairs),
    ensures
        pairs_distinct(with_manifold(pairs, a, b, points)),
        has_pair(with_manifold(pairs, a, b, points), a, b),
        with_manifold(pairs, a, b, points)[pair_index(
            with_manifold(pairs, a, b, points),
            a,
            b,
        )].manifolds.len() == next_place(pairs, a, b) + 1,
        with_manifold(pairs, a, b, points)[pair_index(
            with_manifold(pairs, a, b, points),
            a,
            b,
        )].manifolds[next_place(pairs, a, b)] == points,
        forall|x: u64, y: u64|
            has_pair(pairs, x, y) ==> {
                &&& #[trigger] has_pair(with_manifold(pairs, a, b, points), x, y)
                &&& pair_index(with_manifold(pairs, a, b, points), x, y) == pair_index(pairs, x, y)
            },
        forall|p: int, m: int|
            0 <= p < pairs.len() && 0 <= m < pairs[p].manifolds.len() ==> #[trigger] with_manifold(
                pairs,
                a,
                b,
                points,
            )[p].manifolds[m] == pairs[p].manifolds[m],
{
    let after = with_manifold(pairs, a, b, points);
    if has_pair(pairs, a, b) {
        let at = pair_index(pairs, a, b);
        assert forall|i: int, j: int| 0 <= i < j < after.len() implies !(#[trigger] after[i]).joins(
            (#[trigger] after[j]).collider1,
            after[j].collider2,
        ) by {
            assert(!pairs[i].joins(pairs[j].collider1, pairs[j].collider2));
        }
        assert(after[at].joins(a, b));
        lemma_pair_index_unique(after, a, b, at);
    } else {
        let at = pairs.len() as int;
        assert forall|i: int, j: int| 0 <= i < j < after.len() implies !(#[trigger] after[i]).joins(
            (#[trigger] after[j]).collider1,
            after[j].collider2,
        ) by {
            if j < pairs.len() {
                assert(!pairs[i].joins(pairs[j].collider1, pairs[j].collider2));
            } else {
                assert(!pairs[i].joins(a, b));
            }
        }
        assert(after[at].joins(a, b));
        lemma_pair_index_unique(after, a, b, at);
    }
    assert forall|x: u64, y: u64| has_pair(pairs, x, y) implies {
        &&& #[trigger] has_pair(after, x, y)
        &&& pair_index(after, x, y) == pair_index(pairs, x, y)
    } by {
        let i = pair_index(pairs, x, y);
        assert(after[i].joins(x, y));
        lemma_pair_index_unique(after, x, y, i);
    }
}

/// The graph of a step holds each pair of colliders once.
pub proof fn lemma_refreshed_distinct(previous: Seq<PairView>, keys: Seq<ManifoldKey>)
    ensures
        pairs_distinct(refreshed(previous, keys)),
    decreases keys.len(),
{
    if keys.len() > 0 {
        let graph = refreshed(previous, keys.drop_last());
        let key = keys.last();
        lemma_refreshed_distinct(previous, keys.drop_last());
        lemma_with_manifold(
            graph,
            key.collider1,
            key.collider2,
            fresh_points(
                kept_points(
                    previous,
                    key.collider1,
                    key.collider2,
                    next_place(graph, key.collider1, key.collider2),
                ),
                key.features@,
            ),
        );
    }
}

/// Every manifold of a step is found in the graph of the step, at the place
/// that it was given when it was added, with the features of its key and
/// the impulses carried over from the step before.
pub proof fn law_refresh_holds_every_manifold(
    previous: Seq<PairView>,
    keys: Seq<ManifoldKey>,
    i: int,
)
    requires
        0 <= i < keys.len(),
    ensures
        pairs_distinct(refreshed(previous, keys)),
        has_pair(refreshed(previous, keys), keys[i].collider1, keys[i].collider2),
        0 <= next_place(refreshed(previous, keys.take(i)), keys[i].collider1, keys[i].collider2)
            < next_place(refreshed(previous, keys), keys[i].collider1, keys[i].collider2),
        kept_points(
            refreshed(previous, keys),
            keys[i].collider1,
            keys[i].collider2,
            next_place(refreshed(previous, keys.take(i)), keys[i].collider1, keys[i].collider2),
        ) == fresh_points(
            kept_points(
                previous,
                keys[i].collider1,
                keys[i].collider2,
                next_place(
                    refreshed(previous, keys.take(i)),
                    keys[i].collider1,
                    keys[i].collider2,
                ),
            ),
            keys[i].features@,
        ),
    decreases keys.len(),
{
    let front = keys.drop_last();
    let last = keys.last();
    let graph = refreshed(previous, front);
    let place_of_last = next_place(graph, last.collider1, last.collider2);
    let points_of_last = fresh_points(
        kept_points(previous, last.collider1, last.collider2, place_of_last),
        last.features@,
    );
    lemma_refreshed_distinct(previous, front);
    lemma_refreshed_distinct(previous, keys);
    lemma_with_manifold(graph, last.collider1, last.collider2, points_of_last);
    let after = refreshed(previous, keys);
    assert(after == with_manifold(graph, last.collider1, last.collider2, points_of_last));
    if i == keys.len() - 1 {
        assert(keys.take(i) =~= front);
    } else {
        assert(front[i] == keys[i]);
        assert(front.take(i) =~= keys.take(i));
        law_refresh_holds_every_manifold(previous, front, i);
        let key = keys[i];
        let at = pair_index(graph, key.collider1, key.collider2);
        assert(has_pair(after, key.collider1, key.collider2));
        assert(pair_index(after, key.collider1, key.collider2) == at);
        let place = next_place(refreshed(previous, keys.take(i)), key.collider1, key.collider2);
        assert(0 <= at < graph.len());
        assert(0 <= place < graph[at].manifolds.len());
        assert(after[at].manifolds[place] == graph[at].manifolds[place]);
        assert(after[at].manifolds.len() >= graph[at].manifolds.len());
    }
}

/// Round trip across steps: a manifold whose points were each made by a
/// feature of their own comes back from a refresh with the impulses that
/// the graph kept for it, provided the step reports the same features for
/// it, in the same order, at the same place of the same pair.
pub proof fn law_refresh_keeps_stored_impulses(
    previous: Seq<PairView>,
    keys: Seq<ManifoldKey>,
    i: int,
)
    requires
        0 <= i < keys.len(),
        features_distinct(
            kept_points(
                previous,
                keys[i].collider1,
                keys[i].collider2,
                next_place(
                    refreshed(previous, keys.take(i)),
                    keys[i].collider1,
                    keys[i].collider2,
                ),
            ),
        ),
        keys[i].features@ == features_of(
            kept_points(
                previous,
                keys[i].collider1,
                keys[i].collider2,
                next_place(
                    refreshed(previous, keys.take(i)),
                    keys[i].collider1,
                    keys[i].collider2,
                ),
            ),
        ),
    ensures
        kept_points(
            refreshed(previous, keys),
            keys[i].collider1,
            keys[i].collider2,
            next_place(refreshed(previous, keys.take(i)), keys[i].collider1, keys[i].collider2),
        ) == kept_points(
            previous,
            keys[i].collider1,
            keys[i].collider2,
            next_place(refreshed(previous, keys.take(i)), keys[i].collider1, keys[i].collider2),
        ),
{
    law_refresh_holds_every_manifold(previous, keys, i);
    law_same_features_keep_impulses(
        kept_points(
            previous,
            keys[i].collider1,
            keys[i].collider2,
            next_place(refreshed(previous, keys.take(i)), keys[i].collider1, keys[i].collider2),
        ),
    );
}

/// Whether two constraints were made for the same manifold of `pairs`.
pub open spec fn same_manifold(
    pairs: Seq<PairView>,
    a: ContactConstraint,
    b: ContactConstraint,
) -> bool {
    &&& pair_index(pairs, a.collider1, a.collider2) == pair_index(pairs, b.collider1, b.collider2)
    &&& a.manifold_index == b.manifold_index
}

/// The points of the manifold that `constraint` was made for.
pub open spec fn manifold_of(pairs: Seq<PairView>, constraint: ContactConstraint) -> Seq<
    ContactPoint,
>
    recommends
        resolves(pairs, constraint),
{
    pairs[pair_index(pairs, constraint.collider1, constraint.collider2)].manifolds[constraint.manifold_index as int]
}

/// What is written is what was accumulated: after the impulses of a
/// constraint were stored, each point of its manifold that has a partner
/// in the constraint holds exactly the impulses that the partner hands on,
/// and every other point of the graph is as it was.
pub proof fn law_store_writes_kept_impulses(pairs: Seq<PairView>, constraint: ContactConstraint)
    requires
        pairs_distinct(pairs),
        resolves(pairs, constraint),
    ensures
        resolves(store_one(pairs, constraint), constraint),
        manifold_of(store_one(pairs, constraint), constraint).len() == manifold_of(
            pairs,
            constraint,
        ).len(),
        forall|k: int|
            0 <= k < manifold_of(pairs, constraint).len() ==> #[trigger] manifold_of(
                store_one(pairs, constraint),
                constraint,
            )[k] == if k < constraint.points@.len() {
                ContactPoint {
                    feature_id: manifold_of(pairs, constraint)[k].feature_id,
                    impulse: constraint.points@[k].kept(),
                }
            } else {
                manifold_of(pairs, constraint)[k]
            },
        forall|p: int, m: int|
            0 <= p < pairs.len() && 0 <= m < pairs[p].manifolds.len() && !(p == pair_index(
                pairs,
                constraint.collider1,
                constraint.collider2,
            ) && m == constraint.manifold_index) ==> #[trigger] store_one(
                pairs,
                constraint,
            )[p].manifolds[m] == pairs[p].manifolds[m],
{
    lemma_store_one_same_shape(pairs, constraint);
    lemma_same_shape_same_pairs(pairs, store_one(pairs, constraint));
}

/// Round trip: the constraint points that start the next step from a
/// manifold hand on the very impulses that were stored to it, point by
/// point, as long as they keep their friction part.
pub proof fn law_store_then_warm_start(pairs: Seq<PairView>, constraint: ContactConstraint)
    requires
        pairs_distinct(pairs),
        resolves(pairs, constraint),
    ensures
        forall|k: int|
            0 <= k < manifold_of(pairs, constraint).len() && k < constraint.points@.len()
                ==> (#[trigger] warm_points_of(
                manifold_of(store_one(pairs, constraint), constraint),
                true,
            )[k]).kept() == constraint.points@[k].kept(),
        forall|k: int|
            0 <= k < manifold_of(pairs, constraint).len() && k < constraint.points@.len()
                ==> (#[trigger] warm_points_of(
                manifold_of(store_one(pairs, constraint), constraint),
                false,
            )[k]).normal_impulse == constraint.points@[k].normal_impulse,
{
    law_store_writes_kept_impulses(pairs, constraint);
    let after = manifold_of(store_one(pairs, constraint), constraint);
    assert forall|k: int|
        0 <= k < manifold_of(pairs, constraint).len() && k < constraint.points@.len() implies (
    #[trigger] warm_points_of(after, true)[k]).kept() == constraint.points@[k].kept() by {
        assert(after[k].impulse == constraint.points@[k].kept());
    }
    assert forall|k: int|
        0 <= k < manifold_of(pairs, constraint).len() && k < constraint.points@.len() implies (
    #[trigger] warm_points_of(after, false)[k]).normal_impulse
        == constraint.points@[k].normal_impulse by {
        assert(after[k].impulse == constraint.points@[k].kept());
    }
}

/// Round trip the other way: storing the points that were started from a
/// manifold, with their friction part and before any solve has changed
/// them, leaves the graph as it is.
pub proof fn law_warm_start_then_store(pairs: Seq<PairView>, constraint: ContactConstraint)
    requires
        pairs_distinct(pairs),
        resolves(pairs, constraint),
        constraint.points@ == warm_points_of(manifold_of(pairs, constraint), true),
    ensures
        store_one(pairs, constraint) == pairs,
{
    let p = pair_index(pairs, constraint.collider1, constraint.collider2);
    let m = constraint.manifold_index as int;
    let points = pairs[p].manifolds[m];
    assert(with_impulses(points, kept_impulses(constraint.points@)) =~= points);
    assert(pairs[p].manifolds.update(m, points) =~= pairs[p].manifolds);
    assert(store_one(pairs, constraint) =~= pairs);
}

/// Whether no constraint behind place `i` of `constraints` was made for
/// the manifold that the constraint at `i` was made for.
pub open spec fn last_for_its_manifold(
    pairs: Seq<PairView>,
    constraints: Seq<ContactConstraint>,
    i: int,
) -> bool {
    forall|j: int|
        i < j < constraints.len() ==> !same_manifold(pairs, constraints[i], #[trigger] constraints[j])
}

/// Whether the manifold of `constraint` in `after` has the points that it
/// had in `before`, and each of them that has a partner in `constraint`
/// holds exactly the impulses that the partner hands on.
pub open spec fn holds_impulses_of(
    before: Seq<PairView>,
    after: Seq<PairView>,
    constraint: ContactConstraint,
) -> bool {
    &&& manifold_of(after, constraint).len() == manifold_of(before, constraint).len()
    &&& forall|k: int|
        0 <= k < manifold_of(before, constraint).len() && k < constraint.points@.len() ==> (
        #[trigger] manifold_of(after, constraint)[k]) == (ContactPoint {
            feature_id: manifold_of(before, constraint)[k].feature_id,
            impulse: constraint.points@[k].kept(),
        })
}

/// When a step ends, the manifold of a constraint holds the impulses of
/// that constraint, provided no later constraint was made for the same
/// manifold.
pub proof fn law_store_all_lands(pairs: Seq<PairView>, constraints: Seq<ContactConstraint>, i: int)
    requires
        pairs_distinct(pairs),
        all_resolve(pairs, constraints),
        0 <= i < constraints.len(),
        forall|j: int|
            i < j < constraints.len() ==> !same_manifold(
                pairs,
                constraints[i],
                #[trigger] constraints[j],
            ),
    ensures
        manifold_of(store_all(pairs, constraints), constraints[i]).len() == manifold_of(
            pairs,
            constraints[i],
        ).len(),
        forall|k: int|
            0 <= k < manifold_of(pairs, constraints[i]).len() && k < constraints[i].points@.len()
                ==> (#[trigger] manifold_of(store_all(pairs, constraints), constraints[i])[k])
                == (ContactPoint {
                feature_id: manifold_of(pairs, constraints[i])[k].feature_id,
                impulse: constraints[i].points@[k].kept(),
            }),
    decreases constraints.len(),
{
    let front = constraints.drop_last();
    let last = constraints.last();
    let target = constraints[i];
    assert forall|j: int| 0 <= j < front.len() implies resolves(pairs, #[trigger] front[j]) by {
        assert(front[j] == constraints[j]);
    }
    law_store_keeps_shape(pairs, front);
    let mid = store_all(pairs, front);
    lemma_same_shape_same_pairs(pairs, mid);
    assert(resolves(pairs, last));
    assert(resolves(pairs, target));
    law_store_writes_kept_impulses(mid, last);
    let p = pair_index(pairs, target.collider1, target.collider2);
    let m = target.manifold_index as int;
    assert(pair_index(mid, target.collider1, target.collider2) == p);
    assert(0 <= p < pairs.len());
    assert(mid[p].manifolds.len() == pairs[p].manifolds.len());
    assert(mid[p].manifolds[m].len() == pairs[p].manifolds[m].len());
    lemma_store_one_same_shape(mid, last);
    lemma_same_shape_same_pairs(mid, store_one(mid, last));
    if i == constraints.len() - 1 {
        assert forall|k: int|
            0 <= k < manifold_of(pairs, target).len() && k < target.points@.len() implies (
        #[trigger] manifold_of(store_all(pairs, constraints), target)[k]) == (ContactPoint {
            feature_id: manifold_of(pairs, target)[k].feature_id,
            impulse: target.points@[k].kept(),
        }) by {
            assert(mid[p].manifolds[m][k].feature_id == pairs[p].manifolds[m][k].feature_id);
        }
    } else {
        assert forall|j: int| i < j < front.len() implies !same_manifold(
            pairs,
            front[i],
            #[trigger] front[j],
        ) by {
            assert(front[j] == constraints[j]);
        }
        assert(front[i] == target);
        law_store_all_lands(pairs, front, i);
        assert(!same_manifold(pairs, target, constraints[constraints.len() - 1]));
        assert(pair_index(mid, last.collider1, last.collider2) == pair_index(
            pairs,
            last.collider1,
            last.collider2,
        ));
        assert(store_one(mid, last)[p].manifolds[m] == mid[p].manifolds[m]);
    }
}

/// The contact graph: the contact pairs, each pair of colliders at most
/// once.
pub struct ContactGraph {
    pairs: Vec<ContactPair>,
}

impl View for ContactGraph {
    type V = Seq<PairView>;

    closed spec fn view(&self) -> Seq<PairView> {
        Seq::new(self.pairs@.len(), |i: int| self.pairs@[i]@)
    }
}

impl ContactGraph {
    /// No pair of colliders occurs twice.
    pub open spec fn wf(&self) -> bool {
        pairs_distinct(self@)
    }

    #[verifier::type_invariant]
    spec fn distinct(&self) -> bool {
        pairs_distinct(self@)
    }

    /// A graph without contact pairs.
    pub fn new() -> (graph: ContactGraph)
        ensures
            graph.wf(),
            graph@ == Seq::<PairView>::empty(),
    {
        ContactGraph { pairs: Vec::new() }
    }

    /// The number of contact pairs.
    pub fn len(&self) -> (n: usize)
        ensures
            self.wf(),
            n == self@.len(),
    {
        proof {
            use_type_invariant(self);
        }
        self.pairs.len()
    }

    /// The place of the pair of `a` and `b`, in either order.
    pub fn find_pair(&self, a: u64, b: u64) -> (place: Option<usize>)
        ensures
            self.wf(),
            match place {
                Some(i) => has_pair(self@, a, b) && i == pair_index(self@, a, b) && i < self@.len(),
                None => !has_pair(self@, a, b),
            },
    {
        proof {
            use_type_invariant(self);
        }
        let mut i: usize = 0;
        while i < self.pairs.len()
            invariant
                i <= self.pairs@.len(),
                self.wf(),
                forall|j: int| 0 <= j < i ==> !(#[trigger] self@[j]).joins(a, b),
            decreases self.pairs@.len() - i,
        {
            let pair = &self.pairs[i];
            if (pair.collider1 == a && pair.collider2 == b) || (pair.collider1 == b
                && pair.collider2 == a) {
                proof {
                    lemma_pair_index_unique(self@, a, b, i as int);
                }
                return Some(i);
            }
            i = i + 1;
        }
        None
    }

    /// The pair of `a` and `b`, in either order.
    pub fn get(&self, a: u64, b: u64) -> (pair: Option<&ContactPair>)
        ensures
            self.wf(),
            match pair {
                Some(p) => has_pair(self@, a, b) && p@ == self@[pair_index(self@, a, b)],
                None => !has_pair(self@, a, b),
            },
    {
        match self.find_pair(a, b) {
            Some(i) => Some(&self.pairs[i]),
            None => None,
        }
    }

    /// Gives the pair of `a` and `b` the manifolds `manifolds`: in place
    /// where the graph holds the pair, as a new last pair otherwise.
    pub fn set_manifolds(&mut self, a: u64, b: u64, manifolds: Vec<ContactManifold>)
        ensures
            old(self).wf(),
            final(self).wf(),
            has_pair(old(self)@, a, b) ==> final(self)@ == old(self)@.update(
                pair_index(old(self)@, a, b),
                PairView {
                    collider1: old(self)@[pair_index(old(self)@, a, b)].collider1,
                    collider2: old(self)@[pair_index(old(self)@, a, b)].collider2,
                    manifolds: Seq::new(manifolds@.len(), |i: int| manifolds@[i]@),
                },
            ),
            !has_pair(old(self)@, a, b) ==> final(self)@ == old(self)@.push(
                PairView {
                    collider1: a,
                    collider2: b,
                    manifolds: Seq::new(manifolds@.len(), |i: int| manifolds@[i]@),
                },
            ),
    {
        proof {
            use_type_invariant(&*self);
        }
        match self.find_pair(a, b) {
            Some(i) => {
                let ghost given = Seq::new(manifolds@.len(), |k: int| manifolds@[k]@);
                let mut pairs: Vec<ContactPair> = Vec::new();
                core::mem::swap(&mut self.pairs, &mut pairs);
                pairs[i].manifolds = manifolds;
                proof {
                    let expected = old(self)@.update(
                        i as int,
                        PairView {
                            collider1: old(self)@[i as int].collider1,
                            collider2: old(self)@[i as int].collider2,
                            manifolds: given,
                        },
                    );
                    let updated = Seq::new(pairs@.len(), |k: int| pairs@[k]@);
                    assert(updated[i as int].manifolds =~= given);
                    assert(updated =~= expected);
                    assert(pairs_distinct(updated)) by {
                        assert forall|x: int, y: int| 0 <= x < y < updated.len() implies !(
                        #[trigger] updated[x]).joins(
                            (#[trigger] updated[y]).collider1,
                            updated[y].collider2,
                        ) by {
                            assert(!old(self)@[x].joins(
                                old(self)@[y].collider1,
                                old(self)@[y].collider2,
                            ));
                        }
                    }
                }
                core::mem::swap(&mut self.pairs, &mut pairs);
            },
            None => {
                let mut pairs: Vec<ContactPair> = Vec::new();
                core::mem::swap(&mut self.pairs, &mut pairs);
                pairs.push(ContactPair { collider1: a, collider2: b, manifolds });
                proof {
                    let grown = Seq::new(pairs@.len(), |k: int| pairs@[k]@);
                    assert(grown =~= old(self)@.push(pairs@[pairs@.len() - 1]@));
                    assert(pairs_distinct(grown));
                }
                core::mem::swap(&mut self.pairs, &mut pairs);
                proof {
                    let expected = old(self)@.push(
                        PairView {
                            collider1: a,
                            collider2: b,
                            manifolds: Seq::new(manifolds@.len(), |k: int| manifolds@[k]@),
                        },
                    );
                    assert(self@ =~= expected);
                }
            },
        }
    }

    /// The manifold at `place` of the pair of `a` and `b`, where the graph
    /// holds one.
    pub fn manifold(&self, a: u64, b: u64, place: usize) -> (manifold: Option<&ContactManifold>)
        ensures
            self.wf(),
            match manifold {
                Some(found) => {
                    &&& has_pair(self@, a, b)
                    &&& place < self@[pair_index(self@, a, b)].manifolds.len()
                    &&& found@ == self@[pair_index(self@, a, b)].manifolds[place as int]
                },
                None => !(has_pair(self@, a, b) && place < self@[pair_index(
                    self@,
                    a,
                    b,
                )].manifolds.len()),
            },
            match manifold {
                Some(found) => found@ == kept_points(self@, a, b, place as int),
                None => kept_points(self@, a, b, place as int) == Seq::<ContactPoint>::empty(),
            },
    {
        match self.find_pair(a, b) {
            Some(i) => {
                if place < self.pairs[i].manifolds.len() {
                    Some(&self.pairs[i].manifolds[place])
                } else {
                    None
                }
            },
            None => None,
        }
    }

    /// Adds a manifold for the pair of `a` and `b`: behind the manifolds
    /// of the pair where the graph holds it, and as the first manifold of
    /// a new last pair otherwise. Returns the place of the manifold among
    /// the manifolds of its pair.
    pub fn add_manifold(&mut self, a: u64, b: u64, manifold: ContactManifold) -> (place: usize)
        ensures
            old(self).wf(),
            final(self).wf(),
            final(self)@ == with_manifold(old(self)@, a, b, manifold@),
            place == next_place(old(self)@, a, b),
    {
        proof {
            use_type_invariant(&*self);
            lemma_with_manifold(self@, a, b, manifold@);
        }
        let ghost points = manifold@;
        let found = self.find_pair(a, b);
        let mut pairs: Vec<ContactPair> = Vec::new();
        core::mem::swap(&mut self.pairs, &mut pairs);
        let place: usize = match found {
            Some(i) => {
                let place: usize = pairs[i].manifolds.len();
                pairs[i].manifolds.push(manifold);
                proof {
                    let grown = Seq::new(pairs@.len(), |k: int| pairs@[k]@);
                    let expected = with_manifold(old(self)@, a, b, points);
                    assert(grown[i as int].manifolds =~= old(self)@[i as int].manifolds.push(
                        points,
                    ));
                    assert(grown =~= expected);
                }
                place
            },
            None => {
                let mut manifolds: Vec<ContactManifold> = Vec::new();
                manifolds.push(manifold);
                pairs.push(ContactPair { collider1: a, collider2: b, manifolds });
                proof {
                    let grown = Seq::new(pairs@.len(), |k: int| pairs@[k]@);
                    let expected = with_manifold(old(self)@, a, b, points);
                    assert(grown[grown.len() - 1].manifolds =~= seq![points]);
                    assert(grown =~= expected);
                }
                0
            },
        };
        core::mem::swap(&mut self.pairs, &mut pairs);
        place
    }

    /// Makes the graph of a step from the graph of the step before: the
    /// manifolds of `keys` take its place, each contact point with the
    /// impulse that its feature takes over from the manifold at the same
    /// place of the same pair. Returns for each key, in order, the place of
    /// its manifold among the manifolds of its pair.
    pub fn refresh(&mut self, keys: &Vec<ManifoldKey>) -> (places: Vec<usize>)
        ensures
            old(self).wf(),
            final(self).wf(),
            final(self)@ == refreshed(old(self)@, keys@),
            places@.len() == keys@.len(),
            forall|i: int|
                0 <= i < keys@.len() ==> #[trigger] places@[i] == next_place(
                    refreshed(old(self)@, keys@.take(i)),
                    keys@[i].collider1,
                    keys@[i].collider2,
                ),
    {
        proof {
            use_type_invariant(&*self);
        }
        let mut next = ContactGraph::new();
        let mut places: Vec<usize> = Vec::new();
        let mut i: usize = 0;
        while i < keys.len()
            invariant
                i <= keys@.len(),
                self@ == old(self)@,
                self.wf(),
                next.wf(),
                next@ == refreshed(old(self)@, keys@.take(i as int)),
                places@.len() == i,
                forall|j: int|
                    0 <= j < i ==> #[trigger] places@[j] == next_place(
                        refreshed(old(self)@, keys@.take(j)),
                        keys@[j].collider1,
                        keys@[j].collider2,
                    ),
            decreases keys@.len() - i,
        {
            let key = &keys[i];
            let place: usize = match next.find_pair(key.collider1, key.collider2) {
                Some(p) => next.pairs[p].manifolds.len(),
                None => 0,
            };
            let manifold = ContactManifold::carried_over(
                &key.features,
                self.manifold(key.collider1, key.collider2, place),
            );
            proof {
                let done = keys@.take(i as int);
                let more = keys@.take(i + 1);
                assert(more.drop_last() =~= done);
                assert(more.last() == keys@[i as int]);
            }
            next.add_manifold(key.collider1, key.collider2, manifold);
            places.push(place);
            i = i + 1;
        }
        proof {
            assert(keys@.take(keys@.len() as int) =~= keys@);
        }
        *self = next;
        places
    }

    /// Takes the pair of `a` and `b` out of the graph, where it holds one;
    /// the other pairs keep their order.
    pub fn remove_pair(&mut self, a: u64, b: u64) -> (removed: bool)
        ensures
            old(self).wf(),
            final(self).wf(),
            removed == has_pair(old(self)@, a, b),
            removed ==> final(self)@ == old(self)@.remove(pair_index(old(self)@, a, b)),
            !removed ==> final(self)@ == old(self)@,
    {
        match self.find_pair(a, b) {
            Some(i) => {
                let mut pairs: Vec<ContactPair> = Vec::new();
                core::mem::swap(&mut self.pairs, &mut pairs);
                pairs.remove(i);
                proof {
                    let shrunk = Seq::new(pairs@.len(), |k: int| pairs@[k]@);
                    assert(shrunk =~= old(self)@.remove(i as int));
                    assert(pairs_distinct(shrunk));
                }
                core::mem::swap(&mut self.pairs, &mut pairs);
                proof {
                    assert(self@ =~= old(self)@.remove(i as int));
                }
                true
            },
            None => false,
        }
    }

    /// Whether the graph holds the manifold that `constraint` was made for.
    pub fn resolves_constraint(&self, constraint: &ContactConstraint) -> (r: bool)
        ensures
            self.wf(),
            r == resolves(self@, *constraint),
    {
        match self.find_pair(constraint.collider1, constraint.collider2) {
            Some(i) => constraint.manifold_index < self.pairs[i].manifolds.len(),
            None => false,
        }
    }

    /// Whether the graph holds the manifold of each of `constraints`.
    pub fn resolves_all(&self, constraints: &ContactConstraints) -> (r: bool)
        ensures
            self.wf(),
            r == all_resolve(self@, constraints.0@),
    {
        proof {
            use_type_invariant(self);
        }
        let mut i: usize = 0;
        while i < constraints.0.len()
            invariant
                i <= constraints.0@.len(),
                self.wf(),
                forall|j: int| 0 <= j < i ==> resolves(self@, #[trigger] constraints.0@[j]),
            decreases constraints.0@.len() - i,
        {
            if !self.resolves_constraint(&constraints.0[i]) {
                return false;
            }
            i = i + 1;
        }
        true
    }

    /// Writes the impulses of `constraint` to the points of its manifold,
    /// index by index.
    pub fn store_constraint(&mut self, constraint: &ContactConstraint)
        requires
            resolves(old(self)@, *constraint),
        ensures
            old(self).wf(),
            final(self).wf(),
            final(self)@ == store_one(old(self)@, *constraint),
    {
        let p: usize = self.find_pair(constraint.collider1, constraint.collider2).unwrap();
        let m: usize = constraint.manifold_index;
        let mut pairs: Vec<ContactPair> = Vec::new();
        core::mem::swap(&mut self.pairs, &mut pairs);
        let in_manifold: usize = pairs[p].manifolds[m].points.len();
        let in_constraint: usize = constraint.points.len();
        let n: usize = if in_manifold < in_constraint {
            in_manifold
        } else {
            in_constraint
        };
        let ghost before = pairs@;
        let ghost kept = kept_impulses(constraint.points@);
        let mut k: usize = 0;
        while k < n
            invariant
                k <= n,
                n <= in_manifold,
                n <= in_constraint,
                in_constraint == constraint.points@.len(),
                kept == kept_impulses(constraint.points@),
                p < before.len(),
                m < before[p as int].manifolds@.len(),
                in_manifold == before[p as int].manifolds@[m as int].points@.len(),
                pairs@.len() == before.len(),
                forall|q: int| 0 <= q < before.len() && q != p ==> pairs@[q] == before[q],
                pairs@[p as int].collider1 == before[p as int].collider1,
                pairs@[p as int].collider2 == before[p as int].collider2,
                pairs@[p as int].manifolds@.len() == before[p as int].manifolds@.len(),
                forall|o: int|
                    0 <= o < before[p as int].manifolds@.len() && o != m
                        ==> pairs@[p as int].manifolds@[o] == before[p as int].manifolds@[o],
                pairs@[p as int].manifolds@[m as int].points@.len() == in_manifold,
                forall|i: int|
                    0 <= i < in_manifold ==> #[trigger] pairs@[p as int].manifolds@[m as int].points@[i]
                        == if i < k {
                        ContactPoint {
                            feature_id: before[p as int].manifolds@[m as int].points@[i].feature_id,
                            impulse: kept[i],
                        }
                    } else {
                        before[p as int].manifolds@[m as int].points@[i]
                    },
            decreases n - k,
        {
            let impulse = constraint.points[k].kept_impulse();
            pairs[p].manifolds[m].points[k].impulse = impulse;
            k = k + 1;
        }
        proof {
            let expected = store_one(old(self)@, *constraint);
            let at = pair_index(old(self)@, constraint.collider1, constraint.collider2);
            let got = Seq::new(pairs@.len(), |q: int| pairs@[q]@);
            assert(at == p);
            assert(got.len() == expected.len());
            assert forall|q: int| 0 <= q < expected.len() implies got[q] == expected[q] by {
                if q == p {
                    let have = got[q].manifolds;
                    let want = expected[q].manifolds;
                    assert(have.len() == want.len());
                    assert forall|o: int| 0 <= o < want.len() implies have[o] == want[o] by {
                        if o == m {
                            assert(have[o] =~= want[o]);
                        } else {
                            assert(have[o] == before[p as int].manifolds@[o]@);
                        }
                    }
                    assert(have =~= want);
                } else {
                    assert(pairs@[q] == before[q]);
                }
            }
            assert(got =~= expected);
            lemma_store_one_same_shape(old(self)@, *constraint);
            lemma_same_shape_same_pairs(old(self)@, expected);
        }
        core::mem::swap(&mut self.pairs, &mut pairs);
    }
}

/// Copies the impulses that the constraints have accumulated to the contact
/// points of their manifolds, the first constraint first, so that the next
/// step can start from them.
///
/// Point `k` of a constraint goes to point `k` of its manifold; where the
/// two have different numbers of points, the points without a partner stay
/// as they are. A point without a friction part hands on a friction
/// impulse of zero.
pub fn store_contact_impulses(constraints: &ContactConstraints, graph: &mut ContactGraph)
    requires
        all_resolve(old(graph)@, constraints.0@),
    ensures
        old(graph).wf(),
        final(graph).wf(),
        final(graph)@ == store_all(old(graph)@, constraints.0@),
        forall|i: int|
            0 <= i < constraints.0@.len() && last_for_its_manifold(old(graph)@, constraints.0@, i)
                ==> #[trigger] holds_impulses_of(
                old(graph)@,
                final(graph)@,
                constraints.0@[i],
            ),
{
    proof {
        use_type_invariant(&*graph);
        assert forall|i: int|
            0 <= i < constraints.0@.len() && last_for_its_manifold(
                old(graph)@,
                constraints.0@,
                i,
            ) implies #[trigger] holds_impulses_of(
            old(graph)@,
            store_all(old(graph)@, constraints.0@),
            constraints.0@[i],
        ) by {
            law_store_all_lands(old(graph)@, constraints.0@, i);
        }
    }
    let mut i: usize = 0;
    while i < constraints.0.len()
        invariant
            i <= constraints.0@.len(),
            old(graph).wf(),
            all_resolve(old(graph)@, constraints.0@),
            graph.wf(),
            graph@ == store_all(old(graph)@, constraints.0@.take(i as int)),
        decreases constraints.0@.len() - i,
    {
        proof {
            let done = constraints.0@.take(i as int);
            assert forall|j: int| 0 <= j < done.len() implies resolves(
                old(graph)@,
                #[trigger] done[j],
            ) by {
                assert(done[j] == constraints.0@[j]);
            }
            law_store_keeps_shape(old(graph)@, done);
            lemma_same_shape_same_pairs(old(graph)@, graph@);
            assert(resolves(old(graph)@, constraints.0@[i as int]));
            let next = constraints.0@.take(i + 1);
            assert(next.drop_last() =~= done);
            assert(next.last() == constraints.0@[i as int]);
        }
        graph.store_constraint(&constraints.0[i]);
        i = i + 1;
    }
    proof {
        assert(constraints.0@.take(constraints.0@.len() as int) =~= constraints.0@);
    }
}

} // verus!
