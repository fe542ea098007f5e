//! Skeletons: which joints make up an arm, a leg and the upper body, and which loaded clips
//! make up a set.
use vstd::prelude::*;

verus! {

/// Whether every joint comes after its parent.
pub open spec fn is_skeleton(parents: Seq<Option<usize>>) -> bool {
    forall|j: int|
        0 <= j < parents.len() ==> (#[trigger] parents[j] matches Some(p) ==> p < j)
}

/// Whether joint `a` is joint `j` or lies above it.
pub open spec fn is_above(parents: Seq<Option<usize>>, a: int, j: int) -> bool
    decreases j,
{
    a == j || (0 <= j < parents.len() && match parents[j] {
        Some(p) => p < j && is_above(parents, a, p as int),
        None => false,
    })
}

/// A chain of three joints: the end, the one above it, and the one above that.
#[derive(Clone, Copy, PartialEq, Eq, Debug, Structural)]
pub struct Chain {
    pub root: usize,
    pub mid: usize,
    pub end: usize,
}

/// The chain that ends at a joint, if it has two joints above it.
pub open spec fn chain_to(parents: Seq<Option<usize>>, end: usize) -> Option<Chain> {
    if end >= parents.len() {
        None
    } else {
        match parents[end as int] {
            Some(mid) => if mid >= parents.len() {
                None
            } else {
                match parents[mid as int] {
                    Some(root) => Some(Chain { root, mid, end }),
                    None => None,
                }
            },
            None => None,
        }
    }
}

fn find_chain(parents: &Vec<Option<usize>>, end: usize) -> (c: Option<Chain>)
    ensures
        c == chain_to(parents@, end),
{
    if end >= parents.len() {
        return None;
    }
    match parents[end] {
        Some(mid) => if mid >= parents.len() {
            None
        } else {
            match parents[mid] {
                Some(root) => Some(Chain { root, mid, end }),
                None => None,
            }
        },
        None => None,
    }
}

fn lies_above(parents: &Vec<Option<usize>>, a: usize, j: usize) -> (b: bool)
    requires
        is_skeleton(parents@),
        j < parents@.len(),
    ensures
        b == is_above(parents@, a as int, j as int),
{
    let mut k: usize = j;
    loop
        invariant
            is_skeleton(parents@),
            k < parents@.len(),
            is_above(parents@, a as int, j as int) == is_above(parents@, a as int, k as int),
        decreases k,
    {
        if k == a {
            return true;
        }
        match parents[k] {
            Some(p) => {
                assert(parents@[k as int] == Some(p));
                k = p;
            },
            None => return false,
        }
    }
}

/// Whether `c` is the lowest joint above both `a` and `b`.
pub open spec fn is_lowest_common(parents: Seq<Option<usize>>, a: int, b: int, c: int) -> bool {
    &&& 0 <= c < parents.len()
    &&& is_above(parents, c, a) && is_above(parents, c, b)
    &&& forall|d: int|
        c < d < parents.len() ==> !(#[trigger] is_above(parents, d, a) && is_above(parents, d, b))
}

/// The joints of a hunter's body that the animation acts on.
pub struct Rig {
    pub arm: Chain,
    pub chest: usize,
    /// Which joints belong to the upper body.
    pub upper_body: Vec<bool>,
    pub left_leg: Chain,
    pub right_leg: Chain,
    pub head: usize,
    pub pelvis: usize,
}

/// The joints of a skeleton that go by a name the rig needs, where it has them.
#[derive(Clone, Copy, PartialEq, Eq, Debug, Structural)]
pub struct NamedJoints {
    pub right_hand: Option<usize>,
    pub left_hand: Option<usize>,
    pub head: Option<usize>,
    pub pelvis: Option<usize>,
    pub left_foot: Option<usize>,
    pub right_foot: Option<usize>,
}

/// Whether every joint that was named is there.
pub open spec fn names_hold(parents: Seq<Option<usize>>, n: NamedJoints) -> bool {
    &&& n.right_hand matches Some(j) ==> j < parents.len()
    &&& n.left_hand matches Some(j) ==> j < parents.len()
    &&& n.head matches Some(j) ==> j < parents.len()
    &&& n.pelvis matches Some(j) ==> j < parents.len()
    &&& n.left_foot matches Some(j) ==> j < parents.len()
    &&& n.right_foot matches Some(j) ==> j < parents.len()
}

/// Whether a skeleton has all that the rig needs: the named joints, two joints above the hand
/// and above each foot, and a joint above both hands.
pub open spec fn can_rig(parents: Seq<Option<usize>>, n: NamedJoints) -> bool {
    &&& n.right_hand is Some && chain_to(parents, n.right_hand->0) is Some
    &&& n.left_hand is Some
    &&& exists|c: int| #[trigger]
        is_lowest_common(parents, n.right_hand->0 as int, n.left_hand->0 as int, c)
    &&& n.head is Some
    &&& n.pelvis is Some
    &&& n.left_foot is Some && chain_to(parents, n.left_foot->0) is Some
    &&& n.right_foot is Some && chain_to(parents, n.right_foot->0) is Some
}

fn lowest_common(parents: &Vec<Option<usize>>, a: usize, b: usize) -> (c: Option<usize>)
    requires
        is_skeleton(parents@),
        a < parents@.len(),
        b < parents@.len(),
    ensures
        match c {
            Some(c) => is_lowest_common(parents@, a as int, b as int, c as int),
            None => forall|c: int| !is_lowest_common(parents@, a as int, b as int, c),
        },
{
    let mut k: usize = parents.len();
    while k > 0
        invariant
            k <= parents@.len(),
            is_skeleton(parents@),
            a < parents@.len(),
            b < parents@.len(),
            forall|d: int|
                k <= d < parents@.len() ==> !(#[trigger] is_above(parents@, d, a as int)
                    && is_above(parents@, d, b as int)),
        decreases k,
    {
        k = k - 1;
        if lies_above(parents, k, a) && lies_above(parents, k, b) {
            return Some(k);
        }
    }
    None
}

fn below(parents: &Vec<Option<usize>>, top: usize) -> (mask: Vec<bool>)
    requires
        is_skeleton(parents@),
    ensures
        mask@ == Seq::new(parents@.len(), |j: int| is_above(parents@, top as int, j)),
{
    let mut mask: Vec<bool> = Vec::new();
    let mut k: usize = 0;
    while k < parents.len()
        invariant
            k <= parents@.len(),
            is_skeleton(parents@),
            mask@.len() == k,
            forall|j: int| 0 <= j < k ==> #[trigger] mask@[j] == is_above(parents@, top as int, j),
        decreases parents@.len() - k,
    {
        mask.push(lies_above(parents, top, k));
        k = k + 1;
    }
    assert(mask@ =~= Seq::new(parents@.len(), |j: int| is_above(parents@, top as int, j)));
    mask
}

impl Rig {
    /// Finds the joints of the rig: the right arm, the legs, and the upper body, which is
    /// everything below the lowest joint above both hands. There is none when the skeleton
    /// lacks something.
    pub fn resolve(parents: &Vec<Option<usize>>, n: NamedJoints) -> (r: Option<Rig>)
        requires
            is_skeleton(parents@),
            names_hold(parents@, n),
        ensures
            r is Some <==> can_rig(parents@, n),
            r matches Some(rig) ==> {
                &&& Some(rig.arm) == chain_to(parents@, n.right_hand->0)
                &&& is_lowest_common(
                    parents@,
                    n.right_hand->0 as int,
                    n.left_hand->0 as int,
                    rig.chest as int,
                )
                &&& rig.upper_body@ == Seq::new(
                    parents@.len(),
                    |j: int| is_above(parents@, rig.chest as int, j),
                )
                &&& Some(rig.left_leg) == chain_to(parents@, n.left_foot->0)
                &&& Some(rig.right_leg) == chain_to(parents@, n.right_foot->0)
                &&& Some(rig.head) == n.head
                &&& Some(rig.pelvis) == n.pelvis
            },
    {
        let hand: usize = match n.right_hand {
            Some(j) => j,
            None => return None,
        };
        let arm: Chain = match find_chain(parents, hand) {
            Some(c) => c,
            None => return None,
        };
        let other: usize = match n.left_hand {
            Some(j) => j,
            None => return None,
        };
        let chest: usize = match lowest_common(parents, hand, other) {
            Some(c) => c,
            None => return None,
        };
        let upper_body: Vec<bool> = below(parents, chest);
        let head: usize = match n.head {
            Some(j) => j,
            None => return None,
        };
        let pelvis: usize = match n.pelvis {
            Some(j) => j,
            None => return None,
        };
        let left_foot: usize = match n.left_foot {
            Some(j) => j,
            None => return None,
        };
        let left_leg: Chain = match find_chain(parents, left_foot) {
            Some(c) => c,
            None => return None,
        };
        let right_foot: usize = match n.right_foot {
            Some(j) => j,
            None => return None,
        };
        let right_leg: Chain = match find_chain(parents, right_foot) {
            Some(c) => c,
            None => return None,
        };
        Some(Rig { arm, chest, upper_body, left_leg, right_leg, head, pelvis })
    }
}

/// Both hands belong to the upper body.
pub proof fn hands_are_in_the_upper_body(
    parents: Seq<Option<usize>>,
    a: int,
    b: int,
    chest: int,
)
    requires
        is_lowest_common(parents, a, b, chest),
    ensures
        is_above(parents, chest, a),
        is_above(parents, chest, b),
{
}

/// Makes a set of clips out of those that were loaded: all of them or none, because a set with
/// a gap in it would play the wrong clip from there on.
pub fn load_anim_template(loaded: &Vec<Option<u64>>) -> (set: Option<Vec<u64>>)
    ensures
        set is Some <==> forall|k: int| 0 <= k < loaded@.len() ==> #[trigger] loaded@[k] is Some,
        set matches Some(s) ==> s@ == loaded@.map_values(|c: Option<u64>| c->0),
{
    let mut s: Vec<u64> = Vec::new();
    let mut k: usize = 0;
    while k < loaded.len()
        invariant
            k <= loaded@.len(),
            s@.len() == k,
            forall|j: int| 0 <= j < k ==> #[trigger] loaded@[j] is Some,
            forall|j: int| 0 <= j < k ==> #[trigger] s@[j] == loaded@[j]->0,
        decreases loaded@.len() - k,
    {
        match loaded[k] {
            Some(c) => {
                s.push(c);
            },
            None => {
                assert(loaded@[k as int] is None);
                return None;
            },
        }
        k = k + 1;
    }
    assert(s@ =~= loaded@.map_values(|c: Option<u64>| c->0));
    Some(s)
}

/// Where the direction of a barrel is taken from.
#[derive(Clone, Copy, PartialEq, Eq, Debug, Structural)]
pub enum BarrelSource {
    /// The muzzle that the weapon's author marked.
    Authored,
    /// The convention of Perfect Dark's weapons.
    PdConvention,
    /// The muzzle flash of the model.
    Measured,
    /// The convention of the other models.
    Convention,
}

/// Decides where the direction of a barrel is taken from. For a Perfect Dark weapon `authored`
/// tells whether its author marked a muzzle apart from the grip; for another `muzzle` tells
/// whether its model has a muzzle flash apart from the grip. The shape of the gun itself says
/// nothing about which end is the muzzle.
pub fn resolve_barrel_axis(authored: Option<bool>, muzzle: bool) -> (s: BarrelSource)
    ensures
        s == match authored {
            Some(true) => BarrelSource::Authored,
            Some(false) => BarrelSource::PdConvention,
            None => if muzzle {
                BarrelSource::Measured
            } else {
                BarrelSource::Convention
            },
        },
{
    match authored {
        Some(a) => if a {
            BarrelSource::Authored
        } else {
            BarrelSource::PdConvention
        },
        None => if muzzle {
            BarrelSource::Measured
        } else {
            BarrelSource::Convention
        },
    }
}

/// A chain ends at the joint asked for and goes up over its parent to that one's parent; there is
/// none where one of them is missing.
pub proof fn chains_go_up_two_joints(parents: Seq<Option<usize>>, end: usize)
    requires
        is_skeleton(parents),
        end < parents.len(),
    ensures
        chain_to(parents, end) matches Some(c) ==> {
            &&& c.end == end && c.root < c.mid < c.end
            &&& parents[c.end as int] == Some(c.mid) && parents[c.mid as int] == Some(c.root)
        },
        chain_to(parents, end) is None <==> parents[end as int] is None
            || parents[parents[end as int]->0 as int] is None,
{
}

/// A joint is above itself and above whatever hangs from a joint it is above, and above nothing
/// that is not below it; a skeleton has no joint above one with a lower number but itself.
pub proof fn what_hangs_from_a_joint_is_below_it(parents: Seq<Option<usize>>, a: int, j: int)
    requires
        is_skeleton(parents),
        0 <= j < parents.len(),
    ensures
        is_above(parents, j, j),
        parents[j] matches Some(p) ==> (a != j ==> (is_above(parents, a, j) <==> is_above(
            parents,
            a,
            p as int,
        ))),
        parents[j] is None && a != j ==> !is_above(parents, a, j),
        is_above(parents, a, j) ==> 0 <= a <= j,
    decreases j,
{
    if let Some(p) = parents[j] {
        what_hangs_from_a_joint_is_below_it(parents, a, p as int);
    }
}

/// The upper body hangs from the joint above both hands that no other such joint hangs from: a
/// joint above both hands is above the chest too.
pub proof fn the_chest_is_the_lowest_above_both_hands(
    parents: Seq<Option<usize>>,
    a: int,
    b: int,
    chest: int,
    other: int,
)
    requires
        is_skeleton(parents),
        0 <= a < parents.len(),
        0 <= b < parents.len(),
        is_lowest_common(parents, a, b, chest),
    ensures
        is_above(parents, chest, a) && is_above(parents, chest, b),
        is_above(parents, other, a) && is_above(parents, other, b) ==> is_above(
            parents,
            other,
            chest,
        ) && other <= chest,
{
    if is_above(parents, other, a) && is_above(parents, other, b) {
        what_hangs_from_a_joint_is_below_it(parents, other, a);
        what_hangs_from_a_joint_is_below_it(parents, chest, a);
        assert(other <= chest);
        lemma_one_line_upward(parents, other, chest, a);
    }
}

proof fn lemma_one_line_upward(parents: Seq<Option<usize>>, c: int, d: int, j: int)
    requires
        is_skeleton(parents),
        0 <= j < parents.len(),
        is_above(parents, c, j),
        is_above(parents, d, j),
        c <= d,
    ensures
        is_above(parents, c, d),
    decreases j,
{
    what_hangs_from_a_joint_is_below_it(parents, c, j);
    what_hangs_from_a_joint_is_below_it(parents, d, j);
    if d != j && c != j {
        lemma_one_line_upward(parents, c, d, parents[j]->0 as int);
    }
}

/// There is a rig when every joint is named, both legs and the right arm have two joints above
/// them, and some joint is above both hands.
pub proof fn a_complete_skeleton_has_a_rig(parents: Seq<Option<usize>>, n: NamedJoints)
    requires
        is_skeleton(parents),
        names_hold(parents, n),
    ensures
        can_rig(parents, n) ==> n.right_hand is Some && n.left_hand is Some && n.head is Some
            && n.pelvis is Some && n.left_foot is Some && n.right_foot is Some,
        can_rig(parents, n) ==> (forall|k: int|
            #![trigger parents[k]]
            k == n.right_hand->0 || k == n.left_foot->0 || k == n.right_foot->0 ==> (parents[k]
                matches Some(p) && parents[p as int] is Some)),
{
}

} // verus!
