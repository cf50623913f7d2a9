//! Voxel-grid downsampling: which points share a voxel.
//!
//! A voxel is named by three unsigned integers, the number of voxel widths
//! that lie between the cloud's lower corner and the point along each axis.
//! Downsampling replaces the points of each voxel by their mean; which points
//! those are is decided here.

use crate::cloud::PointCloud;
use crate::error::CloudError;
use crate::point::Point;
use crate::scalar::{is_nan, less_or_equal, FloatData};
use crate::vector::Vector3;
use std::collections::HashMap;
use vstd::prelude::*;

verus! {

broadcast use vstd::std_specs::hash::group_hash_axioms;

/// The name of a voxel.
pub type VoxelKey = (u32, u32, u32);

/// The member lists that a list of groups holds.
pub open spec fn groups_view(groups: Seq<Vec<usize>>) -> Seq<Seq<usize>> {
    groups.map_values(|g: Vec<usize>| g@)
}

/// Whether `groups` sorts the indices of `keys` by key:
/// every group is a non-empty, ascending list of indices that share a key;
/// different groups have different keys; the groups stand in the order in
/// which their first members occur; and every index is in a group.
pub open spec fn is_grouping(keys: Seq<VoxelKey>, groups: Seq<Seq<usize>>) -> bool {
    &&& forall|g: int| 0 <= g < groups.len() ==> (#[trigger] groups[g]).len() > 0
    &&& forall|g: int, k: int|
        0 <= g < groups.len() && 0 <= k < groups[g].len() ==> (#[trigger] groups[g][k])
            < keys.len() && keys[groups[g][k] as int] == keys[groups[g][0] as int]
    &&& forall|g: int, k: int, l: int|
        0 <= g < groups.len() && 0 <= k < l < groups[g].len() ==> (#[trigger] groups[g][k]) < (
        #[trigger] groups[g][l])
    &&& forall|g1: int, g2: int|
        0 <= g1 < g2 < groups.len() ==> (#[trigger] groups[g1])[0] < (#[trigger] groups[g2])[0]
            && keys[groups[g1][0] as int] != keys[groups[g2][0] as int]
    &&& forall|i: int| 0 <= i < keys.len() ==> #[trigger] has_member(groups, i)
}

/// Whether index `i` is a member of one of the groups.
pub open spec fn has_member(groups: Seq<Seq<usize>>, i: int) -> bool {
    exists|g: int, k: int|
        0 <= g < groups.len() && 0 <= k < groups[g].len() && #[trigger] groups[g][k] == i
}

/// Whether a cloud can be sorted into voxels: it has more than two points, and
/// there is one key per point.
pub open spec fn voxel_input_ok(points: nat, keys: nat) -> bool {
    points > 2 && keys == points
}

/// The three parts of a voxel's name as one number.
pub open spec fn packed(key: VoxelKey) -> u128 {
    (key.0 as u128 * 0x1_0000_0000_0000_0000 + key.1 as u128 * 0x1_0000_0000 + key.2 as u128) as u128
}

fn pack(key: VoxelKey) -> (p: u128)
    ensures
        p == packed(key),
{
    key.0 as u128 * 0x1_0000_0000_0000_0000 + key.1 as u128 * 0x1_0000_0000 + key.2 as u128
}

/// The smaller of two scalars, as the comparison `a <= b` decides it: `b`
/// whenever the comparison is false, and so whenever either is a NaN.
pub open spec fn lower<S: FloatData>(a: S, b: S) -> S {
    if less_or_equal(a, b) {
        a
    } else {
        b
    }
}

/// The corner below two corners: the smaller coordinate on each axis.
pub open spec fn lower_corner<S: FloatData>(a: Vector3<S>, b: Vector3<S>) -> Vector3<S> {
    Vector3 { x: lower(a.x, b.x), y: lower(a.y, b.y), z: lower(a.z, b.z) }
}

/// The lower corner of a cloud: starting from the first point, the corner
/// below it and each further point in turn.
pub open spec fn min_bound<T: Point>(data: Seq<T>) -> Vector3<T::Item>
    decreases data.len(),
{
    if data.len() <= 1 {
        data[0].spec_xyz()
    } else {
        lower_corner(min_bound(data.drop_last()), data.last().spec_xyz())
    }
}

/// Whether no coordinate of a position is a NaN.
pub open spec fn is_number<S: FloatData>(v: Vector3<S>) -> bool {
    !is_nan(v.x) && !is_nan(v.y) && !is_nan(v.z)
}

/// In a cloud without NaN coordinates, the lower corner lies at or below
/// every point on every axis, and is itself without NaN.
pub proof fn lemma_min_bound_is_lower<T: Point>(data: Seq<T>, i: int)
    requires
        0 <= i < data.len(),
        forall|k: int| 0 <= k < data.len() ==> is_number((#[trigger] data[k]).spec_xyz()),
    ensures
        is_number(min_bound(data)),
        less_or_equal(min_bound(data).x, data[i].spec_xyz().x),
        less_or_equal(min_bound(data).y, data[i].spec_xyz().y),
        less_or_equal(min_bound(data).z, data[i].spec_xyz().z),
    decreases data.len(),
{
    if data.len() > 1 {
        let rest = data.drop_last();
        assert forall|k: int| 0 <= k < rest.len() implies is_number(
            (#[trigger] rest[k]).spec_xyz(),
        ) by {
            assert(rest[k] == data[k]);
        }
        if i < rest.len() {
            lemma_min_bound_is_lower(rest, i);
        } else {
            lemma_min_bound_is_lower(rest, 0);
        }
    }
}

fn lower_of<S: FloatData>(a: S, b: S) -> (m: S)
    ensures
        m == lower(a, b),
{
    if a.le(&b) {
        a
    } else {
        b
    }
}

impl<T: Point> PointCloud<T> {
    /// The lower corner of the cloud, from which voxels are counted; `None`
    /// for the empty cloud.
    pub fn min_bound(&self) -> (corner: Option<Vector3<T::Item>>)
        ensures
            match corner {
                Some(v) => self.data@.len() > 0 && v == min_bound(self.data@),
                None => self.data@.len() == 0,
            },
    {
        if self.data.len() == 0 {
            return None;
        }
        let mut corner = *self.data[0].xyz();
        proof {
            assert(self.data@.take(1).len() == 1);
        }
        let mut i: usize = 1;
        while i < self.data.len()
            invariant
                1 <= i <= self.data@.len(),
                corner == min_bound(self.data@.take(i as int)),
            decreases self.data@.len() - i,
        {
            let p = *self.data[i].xyz();
            proof {
                assert(self.data@.take(i + 1).drop_last() =~= self.data@.take(i as int));
            }
            corner = Vector3::new(
                lower_of(corner.x, p.x),
                lower_of(corner.y, p.y),
                lower_of(corner.z, p.z),
            );
            i += 1;
        }
        proof {
            assert(self.data@.take(i as int) =~= self.data@);
        }
        Some(corner)
    }

    /// Sorts the points into voxels, given the voxel of each point.
    ///
    /// Returns one group per voxel that holds a point: the indices of its
    /// points, ascending. The groups stand in the order in which the voxels
    /// first occur in the cloud. Fails with `InvalidInput` on a cloud of fewer
    /// than three points, and where `keys` is not one key per point.
    pub fn voxel_grid_filter(&self, keys: &Vec<VoxelKey>) -> (r: Result<
        Vec<Vec<usize>>,
        CloudError,
    >)
        ensures
            match r {
                Ok(groups) => voxel_input_ok(self.data@.len(), keys@.len()) && is_grouping(
                    keys@,
                    groups_view(groups@),
                ),
                Err(e) => e == CloudError::InvalidInput && !voxel_input_ok(
                    self.data@.len(),
                    keys@.len(),
                ),
            },
    {
        if self.data.len() <= 2 || keys.len() != self.data.len() {
            return Err(CloudError::InvalidInput);
        }
        Ok(group_by_key(keys))
    }
}

/// Sorts the indices of `keys` by key.
pub fn group_by_key(keys: &Vec<VoxelKey>) -> (groups: Vec<Vec<usize>>)
    ensures
        is_grouping(keys@, groups_view(groups@)),
{
    let mut groups: Vec<Vec<usize>> = Vec::new();
    let mut index: HashMap<u128, usize> = HashMap::new();
    let ghost mut home: Seq<(int, int)> = Seq::empty();
    let mut i: usize = 0;
    while i < keys.len()
        invariant
            i <= keys@.len(),
            home.len() == i,
            forall|g: int| 0 <= g < groups@.len() ==> (#[trigger] groups@[g])@.len() > 0,
            forall|g: int, k: int|
                0 <= g < groups@.len() && 0 <= k < groups@[g]@.len() ==> (#[trigger] groups@[g]@[k])
                    < i && keys@[groups@[g]@[k] as int] == keys@[groups@[g]@[0] as int],
            forall|g: int, k: int, l: int|
                0 <= g < groups@.len() && 0 <= k < l < groups@[g]@.len() ==> (
                #[trigger] groups@[g]@[k]) < (#[trigger] groups@[g]@[l]),
            forall|g1: int, g2: int|
                0 <= g1 < g2 < groups@.len() ==> (#[trigger] groups@[g1])@[0] < (
                #[trigger] groups@[g2])@[0] && keys@[groups@[g1]@[0] as int]
                    != keys@[groups@[g2]@[0] as int],
            forall|j: int|
                0 <= j < i ==> 0 <= (#[trigger] home[j]).0 < groups@.len() && 0 <= home[j].1
                    < groups@[home[j].0]@.len() && groups@[home[j].0]@[home[j].1] == j,
            forall|g: int|
                0 <= g < groups@.len() ==> index@.contains_key(
                    #[trigger] packed(keys@[groups@[g]@[0] as int]),
                ) && index@[packed(keys@[groups@[g]@[0] as int])] == g,
            forall|p: u128| #[trigger]
                index@.contains_key(p) ==> index@[p] < groups@.len() && packed(
                    keys@[groups@[index@[p] as int]@[0] as int],
                ) == p,
        decreases keys@.len() - i,
    {
        let key = keys[i];
        let p = pack(key);
        let found: Option<usize> = match index.get(&p) {
            Some(g) => Some(*g),
            None => None,
        };
        match found {
            Some(g) => {
                proof {
                    assert(index@.contains_key(p));
                    lemma_packed_injective(key, keys@[groups@[g as int]@[0] as int]);
                }
                let ghost before = groups@;
                let ghost last = groups@[g as int]@.len() - 1;
                proof {
                    assert(before[g as int]@[last] < i);
                }
                let members = &mut groups[g];
                members.push(i);
                proof {
                    home = home.push((g as int, last + 1));
                    assert forall|a: int| 0 <= a < groups@.len() implies groups@[a]@.len()
                        >= before[a]@.len() && (forall|k: int|
                        0 <= k < before[a]@.len() ==> groups@[a]@[k] == before[a]@[k]) by {
                        if a != g {
                            assert(groups@[a] == before[a]);
                        }
                    }
                    assert forall|a: int, k: int|
                        0 <= a < groups@.len() && 0 <= k < groups@[a]@.len() implies (
                    #[trigger] groups@[a]@[k]) < i + 1 && keys@[groups@[a]@[k] as int]
                        == keys@[groups@[a]@[0] as int] by {
                        if a == g && k == last + 1 {
                        } else {
                            assert(groups@[a]@[k] == before[a]@[k]);
                            assert(groups@[a]@[0] == before[a]@[0]);
                        }
                    }
                    assert forall|a: int, k: int, l: int|
                        0 <= a < groups@.len() && 0 <= k < l < groups@[a]@.len() implies (
                    #[trigger] groups@[a]@[k]) < (#[trigger] groups@[a]@[l]) by {
                        assert(groups@[a]@[k] == before[a]@[k]);
                        if a == g && l == last + 1 {
                            assert(before[a]@[k] < i);
                        } else {
                            assert(groups@[a]@[l] == before[a]@[l]);
                        }
                    }
                    assert forall|a: int, b: int| 0 <= a < b < groups@.len() implies (
                    #[trigger] groups@[a])@[0] < (#[trigger] groups@[b])@[0]
                        && keys@[groups@[a]@[0] as int] != keys@[groups@[b]@[0] as int] by {
                        assert(groups@[a]@[0] == before[a]@[0]);
                        assert(groups@[b]@[0] == before[b]@[0]);
                    }
                    assert forall|j: int| 0 <= j < i + 1 implies 0 <= (#[trigger] home[j]).0
                        < groups@.len() && 0 <= home[j].1 < groups@[home[j].0]@.len()
                        && groups@[home[j].0]@[home[j].1] == j by {
                        if j < i {
                            assert(groups@[home[j].0]@[home[j].1] == before[home[j].0]@[home[j].1]);
                        }
                    }
                    assert forall|a: int| 0 <= a < groups@.len() implies index@.contains_key(
                        #[trigger] packed(keys@[groups@[a]@[0] as int]),
                    ) && index@[packed(keys@[groups@[a]@[0] as int])] == a by {
                        assert(groups@[a]@[0] == before[a]@[0]);
                    }
                    assert forall|q: u128| #[trigger] index@.contains_key(q) implies index@[q]
                        < groups@.len() && packed(keys@[groups@[index@[q] as int]@[0] as int])
                        == q by {
                        assert(groups@[index@[q] as int]@[0] == before[index@[q] as int]@[0]);
                    }
                }
            },
            None => {
                let ghost before = groups@;
                let ghost old_index = index@;
                let mut members: Vec<usize> = Vec::new();
                members.push(i);
                let g = groups.len();
                groups.push(members);
                index.insert(p, g);
                proof {
                    home = home.push((g as int, 0));
                    assert forall|a: int| 0 <= a < g implies groups@[a] == before[a] by {}
                    assert forall|a: int, b: int| 0 <= a < b < groups@.len() implies (
                    #[trigger] groups@[a])@[0] < (#[trigger] groups@[b])@[0]
                        && keys@[groups@[a]@[0] as int] != keys@[groups@[b]@[0] as int] by {
                        assert(groups@[a] == before[a]);
                        if b == g {
                            assert(before[a]@[0] < i);
                            assert(old_index.contains_key(packed(keys@[before[a]@[0] as int])));
                        } else {
                            assert(groups@[b] == before[b]);
                        }
                    }
                    assert forall|a: int| 0 <= a < groups@.len() implies index@.contains_key(
                        #[trigger] packed(keys@[groups@[a]@[0] as int]),
                    ) && index@[packed(keys@[groups@[a]@[0] as int])] == a by {
                        if a < g {
                            assert(groups@[a] == before[a]);
                            assert(old_index.contains_key(packed(keys@[before[a]@[0] as int])));
                        }
                    }
                    assert forall|q: u128| #[trigger] index@.contains_key(q) implies index@[q]
                        < groups@.len() && packed(keys@[groups@[index@[q] as int]@[0] as int])
                        == q by {
                        if q != p {
                            assert(old_index.contains_key(q));
                            assert(groups@[index@[q] as int] == before[index@[q] as int]);
                        }
                    }
                }
            },
        }
        i += 1;
    }
    proof {
        let view = groups_view(groups@);
        assert forall|j: int| 0 <= j < keys@.len() implies #[trigger] has_member(view, j) by {
            assert(view[home[j].0][home[j].1] == j);
        }
    }
    groups
}

/// There are no more voxels than points.
pub proof fn lemma_group_count(keys: Seq<VoxelKey>, groups: Seq<Seq<usize>>)
    requires
        is_grouping(keys, groups),
    ensures
        groups.len() <= keys.len(),
{
    if groups.len() > 0 {
        lemma_first_members(keys, groups, groups.len() - 1);
        let last = groups.len() - 1;
        assert(groups[last][0] < keys.len());
    }
}

/// The first member of group `g` is at least `g`.
proof fn lemma_first_members(keys: Seq<VoxelKey>, groups: Seq<Seq<usize>>, g: int)
    requires
        is_grouping(keys, groups),
        0 <= g < groups.len(),
    ensures
        groups[g][0] >= g,
    decreases g,
{
    if g > 0 {
        lemma_first_members(keys, groups, g - 1);
        assert(groups[g - 1][0] < groups[g][0]);
    }
}

/// Member `k` of a group is at least `k`.
proof fn lemma_members_grow(keys: Seq<VoxelKey>, groups: Seq<Seq<usize>>, g: int, k: int)
    requires
        is_grouping(keys, groups),
        0 <= g < groups.len(),
        0 <= k < groups[g].len(),
    ensures
        groups[g][k] >= k,
    decreases k,
{
    if k > 0 {
        lemma_members_grow(keys, groups, g, k - 1);
        assert(groups[g][k - 1] < groups[g][k]);
    }
}

/// A cloud whose points all lie in one voxel has one group, and the group
/// holds every point.
pub proof fn lemma_single_voxel(keys: Seq<VoxelKey>, groups: Seq<Seq<usize>>)
    requires
        is_grouping(keys, groups),
        keys.len() > 0,
        forall|i: int| 0 <= i < keys.len() ==> #[trigger] keys[i] == keys[0],
    ensures
        groups.len() == 1,
        groups[0] == Seq::new(keys.len(), |i: int| i as usize),
{
    assert(has_member(groups, 0));
    if groups.len() > 1 {
        assert(groups[0][0] < keys.len());
        assert(groups[1][0] < keys.len());
        assert(keys[groups[0][0] as int] != keys[groups[1][0] as int]);
    }
    let group = groups[0];
    assert forall|i: int| 0 <= i < keys.len() implies i < group.len() && #[trigger] group[i]
        == i by {
        lemma_member_position(keys, groups, i);
    }
    if group.len() > keys.len() {
        lemma_members_grow(keys, groups, 0, group.len() - 1);
        assert(groups[0][group.len() - 1] < keys.len());
    }
    lemma_member_position(keys, groups, keys.len() - 1);
    assert(group.len() == keys.len());
    assert(group =~= Seq::new(keys.len(), |i: int| i as usize));
}

/// In a single group that holds every index, index `i` stands at place `i`.
proof fn lemma_member_position(keys: Seq<VoxelKey>, groups: Seq<Seq<usize>>, i: int)
    requires
        is_grouping(keys, groups),
        groups.len() == 1,
        0 <= i < keys.len(),
    ensures
        i < groups[0].len(),
        groups[0][i] == i,
    decreases i,
{
    let group = groups[0];
    assert(has_member(groups, i));
    let (g, k) = choose|g: int, k: int|
        0 <= g < groups.len() && 0 <= k < groups[g].len() && #[trigger] groups[g][k] == i;
    assert(g == 0);
    lemma_members_grow(keys, groups, 0, k);
    // k <= i, and every place before k holds a smaller index: those are the
    // indices before i, each at its own place.
    if k < i {
        lemma_member_position(keys, groups, i - 1);
        assert(group[i - 1] == i - 1);
        if k < i - 1 {
            assert(group[k] < group[i - 1]);
        }
    }
}

/// Two ascending lists with the same items are the same list.
proof fn lemma_ascending_equal(s: Seq<usize>, t: Seq<usize>)
    requires
        forall|k: int, l: int| 0 <= k < l < s.len() ==> s[k] < s[l],
        forall|k: int, l: int| 0 <= k < l < t.len() ==> t[k] < t[l],
        forall|x: usize| s.contains(x) <==> t.contains(x),
    ensures
        s == t,
    decreases s.len(),
{
    if s.len() == 0 {
        if t.len() > 0 {
            assert(t.contains(t[0]));
        }
        assert(s =~= t);
    } else {
        let top = s.last();
        assert(s.contains(top));
        assert(t.contains(top));
        assert(t.len() > 0);
        assert(t.contains(t.last()));
        assert(s.contains(t.last()));
        let i = choose|i: int| 0 <= i < s.len() && s[i] == t.last();
        let j = choose|j: int| 0 <= j < t.len() && t[j] == top;
        assert(t.last() == top) by {
            if i < s.len() - 1 {
                assert(s[i] < s[s.len() - 1]);
            }
            if j < t.len() - 1 {
                assert(t[j] < t[t.len() - 1]);
            }
        }
        let s1 = s.drop_last();
        let t1 = t.drop_last();
        assert forall|x: usize| s1.contains(x) <==> t1.contains(x) by {
            if s1.contains(x) {
                let a = choose|a: int| 0 <= a < s1.len() && s1[a] == x;
                assert(s[a] == x);
                assert(s[a] < s[s.len() - 1]);
                assert(s.contains(x));
                let b = choose|b: int| 0 <= b < t.len() && t[b] == x;
                assert(b < t.len() - 1);
                assert(t1[b] == x);
            }
            if t1.contains(x) {
                let b = choose|b: int| 0 <= b < t1.len() && t1[b] == x;
                assert(t[b] == x);
                assert(t[b] < t[t.len() - 1]);
                assert(t.contains(x));
                let a = choose|a: int| 0 <= a < s.len() && s[a] == x;
                assert(a < s.len() - 1);
                assert(s1[a] == x);
            }
        }
        lemma_ascending_equal(s1, t1);
        assert(s =~= s1.push(top));
        assert(t =~= t1.push(top));
    }
}

/// The first members of the groups, in the order of the groups.
pub open spec fn first_members(groups: Seq<Seq<usize>>) -> Seq<usize> {
    Seq::new(groups.len(), |g: int| groups[g][0])
}

/// Whether no index before `i` has the key of index `i`.
pub open spec fn is_first_occurrence(keys: Seq<VoxelKey>, i: int) -> bool {
    0 <= i < keys.len() && forall|j: int| 0 <= j < i ==> #[trigger] keys[j] != keys[i]
}

/// In a grouping, the indices that share the key of a group are its members.
proof fn lemma_same_key_same_group(
    keys: Seq<VoxelKey>,
    groups: Seq<Seq<usize>>,
    g: int,
    j: int,
)
    requires
        is_grouping(keys, groups),
        0 <= g < groups.len(),
        0 <= j < keys.len(),
        keys[j] == keys[groups[g][0] as int],
    ensures
        groups[g].contains(j as usize),
        j <= usize::MAX,
{
    assert(has_member(groups, j));
    let (g2, k2) = choose|g2: int, k2: int|
        0 <= g2 < groups.len() && 0 <= k2 < groups[g2].len() && #[trigger] groups[g2][k2] == j;
    assert(keys[groups[g2][k2] as int] == keys[groups[g2][0] as int]);
    if g2 < g {
        assert(keys[groups[g2][0] as int] != keys[groups[g][0] as int]);
    }
    if g < g2 {
        assert(keys[groups[g][0] as int] != keys[groups[g2][0] as int]);
    }
    assert(groups[g][k2] == j as usize);
}

/// In a grouping, the first members of the groups are the first occurrences
/// of the keys.
proof fn lemma_first_members_are_first_occurrences(
    keys: Seq<VoxelKey>,
    groups: Seq<Seq<usize>>,
    x: usize,
)
    requires
        is_grouping(keys, groups),
    ensures
        first_members(groups).contains(x) <==> is_first_occurrence(keys, x as int),
{
    let firsts = first_members(groups);
    if firsts.contains(x) {
        let g = choose|g: int| 0 <= g < firsts.len() && firsts[g] == x;
        assert(groups[g].len() > 0);
        assert(groups[g][0] < keys.len());
        assert forall|j: int| 0 <= j < x implies #[trigger] keys[j] != keys[x as int] by {
            if keys[j] == keys[x as int] {
                lemma_same_key_same_group(keys, groups, g, j);
                let k = choose|k: int| 0 <= k < groups[g].len() && groups[g][k] == j as usize;
                if k > 0 {
                    assert(groups[g][0] < groups[g][k]);
                }
            }
        }
    }
    if is_first_occurrence(keys, x as int) {
        assert(has_member(groups, x as int));
        let (g, k) = choose|g: int, k: int|
            0 <= g < groups.len() && 0 <= k < groups[g].len() && #[trigger] groups[g][k] == x;
        if k > 0 {
            assert(groups[g][0] < groups[g][k]);
            assert(keys[groups[g][k] as int] == keys[groups[g][0] as int]);
            assert(keys[groups[g][0] as int] != keys[x as int]);
        }
        assert(firsts[g] == x);
    }
}

/// The keys decide the grouping: there is one way only to sort the indices of
/// `keys` as `is_grouping` asks.
pub proof fn lemma_grouping_unique(keys: Seq<VoxelKey>, a: Seq<Seq<usize>>, b: Seq<Seq<usize>>)
    requires
        is_grouping(keys, a),
        is_grouping(keys, b),
    ensures
        a == b,
{
    let fa = first_members(a);
    let fb = first_members(b);
    assert forall|x: usize| fa.contains(x) <==> fb.contains(x) by {
        lemma_first_members_are_first_occurrences(keys, a, x);
        lemma_first_members_are_first_occurrences(keys, b, x);
    }
    assert forall|k: int, l: int| 0 <= k < l < fa.len() implies fa[k] < fa[l] by {
        assert(a[k][0] < a[l][0]);
    }
    assert forall|k: int, l: int| 0 <= k < l < fb.len() implies fb[k] < fb[l] by {
        assert(b[k][0] < b[l][0]);
    }
    lemma_ascending_equal(fa, fb);
    assert(fa.len() == a.len() && fb.len() == b.len());
    assert(a.len() == b.len());
    assert forall|g: int| 0 <= g < a.len() implies a[g] == b[g] by {
        assert(fa[g] == fb[g]);
        assert(a[g].len() > 0 && b[g].len() > 0);
        assert(a[g][0] < keys.len() && b[g][0] < keys.len());
        assert forall|x: usize| a[g].contains(x) <==> b[g].contains(x) by {
            if a[g].contains(x) {
                let k = choose|k: int| 0 <= k < a[g].len() && a[g][k] == x;
                assert(a[g][k] < keys.len() && keys[a[g][k] as int] == keys[a[g][0] as int]);
                lemma_same_key_same_group(keys, b, g, x as int);
            }
            if b[g].contains(x) {
                let k = choose|k: int| 0 <= k < b[g].len() && b[g][k] == x;
                assert(b[g][k] < keys.len() && keys[b[g][k] as int] == keys[b[g][0] as int]);
                lemma_same_key_same_group(keys, a, g, x as int);
            }
        }
        lemma_ascending_equal(a[g], b[g]);
    }
    assert(a =~= b);
}

/// Different voxels have different packed names.
proof fn lemma_packed_injective(a: VoxelKey, b: VoxelKey)
    requires
        packed(a) == packed(b),
    ensures
        a == b,
{
}

} // verus!
