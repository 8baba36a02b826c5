//! The output sink of tessellation: triangle mesh plus the two bank
//! polylines, reset before every pass and sorted by arc length when the
//! pass completes.

use vstd::prelude::*;

use crate::vec2::Rgba;
use crate::vec2::Vec2Fx;

verus! {

/// One triangle-mesh vertex: position (z is implicitly zero) and color.
#[derive(Clone, Copy, PartialEq, Eq, Structural, Debug)]
pub struct MeshVertex {
    pub pos: Vec2Fx,
    pub color: Rgba,
}

/// One boundary sample: arc-length parameter and position.
#[derive(Clone, Copy, PartialEq, Eq, Structural, Debug)]
pub struct BankPoint {
    pub t: i64,
    pub pos: Vec2Fx,
}

/// Which side of the path direction a stroke vertex falls on.
#[derive(Clone, Copy, PartialEq, Eq, Structural, Debug)]
pub enum Side {
    /// The left bank.
    Positive,
    /// The right bank.
    Negative,
}

/// Accumulator for one tessellation pass.
#[derive(Clone, Debug)]
pub struct RiverMeshBuilder {
    /// Triangle-mesh vertices, in emission order.
    pub vertices: Vec<MeshVertex>,
    /// Flat triangle connectivity: three vertex indices per triangle.
    pub indices: Vec<usize>,
    /// Boundary samples on the left of the path, sorted once a pass ends.
    pub left_bank: Vec<BankPoint>,
    /// Boundary samples on the right of the path, sorted once a pass ends.
    pub right_bank: Vec<BankPoint>,
}

/// Nothing accumulated: the state after a reset.
pub open spec fn acc_empty(b: RiverMeshBuilder) -> bool {
    &&& b.vertices@.len() == 0
    &&& b.indices@.len() == 0
    &&& b.left_bank@.len() == 0
    &&& b.right_bank@.len() == 0
}

/// Bank samples in ascending arc-length order.
pub open spec fn sorted_by_t(s: Seq<BankPoint>) -> bool {
    forall|i: int, j: int| 0 <= i < j < s.len() ==> #[trigger] s[i].t <= #[trigger] s[j].t
}

/// Every triangle index refers to an existing vertex.
pub open spec fn indices_in_bounds(b: RiverMeshBuilder) -> bool {
    forall|i: int| 0 <= i < b.indices@.len() ==> #[trigger] b.indices@[i] < b.vertices@.len()
}

/// Resetting is idempotent: emptiness pins all four lists, so the state
/// after a reset equals the state after any further reset — resetting
/// twice, or resetting an already empty accumulator, changes nothing.
pub proof fn lemma_reset_idempotent(b1: RiverMeshBuilder, b2: RiverMeshBuilder)
    requires
        acc_empty(b1),
        acc_empty(b2),
    ensures
        b1.vertices@ == b2.vertices@,
        b1.indices@ == b2.indices@,
        b1.left_bank@ == b2.left_bank@,
        b1.right_bank@ == b2.right_bank@,
{
    assert(b1.vertices@ =~= b2.vertices@);
    assert(b1.indices@ =~= b2.indices@);
    assert(b1.left_bank@ =~= b2.left_bank@);
    assert(b1.right_bank@ =~= b2.right_bank@);
}

/// Stable insertion of one bank sample into a sorted prefix.
fn bank_insert(v: &mut Vec<BankPoint>, x: BankPoint)
    requires
        sorted_by_t(old(v)@),
        old(v)@.len() < usize::MAX,
    ensures
        sorted_by_t(final(v)@),
        final(v)@.to_multiset() == old(v)@.to_multiset().insert(x),
        final(v)@.len() == old(v)@.len() + 1,
        (forall|j: int| 0 <= j < old(v)@.len() ==> #[trigger] old(v)@[j].t <= x.t)
            ==> final(v)@ == old(v)@.push(x),
{
    let mut k: usize = 0;
    while k < v.len() && v[k].t <= x.t
        invariant
            k <= v@.len(),
            sorted_by_t(v@),
            v@ == old(v)@,
            forall|j: int| 0 <= j < k ==> #[trigger] v@[j].t <= x.t,
        decreases v@.len() - k,
    {
        k = k + 1;
    }
    proof {
        vstd::seq_lib::to_multiset_insert(v@, k as int, x);
        if forall|j: int| 0 <= j < old(v)@.len() ==> #[trigger] old(v)@[j].t <= x.t {
            assert(k == v@.len());
            assert(v@.insert(k as int, x) =~= v@.push(x));
        }
    }
    v.insert(k, x);
    proof {
        assert(sorted_by_t(v@)) by {
            assert forall|i: int, j: int| 0 <= i < j < v@.len() implies #[trigger] v@[i].t
                <= #[trigger] v@[j].t by {
                if j < k {
                } else if i > k {
                } else if i == k {
                    assert(v@[j] == old(v)@[j - 1]);
                } else if j == k {
                    assert(v@[i] == old(v)@[i]);
                } else {
                    assert(v@[i] == old(v)@[i]);
                    assert(v@[j] == old(v)@[j - 1]);
                    if i < k && k < j {
                        assert(old(v)@[i].t <= x.t);
                    }
                }
            }
        }
    }
}

/// Sort one bank by arc-length parameter, ascending, keeping exactly the
/// same samples; an already-sorted bank comes back unchanged.
fn sort_bank(v: &mut Vec<BankPoint>)
    ensures
        sorted_by_t(final(v)@),
        final(v)@.to_multiset() == old(v)@.to_multiset(),
        final(v)@.len() == old(v)@.len(),
        sorted_by_t(old(v)@) ==> final(v)@ == old(v)@,
{
    let mut out: Vec<BankPoint> = Vec::new();
    let mut i: usize = 0;
    proof {
        assert(v@.take(0) =~= Seq::<BankPoint>::empty());
    }
    while i < v.len()
        invariant
            i <= v@.len(),
            v@ == old(v)@,
            sorted_by_t(out@),
            out@.len() == i,
            out@.to_multiset() == v@.take(i as int).to_multiset(),
            sorted_by_t(v@) ==> out@ == v@.take(i as int),
        decreases v@.len() - i,
    {
        let x = v[i];
        proof {
            assert(v@.take(i + 1) =~= v@.take(i as int).push(v@[i as int]));
            vstd::seq_lib::to_multiset_build(v@.take(i as int), v@[i as int]);
        }
        bank_insert(&mut out, x);
        proof {
            if sorted_by_t(v@) {
                assert(out@ == v@.take(i as int).push(x));
                assert(v@.take(i + 1) =~= v@.take(i as int).push(x));
            }
        }
        i = i + 1;
    }
    proof {
        assert(v@.take(v@.len() as int) =~= v@);
    }
    *v = out;
}

impl RiverMeshBuilder {
    /// Record one triangle by the indices of its three corners.
    pub fn add_triangle(&mut self, a: usize, b: usize, c: usize)
        requires
            a < old(self).vertices@.len(),
            b < old(self).vertices@.len(),
            c < old(self).vertices@.len(),
            old(self).indices@.len() + 3 <= usize::MAX,
        ensures
            final(self).indices@ == old(self).indices@.push(a).push(b).push(c),
            final(self).vertices == old(self).vertices,
            final(self).left_bank == old(self).left_bank,
            final(self).right_bank == old(self).right_bank,
    {
        self.indices.push(a);
        self.indices.push(b);
        self.indices.push(c);
    }

    /// Record one stroke vertex: it joins the mesh, and its arc-length
    /// parameter and position join the bank of its side. Returns the index
    /// under which triangles may refer to it.
    pub fn add_stroke_vertex(&mut self, pos: Vec2Fx, color: Rgba, t: i64, side: Side) -> (i:
        usize)
        requires
            old(self).vertices@.len() < usize::MAX,
            old(self).left_bank@.len() < usize::MAX,
            old(self).right_bank@.len() < usize::MAX,
        ensures
            i == old(self).vertices@.len(),
            final(self).vertices@ == old(self).vertices@.push(MeshVertex { pos, color }),
            final(self).indices == old(self).indices,
            side is Positive ==> final(self).left_bank@ == old(self).left_bank@.push(
                BankPoint { t, pos },
            ) && final(self).right_bank == old(self).right_bank,
            side is Negative ==> final(self).right_bank@ == old(self).right_bank@.push(
                BankPoint { t, pos },
            ) && final(self).left_bank == old(self).left_bank,
    {
        let i = self.vertices.len();
        match side {
            Side::Positive => self.left_bank.push(BankPoint { t, pos }),
            Side::Negative => self.right_bank.push(BankPoint { t, pos }),
        }
        self.vertices.push(MeshVertex { pos, color });
        i
    }

    /// Start of a tessellation pass: nothing to do, the reset is `abort_geometry`.
    pub fn begin_geometry(&mut self)
        ensures
            *final(self) == *old(self),
    {
    }

    /// End of a tessellation pass: both banks are sorted ascending by
    /// arc-length parameter, keeping exactly the accumulated samples.
    pub fn end_geometry(&mut self)
        ensures
            final(self).vertices == old(self).vertices,
            final(self).indices == old(self).indices,
            sorted_by_t(final(self).left_bank@),
            sorted_by_t(final(self).right_bank@),
            final(self).left_bank@.to_multiset() == old(self).left_bank@.to_multiset(),
            final(self).right_bank@.to_multiset() == old(self).right_bank@.to_multiset(),
            final(self).left_bank@.len() == old(self).left_bank@.len(),
            final(self).right_bank@.len() == old(self).right_bank@.len(),
            sorted_by_t(old(self).left_bank@) ==> final(self).left_bank@ == old(
                self,
            ).left_bank@,
            sorted_by_t(old(self).right_bank@) ==> final(self).right_bank@ == old(
                self,
            ).right_bank@,
    {
        sort_bank(&mut self.left_bank);
        sort_bank(&mut self.right_bank);
    }

    /// Reset the accumulator. Always yields the empty accumulator, whatever
    /// state it starts from — so resetting twice, or resetting an already
    /// empty accumulator, is the same as resetting once.
    pub fn abort_geometry(&mut self)
        ensures
            acc_empty(*final(self)),
    {
        self.vertices.clear();
        self.indices.clear();
        self.left_bank.clear();
        self.right_bank.clear();
    }
}

impl Default for RiverMeshBuilder {
    /// A fresh, empty accumulator.
    fn default() -> (r: RiverMeshBuilder)
        ensures
            acc_empty(r),
    {
        RiverMeshBuilder {
            vertices: Vec::new(),
            indices: Vec::new(),
            left_bank: Vec::new(),
            right_bank: Vec::new(),
        }
    }
}

} // verus!
