//! Dimension-generic vector algebra over a `Field` scalar, and the concrete
//! 3-D vector type with its cross product and component-wise operators.

use vstd::prelude::*;

use crate::field::Field;
use crate::field::trunc_div;

verus! {

/// Whether a mathematical value fits the `i64` scalar field.
pub open spec fn in_i64(x: int) -> bool {
    i64::MIN <= x <= i64::MAX
}

/// The dot product of the first `n` components of `a` and `b`:
/// the sum over `j < n` of `a[j] * b[j]`.
pub open spec fn dot_prefix(a: Seq<int>, b: Seq<int>, n: int) -> int
    recommends
        n <= a.len(),
        n <= b.len(),
    decreases n,
{
    if n <= 0 {
        0
    } else {
        dot_prefix(a, b, n - 1) + a[n - 1] * b[n - 1]
    }
}

/// `r` is the integer square root of `n`: the greatest integer whose
/// square does not exceed `n`.
pub open spec fn is_isqrt(r: int, n: int) -> bool {
    r >= 0 && r * r <= n && (r + 1) * (r + 1) > n
}

/// The component values of the standard 3-D cross product of `a` and `b`.
pub open spec fn cross_vals(a: Seq<int>, b: Seq<int>) -> Seq<int>
    recommends
        a.len() == 3,
        b.len() == 3,
{
    seq![
        a[1] * b[2] - a[2] * b[1],
        a[2] * b[0] - a[0] * b[2],
        a[0] * b[1] - a[1] * b[0],
    ]
}

/// The shape of the `i`-th standard basis vector of dimension `d`: 1 at
/// position `i` and 0 everywhere else.
pub open spec fn is_unit_vals(a: Seq<int>, d: int, i: int) -> bool {
    &&& a.len() == d
    &&& 0 <= i < d
    &&& a[i] == 1
    &&& forall|j: int| 0 <= j < d && j != i ==> a[j] == 0
}

/// A vector of `D` components drawn from the scalar field `F`.
///
/// `vals` mirrors a vector by the sequence of the mathematical values of
/// its components, in basis order; every contract is stated over it.
pub trait Vector<const D: usize, F: Field>: Sized {
    /// The mathematical component values, in basis order.
    spec fn vals(self) -> Seq<int>;

    /// A vector always has exactly `D` components.
    proof fn lemma_dim(self)
        ensures
            self.vals().len() == D,
    ;

    /// Read-only access to the component at `index`.
    fn component(&self, index: usize) -> (r: &F)
        requires
            index < D,
        ensures
            r.sval() == self.vals()[index as int],
    ;

    /// Construction from an exact-length ordered sequence of components.
    fn new(components: [F; D]) -> (r: Self)
        ensures
            r.vals().len() == D,
            forall|j: int| 0 <= j < D ==> #[trigger] r.vals()[j] == components@[j].sval(),
    ;

    /// Construction from the first `D` items of an ordered collection,
    /// which must supply at least `D` items.
    fn from_iter(items: &Vec<F>) -> (r: Self)
        requires
            items@.len() >= D,
        ensures
            r.vals().len() == D,
            forall|j: int| 0 <= j < D ==> #[trigger] r.vals()[j] == items@[j].sval(),
    ;

    /// The zero vector: every component is the additive identity.
    fn zero() -> (r: Self)
        ensures
            r.vals().len() == D,
            forall|j: int| 0 <= j < D ==> #[trigger] r.vals()[j] == 0,
    ;

    /// The `i`-th standard basis vector: the multiplicative identity at
    /// position `i` and the additive identity elsewhere.
    fn unit(i: usize) -> (r: Self)
        requires
            i < D,
        ensures
            is_unit_vals(r.vals(), D as int, i as int),
    ;

    /// Every component multiplied by `scalar`.
    fn scale(&self, scalar: F) -> (r: Self)
        requires
            forall|j: int| 0 <= j < D ==> #[trigger] F::in_range(self.vals()[j] * scalar.sval()),
        ensures
            r.vals().len() == D,
            forall|j: int| 0 <= j < D ==> #[trigger] r.vals()[j] == self.vals()[j] * scalar.sval(),
    ;

    /// The dot product: the sum over `j < D` of `self[j] * rhs[j]`, the one
    /// reduction primitive from which the norm derives.
    fn dot(&self, rhs: &Self) -> (r: F)
        requires
            forall|j: int| 0 <= j < D ==> #[trigger] F::in_range(self.vals()[j] * rhs.vals()[j]),
            forall|j: int| 0 <= j <= D ==> #[trigger] F::in_range(
                dot_prefix(self.vals(), rhs.vals(), j),
            ),
        ensures
            r.sval() == dot_prefix(self.vals(), rhs.vals(), D as int),
    ;

    /// The dot product of the vector with itself.
    fn norm_squared(&self) -> (r: F)
        requires
            forall|j: int| 0 <= j < D ==> #[trigger] F::in_range(self.vals()[j] * self.vals()[j]),
            forall|j: int| 0 <= j <= D ==> #[trigger] F::in_range(
                dot_prefix(self.vals(), self.vals(), j),
            ),
        ensures
            r.sval() == dot_prefix(self.vals(), self.vals(), D as int),
    ;

    /// The vector's length: the integer square root of `norm_squared`,
    /// supplied per concrete type because the scalar contract has no
    /// square-root operation.
    fn norm(&self) -> (r: F)
        requires
            forall|j: int| 0 <= j < D ==> #[trigger] F::in_range(self.vals()[j] * self.vals()[j]),
            forall|j: int| 0 <= j <= D ==> #[trigger] F::in_range(
                dot_prefix(self.vals(), self.vals(), j),
            ),
        ensures
            is_isqrt(r.sval(), dot_prefix(self.vals(), self.vals(), D as int)),
    ;
}

/// The concrete 3-dimensional vector over the exact `i64` scalar field.
#[derive(Debug, Copy, Clone)]
pub struct Vec3D {
    components: [i64; 3],
}

impl PartialEq for Vec3D {
    fn eq(&self, other: &Vec3D) -> (r: bool) {
        let r = self.components[0] == other.components[0] && self.components[1]
            == other.components[1] && self.components[2] == other.components[2];
        proof {
            if r {
                assert(self.comps() =~= other.comps());
            }
        }
        r
    }
}

impl vstd::std_specs::cmp::PartialEqSpecImpl for Vec3D {
    open spec fn obeys_eq_spec() -> bool {
        true
    }

    open spec fn eq_spec(&self, other: &Vec3D) -> bool {
        self.comps() == other.comps()
    }
}

impl Eq for Vec3D {

}

/// The integer square root of `n`, for `n` no greater than `i64::MAX`.
fn isqrt_u64(n: u64) -> (r: u64)
    requires
        n <= i64::MAX,
    ensures
        is_isqrt(r as int, n as int),
{
    let mut r: u64 = 0;
    let mut square: u64 = 0;
    while square + 2 * r + 1 <= n
        invariant
            n <= i64::MAX,
            square == r * r,
            square <= n,
            r <= 3037000499u64,
            r <= n,
        decreases n - r,
    {
        proof {
            assert((r + 1) * (r + 1) == r * r + 2 * r + 1) by (nonlinear_arith);
            assert(r + 1 <= 3037000499u64) by (nonlinear_arith)
                requires
                    (r + 1) * (r + 1) <= n,
                    n <= i64::MAX,
            {
            }
        }
        square = square + 2 * r + 1;
        r = r + 1;
        proof {
            assert(r <= n) by (nonlinear_arith)
                requires
                    r * r <= n,
                    r >= 1,
            {
            }
        }
    }
    proof {
        assert((r + 1) * (r + 1) == r * r + 2 * r + 1) by (nonlinear_arith);
    }
    r
}

impl Vec3D {
    /// The components as machine scalars, in basis order.
    pub closed spec fn comps(self) -> Seq<i64> {
        self.components@
    }

    /// The first component.
    pub fn x(&self) -> (r: i64)
        ensures
            r as int == self.vals()[0],
    {
        self.components[0]
    }

    /// The second component.
    pub fn y(&self) -> (r: i64)
        ensures
            r as int == self.vals()[1],
    {
        self.components[1]
    }

    /// The third component.
    pub fn z(&self) -> (r: i64)
        ensures
            r as int == self.vals()[2],
    {
        self.components[2]
    }

    /// Applies `op` to each pair of corresponding components, yielding the
    /// vector of the results; the iteration logic every binary operator
    /// shares.
    pub fn component_wise_binary_operation<OP: Fn(i64, i64) -> i64>(
        &self,
        rhs: &Self,
        op: OP,
    ) -> (r: Self)
        requires
            forall|j: int| 0 <= j < 3 ==> #[trigger] call_requires(
                op,
                (self.comps()[j], rhs.comps()[j]),
            ),
        ensures
            forall|j: int| 0 <= j < 3 ==> #[trigger] call_ensures(
                op,
                (self.comps()[j], rhs.comps()[j]),
                r.comps()[j],
            ),
    {
        proof {
            assert(call_requires(op, (self.comps()[0], rhs.comps()[0])));
            assert(call_requires(op, (self.comps()[1], rhs.comps()[1])));
            assert(call_requires(op, (self.comps()[2], rhs.comps()[2])));
        }
        let c0 = op(self.components[0], rhs.components[0]);
        let c1 = op(self.components[1], rhs.components[1]);
        let c2 = op(self.components[2], rhs.components[2]);
        let r = Vec3D { components: [c0, c1, c2] };
        proof {
            assert forall|j: int| 0 <= j < 3 implies #[trigger] call_ensures(
                op,
                (self.comps()[j], rhs.comps()[j]),
                r.comps()[j],
            ) by {
                if j == 0 {
                    assert(call_ensures(op, (self.comps()[0], rhs.comps()[0]), c0));
                } else if j == 1 {
                    assert(call_ensures(op, (self.comps()[1], rhs.comps()[1]), c1));
                } else {
                    assert(call_ensures(op, (self.comps()[2], rhs.comps()[2]), c2));
                }
            }
        }
        r
    }

    /// Applies `op` to each component, yielding the vector of the results;
    /// the iteration logic every unary operator shares.
    pub fn component_wise_unary_operation<OP: Fn(i64) -> i64>(&self, op: OP) -> (r: Self)
        requires
            forall|j: int| 0 <= j < 3 ==> #[trigger] call_requires(op, (self.comps()[j],)),
        ensures
            forall|j: int| 0 <= j < 3 ==> #[trigger] call_ensures(
                op,
                (self.comps()[j],),
                r.comps()[j],
            ),
    {
        proof {
            assert(call_requires(op, (self.comps()[0],)));
            assert(call_requires(op, (self.comps()[1],)));
            assert(call_requires(op, (self.comps()[2],)));
        }
        let c0 = op(self.components[0]);
        let c1 = op(self.components[1]);
        let c2 = op(self.components[2]);
        let r = Vec3D { components: [c0, c1, c2] };
        proof {
            assert forall|j: int| 0 <= j < 3 implies #[trigger] call_ensures(
                op,
                (self.comps()[j],),
                r.comps()[j],
            ) by {
                if j == 0 {
                    assert(call_ensures(op, (self.comps()[0],), c0));
                } else if j == 1 {
                    assert(call_ensures(op, (self.comps()[1],), c1));
                } else {
                    assert(call_ensures(op, (self.comps()[2],), c2));
                }
            }
        }
        r
    }

    /// Component-wise vector sum.
    pub fn add(&self, rhs: &Self) -> (r: Self)
        requires
            forall|j: int| 0 <= j < 3 ==> #[trigger] in_i64(self.vals()[j] + rhs.vals()[j]),
        ensures
            r.vals().len() == 3,
            forall|j: int| 0 <= j < 3 ==> #[trigger] r.vals()[j] == self.vals()[j] + rhs.vals()[j],
    {
        let cl = |a: i64, b: i64| -> (s: i64)
            requires
                in_i64(a + b),
            ensures
                s == a + b,
            {
                a + b
            };
        proof {
            assert forall|j: int| 0 <= j < 3 implies #[trigger] call_requires(
                cl,
                (self.comps()[j], rhs.comps()[j]),
            ) by {
                assert(in_i64(self.vals()[j] + rhs.vals()[j]));
            }
        }
        let r = self.component_wise_binary_operation(rhs, cl);
        proof {
            assert forall|j: int| 0 <= j < 3 implies #[trigger] r.vals()[j] == self.vals()[j]
                + rhs.vals()[j] by {
                assert(call_ensures(cl, (self.comps()[j], rhs.comps()[j]), r.comps()[j]));
            }
        }
        r
    }

    /// Component-wise vector difference.
    pub fn sub(&self, rhs: &Self) -> (r: Self)
        requires
            forall|j: int| 0 <= j < 3 ==> #[trigger] in_i64(self.vals()[j] - rhs.vals()[j]),
        ensures
            r.vals().len() == 3,
            forall|j: int| 0 <= j < 3 ==> #[trigger] r.vals()[j] == self.vals()[j] - rhs.vals()[j],
    {
        let cl = |a: i64, b: i64| -> (s: i64)
            requires
                in_i64(a - b),
            ensures
                s == a - b,
            {
                a - b
            };
        proof {
            assert forall|j: int| 0 <= j < 3 implies #[trigger] call_requires(
                cl,
                (self.comps()[j], rhs.comps()[j]),
            ) by {
                assert(in_i64(self.vals()[j] - rhs.vals()[j]));
            }
        }
        let r = self.component_wise_binary_operation(rhs, cl);
        proof {
            assert forall|j: int| 0 <= j < 3 implies #[trigger] r.vals()[j] == self.vals()[j]
                - rhs.vals()[j] by {
                assert(call_ensures(cl, (self.comps()[j], rhs.comps()[j]), r.comps()[j]));
            }
        }
        r
    }

    /// Component-wise vector product, distinct from the cross product.
    pub fn mul(&self, rhs: &Self) -> (r: Self)
        requires
            forall|j: int| 0 <= j < 3 ==> #[trigger] in_i64(self.vals()[j] * rhs.vals()[j]),
        ensures
            r.vals().len() == 3,
            forall|j: int| 0 <= j < 3 ==> #[trigger] r.vals()[j] == self.vals()[j] * rhs.vals()[j],
    {
        let cl = |a: i64, b: i64| -> (s: i64)
            requires
                in_i64(a as int * b as int),
            ensures
                s == a as int * b as int,
            {
                a * b
            };
        proof {
            assert forall|j: int| 0 <= j < 3 implies #[trigger] call_requires(
                cl,
                (self.comps()[j], rhs.comps()[j]),
            ) by {
                assert(in_i64(self.vals()[j] * rhs.vals()[j]));
            }
        }
        let r = self.component_wise_binary_operation(rhs, cl);
        proof {
            assert forall|j: int| 0 <= j < 3 implies #[trigger] r.vals()[j] == self.vals()[j]
                * rhs.vals()[j] by {
                assert(call_ensures(cl, (self.comps()[j], rhs.comps()[j]), r.comps()[j]));
            }
        }
        r
    }

    /// Division of every component by the scalar `rhs`, which must not be
    /// the additive identity; each quotient truncates toward zero.
    pub fn div(&self, rhs: i64) -> (r: Self)
        requires
            rhs != 0,
            forall|j: int| 0 <= j < 3 ==> #[trigger] in_i64(trunc_div(self.vals()[j], rhs as int)),
        ensures
            r.vals().len() == 3,
            forall|j: int| 0 <= j < 3 ==> #[trigger] r.vals()[j] == trunc_div(
                self.vals()[j],
                rhs as int,
            ),
    {
        let cl = |a: i64| -> (s: i64)
            requires
                rhs != 0,
                in_i64(trunc_div(a as int, rhs as int)),
            ensures
                s as int == trunc_div(a as int, rhs as int),
            {
                a.quot(rhs)
            };
        proof {
            assert forall|j: int| 0 <= j < 3 implies #[trigger] call_requires(
                cl,
                (self.comps()[j],),
            ) by {
                assert(in_i64(trunc_div(self.vals()[j], rhs as int)));
            }
        }
        let r = self.component_wise_unary_operation(cl);
        proof {
            assert forall|j: int| 0 <= j < 3 implies #[trigger] r.vals()[j] == trunc_div(
                self.vals()[j],
                rhs as int,
            ) by {
                assert(call_ensures(cl, (self.comps()[j],), r.comps()[j]));
            }
        }
        r
    }

    /// Whether every product appearing in the cross product of `a` and `b`,
    /// and every resulting component, is representable.
    pub open spec fn cross_in_range(a: Seq<int>, b: Seq<int>) -> bool {
        &&& in_i64(a[1] * b[2])
        &&& in_i64(a[2] * b[1])
        &&& in_i64(a[2] * b[0])
        &&& in_i64(a[0] * b[2])
        &&& in_i64(a[0] * b[1])
        &&& in_i64(a[1] * b[0])
        &&& in_i64(a[1] * b[2] - a[2] * b[1])
        &&& in_i64(a[2] * b[0] - a[0] * b[2])
        &&& in_i64(a[0] * b[1] - a[1] * b[0])
    }

    /// The standard 3-D cross product.
    pub fn cross(&self, other: &Self) -> (r: Self)
        requires
            Self::cross_in_range(self.vals(), other.vals()),
        ensures
            r.vals() =~= cross_vals(self.vals(), other.vals()),
    {
        let u = self;
        let v = other;

        let r = <Self as Vector<3, i64>>::new(
            [
                u.y() * v.z() - u.z() * v.y(),
                u.z() * v.x() - u.x() * v.z(),
                u.x() * v.y() - u.y() * v.x(),
            ],
        );
        proof {
            let a = self.vals();
            let b = other.vals();
            assert(r.vals()[0] == a[1] * b[2] - a[2] * b[1]);
            assert(r.vals()[1] == a[2] * b[0] - a[0] * b[2]);
            assert(r.vals()[2] == a[0] * b[1] - a[1] * b[0]);
            assert(r.vals() =~= cross_vals(a, b));
        }
        r
    }
}

impl Vector<3, i64> for Vec3D {
    open spec fn vals(self) -> Seq<int> {
        Seq::new(3, |j: int| self.comps()[j] as int)
    }

    proof fn lemma_dim(self) {
    }

    fn component(&self, index: usize) -> (r: &i64) {
        &self.components[index]
    }

    fn new(components: [i64; 3]) -> (r: Self) {
        Vec3D { components }
    }

    fn from_iter(items: &Vec<i64>) -> (r: Self) {
        Self::new([items[0], items[1], items[2]])
    }

    fn zero() -> (r: Self) {
        Self::new([0, 0, 0])
    }

    fn unit(i: usize) -> (r: Self) {
        if i == 0 {
            Self::new([1, 0, 0])
        } else if i == 1 {
            Self::new([0, 1, 0])
        } else {
            Self::new([0, 0, 1])
        }
    }

    fn scale(&self, scalar: i64) -> (r: Self) {
        let cl = |a: i64| -> (s: i64)
            requires
                in_i64(a as int * scalar as int),
            ensures
                s as int == a as int * scalar as int,
            {
                a * scalar
            };
        proof {
            assert forall|j: int| 0 <= j < 3 implies #[trigger] call_requires(
                cl,
                (self.comps()[j],),
            ) by {
                assert(i64::in_range(self.vals()[j] * scalar.sval()));
            }
        }
        let r = self.component_wise_unary_operation(cl);
        proof {
            assert forall|j: int| 0 <= j < 3 implies #[trigger] r.vals()[j] == self.vals()[j]
                * scalar as int by {
                assert(call_ensures(cl, (self.comps()[j],), r.comps()[j]));
            }
        }
        r
    }

    fn dot(&self, rhs: &Self) -> (r: i64) {
        proof {
            let a = self.vals();
            let b = rhs.vals();
            assert(i64::in_range(a[0] * b[0]));
            assert(i64::in_range(a[1] * b[1]));
            assert(i64::in_range(a[2] * b[2]));
            assert(i64::in_range(dot_prefix(a, b, 2)));
            assert(i64::in_range(dot_prefix(a, b, 3)));
            assert(dot_prefix(a, b, 0) == 0);
            assert(dot_prefix(a, b, 1) == dot_prefix(a, b, 0) + a[0] * b[0]);
            assert(dot_prefix(a, b, 2) == dot_prefix(a, b, 1) + a[1] * b[1]);
            assert(dot_prefix(a, b, 3) == dot_prefix(a, b, 2) + a[2] * b[2]);
        }
        self.components[0] * rhs.components[0] + self.components[1] * rhs.components[1]
            + self.components[2] * rhs.components[2]
    }

    fn norm_squared(&self) -> (r: i64) {
        self.dot(self)
    }

    fn norm(&self) -> (r: i64) {
        let ns = self.norm_squared();
        proof {
            let a = self.vals();
            assert(a[0] * a[0] >= 0) by (nonlinear_arith);
            assert(a[1] * a[1] >= 0) by (nonlinear_arith);
            assert(a[2] * a[2] >= 0) by (nonlinear_arith);
            assert(dot_prefix(a, a, 1) == dot_prefix(a, a, 0) + a[0] * a[0]);
            assert(dot_prefix(a, a, 2) == dot_prefix(a, a, 1) + a[1] * a[1]);
            assert(dot_prefix(a, a, 3) == dot_prefix(a, a, 2) + a[2] * a[2]);
            assert(ns >= 0);
        }
        let r = isqrt_u64(ns as u64);
        proof {
            assert(r <= 3037000499u64) by (nonlinear_arith)
                requires
                    r * r <= i64::MAX,
            {
            }
        }
        r as i64
    }
}

/// The value of a dot-product prefix in which at most the term at index
/// `k` is non-zero: the sum collapses to that single term.
proof fn lemma_dot_prefix_single(a: Seq<int>, b: Seq<int>, n: int, k: int)
    requires
        a.len() == b.len(),
        0 <= n <= a.len(),
        forall|j: int| 0 <= j < n && j != k ==> a[j] * b[j] == 0,
    ensures
        dot_prefix(a, b, n) == if 0 <= k < n {
            a[k] * b[k]
        } else {
            0
        },
    decreases n,
{
    if n > 0 {
        lemma_dot_prefix_single(a, b, n - 1, k);
    }
}

/// Orthogonality of distinct basis vectors: the dot product of the `i`-th
/// unit vector with the `(i+1) mod d`-th unit vector is zero, for any
/// dimension `d` of at least 2.
pub proof fn lemma_unit_dot_next_is_zero(a: Seq<int>, b: Seq<int>, d: int, i: int)
    requires
        2 <= d,
        is_unit_vals(a, d, i),
        is_unit_vals(b, d, (i + 1) % d),
    ensures
        dot_prefix(a, b, d) == 0,
{
    let n = (i + 1) % d;
    if i + 1 < d {
        vstd::arithmetic::div_mod::lemma_small_mod((i + 1) as nat, d as nat);
    } else {
        vstd::arithmetic::div_mod::lemma_mod_self_0(d);
    }
    assert(n != i);
    assert forall|j: int| 0 <= j < d && j != -1 implies a[j] * b[j] == 0 by {
        if j != i {
            assert(a[j] == 0);
        } else {
            assert(b[j] == 0);
        }
    }
    lemma_dot_prefix_single(a, b, d, -1);
}

/// The dot product of a unit vector with itself is one.
pub proof fn lemma_unit_dot_self_is_one(a: Seq<int>, d: int, i: int)
    requires
        is_unit_vals(a, d, i),
    ensures
        dot_prefix(a, a, d) == 1,
{
    assert forall|j: int| 0 <= j < d && j != i implies a[j] * a[j] == 0 by {
        assert(a[j] == 0);
    }
    lemma_dot_prefix_single(a, a, d, i);
}

/// The norm of a unit vector is one: the integer square root of its
/// squared norm equals 1.
pub proof fn lemma_norm_of_unit_is_one(a: Seq<int>, d: int, i: int, r: int)
    requires
        is_unit_vals(a, d, i),
        is_isqrt(r, dot_prefix(a, a, d)),
    ensures
        r == 1,
{
    lemma_unit_dot_self_is_one(a, d, i);
    assert(r == 1) by (nonlinear_arith)
        requires
            r >= 0,
            r * r <= 1,
            (r + 1) * (r + 1) > 1,
    {
    }
}

/// Doubling a vector quadruples its squared norm: if `b` is `a + a`
/// component-wise, then `b · b == 4 * (a · a)` over any prefix.
pub proof fn lemma_norm_squared_of_doubled(a: Seq<int>, b: Seq<int>, n: int)
    requires
        a.len() == b.len(),
        0 <= n <= a.len(),
        forall|j: int| 0 <= j < n ==> b[j] == a[j] + a[j],
    ensures
        dot_prefix(b, b, n) == 4 * dot_prefix(a, a, n),
    decreases n,
{
    if n > 0 {
        lemma_norm_squared_of_doubled(a, b, n - 1);
        assert(b[n - 1] * b[n - 1] == 4 * (a[n - 1] * a[n - 1])) by (nonlinear_arith)
            requires
                b[n - 1] == a[n - 1] + a[n - 1],
        {
        }
    }
}

/// Anti-commutativity of the cross product: `a × b` is the component-wise
/// negation of `b × a`.
pub proof fn lemma_cross_anticommutative(a: Seq<int>, b: Seq<int>)
    requires
        a.len() == 3,
        b.len() == 3,
    ensures
        forall|j: int|
            0 <= j < 3 ==> #[trigger] cross_vals(a, b)[j] == -cross_vals(b, a)[j],
{
    assert forall|j: int| 0 <= j < 3 implies #[trigger] cross_vals(a, b)[j] == -cross_vals(
        b,
        a,
    )[j] by {
        assert(a[1] * b[2] == b[2] * a[1]) by (nonlinear_arith);
        assert(a[2] * b[1] == b[1] * a[2]) by (nonlinear_arith);
        assert(a[2] * b[0] == b[0] * a[2]) by (nonlinear_arith);
        assert(a[0] * b[2] == b[2] * a[0]) by (nonlinear_arith);
        assert(a[0] * b[1] == b[1] * a[0]) by (nonlinear_arith);
        assert(a[1] * b[0] == b[0] * a[1]) by (nonlinear_arith);
    }
}

/// The cross product of a vector with itself is the zero vector.
pub proof fn lemma_cross_self_is_zero(a: Seq<int>)
    requires
        a.len() == 3,
    ensures
        forall|j: int| 0 <= j < 3 ==> #[trigger] cross_vals(a, a)[j] == 0,
{
    assert forall|j: int| 0 <= j < 3 implies #[trigger] cross_vals(a, a)[j] == 0 by {
        assert(a[1] * a[2] == a[2] * a[1]) by (nonlinear_arith);
        assert(a[2] * a[0] == a[0] * a[2]) by (nonlinear_arith);
        assert(a[0] * a[1] == a[1] * a[0]) by (nonlinear_arith);
    }
}

} // verus!
