//! The matrix generator: sequence state as a 2x2 matrix power.
//!
//! The recurrence's step matrix is symmetric, and every matrix this
//! generator touches satisfies `n00 == n01_and_n10 + n11`, so a matrix
//! is determined by its off-diagonal entry and its lower-right entry.
//! `MatModel` is that two-entry model; `m_mul` is the bilinear
//! composition rule on it, and repeated squaring of the step matrix
//! reaches an arbitrary offset in O(log offset) multiplications.
use vstd::prelude::*;

verus! {

use num_bigint::BigInt;

use crate::big::big_add;
use crate::big::big_from_i64;
use crate::big::big_is_even;
use crate::big::big_lt;
use crate::big::big_mul;
use crate::big::big_one;
use crate::big::big_sub;
use crate::big::big_view;
use crate::big::big_shr1;
use crate::big::big_zero;
use crate::calculator::ImplementationFibo;
use crate::fib_term;
use crate::lemma_fib_shift;
use vstd::arithmetic::mul::lemma_mul_is_distributive_add;
use vstd::arithmetic::mul::lemma_mul_is_distributive_sub;

/// The mathematical model of one symmetric step-matrix power: `q` is the
/// off-diagonal entry, `r` the lower-right entry; the upper-left entry is
/// always their sum.
pub struct MatModel {
    pub q: int,
    pub r: int,
}

/// The identity matrix.
pub open spec fn m_ident() -> MatModel {
    MatModel { q: 0, r: 1 }
}

/// The step matrix: one multiplication by it advances the generator by
/// one logical position.
pub open spec fn m_step() -> MatModel {
    MatModel { q: 1, r: 0 }
}

/// The bilinear composition rule for `[[a,b],[b,c]] x [[d,e],[e,f]]`,
/// written on the two stored entries (with `a == b + c`, `d == e + f`).
pub open spec fn m_mul(x: MatModel, y: MatModel) -> MatModel {
    MatModel { q: (x.q + x.r) * y.q + x.q * y.r, r: x.q * y.q + x.r * y.r }
}

/// The n-th power of a matrix under `m_mul`.
pub open spec fn m_pow(m: MatModel, n: nat) -> MatModel
    decreases n,
{
    if n == 0 {
        m_ident()
    } else {
        m_mul(m_pow(m, (n - 1) as nat), m)
    }
}

proof fn lemma_assoc_q(u: int, v: int, yq: int, yr: int, zq: int, zr: int)
    ensures
        ((((u + v) * yq + u * yr) + (u * yq + v * yr)) * zq + ((u + v) * yq + u * yr) * zr) == (u
            + v) * ((yq + yr) * zq + yq * zr) + u * (yq * zq + yr * zr),
{
    broadcast use vstd::arithmetic::mul::group_mul_is_commutative_and_distributive;
    broadcast use vstd::arithmetic::mul::lemma_mul_is_associative;

    let aq = (u + v) * yq + u * yr;
    let ar = u * yq + v * yr;
    assert((aq + ar) * zq == aq * zq + ar * zq);
    assert(aq * zq == (u + v) * (yq * zq) + u * (yr * zq));
    assert(ar * zq == u * (yq * zq) + v * (yr * zq));
    assert(aq * zr == (u + v) * (yq * zr) + u * (yr * zr));
    assert((u + v) * ((yq + yr) * zq + yq * zr) == (u + v) * ((yq + yr) * zq) + (u + v) * (yq
        * zr));
    assert((u + v) * ((yq + yr) * zq) == (u + v) * (yq * zq + yr * zq));
    assert((u + v) * (yq * zq + yr * zq) == (u + v) * (yq * zq) + (u + v) * (yr * zq));
    assert(u * (yq * zq + yr * zr) == u * (yq * zq) + u * (yr * zr));
    assert((u + v) * (yr * zq) == u * (yr * zq) + v * (yr * zq));
}

proof fn lemma_assoc_r(u: int, v: int, yq: int, yr: int, zq: int, zr: int)
    ensures
        (((u + v) * yq + u * yr) * zq + (u * yq + v * yr) * zr) == u * ((yq + yr) * zq + yq * zr)
            + v * (yq * zq + yr * zr),
{
    broadcast use vstd::arithmetic::mul::group_mul_is_commutative_and_distributive;
    broadcast use vstd::arithmetic::mul::lemma_mul_is_associative;

    let aq = (u + v) * yq + u * yr;
    let ar = u * yq + v * yr;
    assert(aq * zq == (u + v) * (yq * zq) + u * (yr * zq));
    assert(ar * zr == u * (yq * zr) + v * (yr * zr));
    assert(u * ((yq + yr) * zq + yq * zr) == u * ((yq + yr) * zq) + u * (yq * zr));
    assert(u * ((yq + yr) * zq) == u * (yq * zq + yr * zq));
    assert(u * (yq * zq + yr * zq) == u * (yq * zq) + u * (yr * zq));
    assert(v * (yq * zq + yr * zr) == v * (yq * zq) + v * (yr * zr));
    assert((u + v) * (yq * zq) == u * (yq * zq) + v * (yq * zq));
}

/// `m_mul` is associative: the entries of symmetric-form products obey
/// the same grouping law as true matrix products.
pub proof fn lemma_m_mul_assoc(x: MatModel, y: MatModel, z: MatModel)
    ensures
        m_mul(m_mul(x, y), z) == m_mul(x, m_mul(y, z)),
{
    lemma_assoc_q(x.q, x.r, y.q, y.r, z.q, z.r);
    lemma_assoc_r(x.q, x.r, y.q, y.r, z.q, z.r);
}

/// The identity matrix is neutral on the right.
pub proof fn lemma_m_mul_ident_right(x: MatModel)
    ensures
        m_mul(x, m_ident()) == x,
{
}

/// Powers of one base compose additively.
pub proof fn lemma_m_pow_add(m: MatModel, a: nat, b: nat)
    ensures
        m_pow(m, a + b) == m_mul(m_pow(m, a), m_pow(m, b)),
    decreases b,
{
    if b == 0 {
        lemma_m_mul_ident_right(m_pow(m, a));
    } else {
        lemma_m_pow_add(m, a, (b - 1) as nat);
        lemma_m_mul_assoc(m_pow(m, a), m_pow(m, (b - 1) as nat), m);
        assert(m_pow(m, a + b) == m_mul(m_pow(m, (a + b - 1) as nat), m));
    }
}

/// The n-th power of the step matrix stores two adjacent classic
/// sequence values.
pub proof fn lemma_step_pow(n: nat)
    requires
        n >= 1,
    ensures
        m_pow(m_step(), n) == (MatModel {
            q: fib_term(0, 1, n as int),
            r: fib_term(0, 1, n as int - 1),
        }),
    decreases n,
{
    reveal_with_fuel(fib_term, 3);
    reveal_with_fuel(m_pow, 3);
    if n == 1 {
        assert(m_pow(m_step(), 1) == m_mul(m_pow(m_step(), 0), m_step()));
        assert(m_pow(m_step(), 0) == m_ident());
        assert(m_mul(m_ident(), m_step()).q == (0 + 1) * 1 + 0 * 0);
        assert(fib_term(0, 1, 1int) == 1);
        assert(fib_term(0, 1, 0int) == 0);
    } else {
        lemma_step_pow((n - 1) as nat);
        let fk1 = fib_term(0, 1, n as int - 1);
        let fk2 = fib_term(0, 1, n as int - 2);
        assert(m_pow(m_step(), n) == m_mul(m_pow(m_step(), (n - 1) as nat), m_step()));
        assert(m_pow(m_step(), (n - 1) as nat) == (MatModel { q: fk1, r: fk2 }));
        assert(m_mul(MatModel { q: fk1, r: fk2 }, m_step()).q == (fk1 + fk2) * 1 + fk1 * 0);
        assert(m_mul(MatModel { q: fk1, r: fk2 }, m_step()).r == fk1 * 1 + fk2 * 0);
        assert(fib_term(0, 1, n as int) == fk2 + fk1);
    }
}

/// Every term of the recurrence is a fixed linear combination of the
/// seed pair, with classic sequence values as coefficients.
pub proof fn lemma_fib_linear(a: int, b: int, n: int)
    requires
        n >= 0,
    ensures
        fib_term(a, b, n + 1) == a * fib_term(0, 1, n) + b * fib_term(0, 1, n + 1),
    decreases n,
{
    reveal_with_fuel(fib_term, 3);
    if n == 0 {
        assert(fib_term(a, b, 1) == b);
        assert(fib_term(0, 1, 0int) == 0);
        assert(fib_term(0, 1, 1int) == 1);
        assert(a * 0 == 0);
        assert(b * 1 == b);
    } else if n == 1 {
        assert(fib_term(a, b, 2) == a + b);
        assert(fib_term(0, 1, 1int) == 1);
        assert(fib_term(0, 1, 2int) == 1);
        assert(a * 1 == a);
        assert(b * 1 == b);
    } else {
        lemma_fib_linear(a, b, n - 1);
        lemma_fib_linear(a, b, n - 2);
        let f0 = fib_term(0, 1, n - 2);
        let f1 = fib_term(0, 1, n - 1);
        lemma_mul_is_distributive_add(a, f0, f1);
        lemma_mul_is_distributive_add(b, f1, f0 + f1);
        assert(fib_term(0, 1, n) == f0 + f1);
        assert(fib_term(0, 1, n + 1) == f1 + (f0 + f1));
        assert(fib_term(a, b, n + 1) == (a * f0 + b * f1) + (a * f1 + b * (f0 + f1)));
        assert(a * fib_term(0, 1, n) == a * (f0 + f1));
        assert(b * fib_term(0, 1, n + 1) == b * (f1 + (f0 + f1)));
        assert(a * (f0 + f1) == a * f0 + a * f1);
        assert(b * (f1 + (f0 + f1)) == b * f1 + b * (f0 + f1));
    }
}

/// The matrix whose two stored entries encode the seed pair (a, b).
pub open spec fn m_seed(a: int, b: int) -> MatModel {
    MatModel { q: a, r: b - a }
}

/// The upper-left entry of a matrix in the symmetric class: the value
/// the generator extracts as a term.
pub open spec fn m_val(m: MatModel) -> int {
    m.q + m.r
}

/// Extracting the upper-left entry of `seed-matrix x step^k` yields the
/// term of index k + 1 of the seeded recurrence.
pub proof fn lemma_seed_times_pow(a: int, b: int, k: nat)
    ensures
        m_val(m_mul(m_seed(a, b), m_pow(m_step(), k))) == fib_term(a, b, k as int + 1),
{
    if k == 0 {
        lemma_m_mul_ident_right(m_seed(a, b));
        assert(m_val(m_seed(a, b)) == b);
        assert(fib_term(a, b, 1) == b);
    } else {
        let fk = fib_term(0, 1, k as int);
        let fk1 = fib_term(0, 1, k as int - 1);
        lemma_step_pow(k);
        lemma_fib_linear(a, b, k as int);
        // (b - a) * fk1 == b * fk1 - a * fk1, and the symmetric pieces of
        // the product regroup into a * fk + b * (fk + fk1).
        lemma_mul_is_distributive_sub(fk1, b, a);
        lemma_mul_is_distributive_add(b, fk, fk1);
        assert(fib_term(0, 1, k as int + 1) == fk + fk1);
        assert(m_val(m_mul(m_seed(a, b), m_pow(m_step(), k))) == (a + (b - a)) * fk + a * fk1 + (a
            * fk + (b - a) * fk1));
        assert((b - a) * fk1 == fk1 * (b - a)) by (nonlinear_arith);
        assert(b * fk1 == fk1 * b) by (nonlinear_arith);
        assert(a * fk1 == fk1 * a) by (nonlinear_arith);
        assert(b * (fk + fk1) == b * fk + b * fk1);
        assert((a + (b - a)) * fk == b * fk);
        assert(m_val(m_mul(m_seed(a, b), m_pow(m_step(), k))) == a * fk + b * (fk + fk1));
    }
}

proof fn lemma_class_closed(qs: int, rs: int, qo: int, ro: int)
    ensures
        (qs + rs) * (qo + ro) + qs * qo == ((qs + rs) * qo + qs * ro) + (qs * qo + rs * ro),
{
    broadcast use vstd::arithmetic::mul::group_mul_is_commutative_and_distributive;

    assert((qs + rs) * (qo + ro) == (qs + rs) * qo + (qs + rs) * ro);
    assert((qs + rs) * ro == qs * ro + rs * ro);
}

/// One symmetric 2x2 integer matrix; only one off-diagonal value is
/// stored because the two are equal by construction of the recurrence.
pub struct M2x2 {
    pub n00: BigInt,
    pub n01_and_n10: BigInt,
    pub n11: BigInt,
}

impl M2x2 {
    /// The two-entry mathematical model of this matrix.
    pub open spec fn model(&self) -> MatModel {
        MatModel { q: big_view(self.n01_and_n10), r: big_view(self.n11) }
    }

    /// Membership in the symmetric class: the upper-left entry is the
    /// sum of the two stored ones.
    pub open spec fn wf(&self) -> bool {
        big_view(self.n00) == big_view(self.n01_and_n10) + big_view(self.n11)
    }

    pub fn new(n00: BigInt, n01_and_n10: BigInt, n11: BigInt) -> (m: M2x2)
        ensures
            m.n00 == n00,
            m.n01_and_n10 == n01_and_n10,
            m.n11 == n11,
    {
        M2x2 { n00, n01_and_n10, n11 }
    }

    /// The bilinear composition of two matrices of the class.
    pub fn mul(&self, other: &M2x2) -> (m: M2x2)
        requires
            self.wf(),
            other.wf(),
        ensures
            m.wf(),
            m.model() == m_mul(self.model(), other.model()),
    {
        let a1 = big_mul(&self.n00, &other.n00);
        let a2 = big_mul(&self.n01_and_n10, &other.n01_and_n10);
        let n00 = big_add(&a1, &a2);
        let b1 = big_mul(&self.n00, &other.n01_and_n10);
        let b2 = big_mul(&self.n01_and_n10, &other.n11);
        let n01_and_n10 = big_add(&b1, &b2);
        let c1 = big_mul(&self.n01_and_n10, &other.n01_and_n10);
        let c2 = big_mul(&self.n11, &other.n11);
        let n11 = big_add(&c1, &c2);
        proof {
            lemma_class_closed(
                big_view(self.n01_and_n10),
                big_view(self.n11),
                big_view(other.n01_and_n10),
                big_view(other.n11),
            );
        }
        M2x2 { n00, n01_and_n10, n11 }
    }

    /// Replaces this matrix by its product with `other`.
    pub fn mul_assign(&mut self, other: &M2x2)
        requires
            old(self).wf(),
            other.wf(),
        ensures
            final(self).wf(),
            final(self).model() == m_mul(old(self).model(), other.model()),
    {
        let m = self.mul(other);
        self.n00 = m.n00;
        self.n01_and_n10 = m.n01_and_n10;
        self.n11 = m.n11;
    }
}

/// A generator that holds the running matrix, the step matrix, and how
/// many terms it has already handed out.
pub struct MatmulFibo {
    pub fibo: M2x2,
    pub step: M2x2,
    pub count: usize,
}

impl ImplementationFibo for MatmulFibo {
    open spec fn wf(&self) -> bool {
        &&& self.fibo.wf()
        &&& self.step.wf()
        &&& self.step.model() == m_step()
        &&& self.count >= 1
    }

    open spec fn stream_at(&self, k: int) -> int {
        let q = big_view(self.fibo.n01_and_n10);
        let p = big_view(self.fibo.n00);
        if self.count == 1 {
            fib_term(q, p, k)
        } else if self.count == 2 {
            fib_term(q, p, k + 1)
        } else {
            fib_term(q, p, k + 2)
        }
    }

    open spec fn init_stream(seed: Option<(int, int)>, k: int) -> int {
        match seed {
            Some((a, b)) => fib_term(a, b, k),
            None => fib_term(0, 1, k),
        }
    }

    fn new(start_nums: Option<(BigInt, BigInt)>) -> (g: Self)
        ensures
            g.count == 1,
            match start_nums {
                Some((a, b)) => big_view(g.fibo.n01_and_n10) == big_view(a) && big_view(g.fibo.n00)
                    == big_view(b),
                None => big_view(g.fibo.n01_and_n10) == 0 && big_view(g.fibo.n00) == 1,
            },
    {
        if let Some((a, b)) = start_nums {
            let n00 = b.clone();
            let n01_and_n10 = a.clone();
            let n11 = big_sub(&b, &a);
            return MatmulFibo {
                fibo: M2x2::new(n00, n01_and_n10, n11),
                step: step_matrix(),
                count: 1,
            };
        }
        Default::default()
    }

    /// The first two steps hand the stored entries out directly; each
    /// later step multiplies the running matrix by the step matrix and
    /// extracts the upper-left entry.
    fn next_value(&mut self) -> (r: BigInt) {
        let result = if self.count == 1 {
            self.fibo.n01_and_n10.clone()
        } else if self.count == 2 {
            self.fibo.n00.clone()
        } else {
            self.fibo.mul_assign(&self.step);
            self.fibo.n00.clone()
        };
        if self.count < 3 {
            self.count = self.count + 1;
        }
        proof {
            reveal_with_fuel(fib_term, 3);
            let q = big_view(old(self).fibo.n01_and_n10);
            let p = big_view(old(self).fibo.n00);
            if old(self).count >= 3 {
                assert forall|k: int| 0 <= k implies self.stream_at(k) == old(self).stream_at(
                    k + 1,
                ) by {
                    lemma_fib_shift(q, p, k + 2);
                }
                assert(big_view(result) == fib_term(q, p, 2));
            }
        }
        result
    }
}

/// Builds the step matrix `[[1,1],[1,0]]`.
fn step_matrix() -> (m: M2x2)
    ensures
        m.wf(),
        m.model() == m_step(),
{
    M2x2::new(big_one(), big_one(), big_zero())
}

impl Default for MatmulFibo {
    /// The canonical seeding: the running matrix starts as the identity,
    /// so the produced stream is the classic sequence 0, 1, 1, 2, 3, ...
    fn default() -> (g: Self)
        ensures
            g.wf(),
            g.count == 1,
            big_view(g.fibo.n01_and_n10) == 0,
            big_view(g.fibo.n00) == 1,
            forall|k: int| 0 <= k ==> g.stream_at(k) == fib_term(0, 1, k),
    {
        MatmulFibo {
            step: step_matrix(),
            fibo: M2x2::new(big_one(), big_zero(), big_one()),
            count: 1,
        }
    }
}

impl MatmulFibo {
    /// Computes one distant term directly: square-and-multiply over the
    /// bits of n - 2, so O(log n) matrix multiplications in place of
    /// n - 2 linear steps.
    ///
    /// For n >= 2 the answer is the term of index n - 1 of the
    /// recurrence encoded by the running matrix; for smaller n the loop
    /// body never runs and the stored upper-left entry comes back.
    #[verifier::loop_isolation(false)]
    pub fn calc_one(&mut self, n: BigInt) -> (r: BigInt)
        requires
            old(self).wf(),
        ensures
            big_view(r) == if big_view(n) >= 2 {
                fib_term(
                    big_view(old(self).fibo.n01_and_n10),
                    big_view(old(self).fibo.n00),
                    big_view(n) - 1,
                )
            } else {
                big_view(old(self).fibo.n00)
            },
            big_view(final(self).fibo.n00) == big_view(r),
            final(self).fibo.wf(),
            final(self).step.wf(),
            final(self).count == old(self).count,
    {
        let ghost q0 = big_view(old(self).fibo.n01_and_n10);
        let ghost p0 = big_view(old(self).fibo.n00);
        let ghost n0 = big_view(n) - 2;
        let two = big_from_i64(2);
        let zero = big_from_i64(0);
        let mut m = big_sub(&n, &two);
        let ghost mut ee: nat = 0;
        let ghost mut ss: nat = 1;
        proof {
            reveal_with_fuel(m_pow, 2);
            assert(m_pow(m_step(), 1) == m_mul(m_ident(), m_step()));
            assert(m_pow(m_step(), 1) == m_step());
            lemma_m_mul_ident_right(m_seed(q0, p0));
            assert(self.fibo.model() == m_seed(q0, p0));
            assert(self.fibo.model() == m_mul(m_seed(q0, p0), m_pow(m_step(), 0)));
        }
        while big_lt(&zero, &m)
            invariant
                self.count == old(self).count,
                self.fibo.wf(),
                self.step.wf(),
                self.step.model() == m_pow(m_step(), ss),
                ss >= 1,
                big_view(m) <= n0,
                n0 >= 0 ==> big_view(m) >= 0 && ee + big_view(m) * (ss as int) == n0
                    && self.fibo.model() == m_mul(m_seed(q0, p0), m_pow(m_step(), ee)),
                n0 < 0 ==> big_view(m) == n0 && self.fibo == old(self).fibo,
            decreases big_view(m),
        {
            let ghost mv = big_view(m);
            let ghost h = mv / 2;
            if !big_is_even(&m) {
                let f2 = self.fibo.mul(&self.step);
                self.fibo = f2;
                proof {
                    lemma_m_mul_assoc(m_seed(q0, p0), m_pow(m_step(), ee), m_pow(m_step(), ss));
                    lemma_m_pow_add(m_step(), ee, ss);
                    assert(mv == 2 * h + 1);
                    assert(ee + ss + h * (2 * (ss as int)) == ee + (2 * h + 1) * (ss as int))
                        by (nonlinear_arith);
                    ee = ee + ss;
                }
            } else {
                proof {
                    assert(mv == 2 * h);
                    assert(ee + h * (2 * (ss as int)) == ee + (2 * h) * (ss as int))
                        by (nonlinear_arith);
                }
            }
            let s2 = self.step.mul(&self.step);
            self.step = s2;
            m = big_shr1(&m);
            proof {
                lemma_m_pow_add(m_step(), ss, ss);
                ss = ss + ss;
            }
        }
        let r = self.fibo.n00.clone();
        proof {
            if n0 >= 0 {
                assert(big_view(m) == 0);
                assert(big_view(m) * (ss as int) == 0) by (nonlinear_arith)
                    requires
                        big_view(m) == 0,
                ;
                assert(ee == n0);
                lemma_seed_times_pow(q0, p0, ee);
                assert(m_seed(q0, p0).r == p0 - q0);
            }
        }
        r
    }
}

} // verus!
