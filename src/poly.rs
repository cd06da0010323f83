use vstd::prelude::*;

verus! {

/// A polynomial in the single cell value `v` queried by the range-check gate.
#[derive(Debug)]
pub enum Poly {
    Value,
    Constant(u64),
    Sub(Box<Poly>, Box<Poly>),
    Mul(Box<Poly>, Box<Poly>),
}

impl Poly {
    /// The degree in `v`, counting each product as the sum of its sides.
    pub open spec fn degree(self) -> nat
        decreases self,
    {
        match self {
            Poly::Value => 1,
            Poly::Constant(_) => 0,
            Poly::Sub(a, b) => if a.degree() >= b.degree() { a.degree() } else { b.degree() },
            Poly::Mul(a, b) => a.degree() + b.degree(),
        }
    }

    /// The value of the polynomial at `v`, over the integers.
    pub open spec fn eval(self, v: int) -> int
        decreases self,
    {
        match self {
            Poly::Value => v,
            Poly::Constant(c) => c as int,
            Poly::Sub(a, b) => a.eval(v) - b.eval(v),
            Poly::Mul(a, b) => a.eval(v) * b.eval(v),
        }
    }
}

/// `v * (1 - v) * (2 - v) * ... * (range - 1 - v)`: the factors for `1..range`
/// folded onto `v`, as the range-check gate states it.
pub open spec fn range_product(range: nat, v: int) -> int
    decreases range,
{
    if range <= 1 {
        v
    } else {
        range_product((range - 1) as nat, v) * ((range - 1) - v)
    }
}

/// The range-check polynomial in the shape the custom gate registers: `v`,
/// then a product with `(i - v)` for each `i` of `1..range`, innermost first.
pub open spec fn range_gate_poly(range: nat) -> Poly
    decreases range,
{
    if range <= 1 {
        Poly::Value
    } else {
        Poly::Mul(
            Box::new(range_gate_poly((range - 1) as nat)),
            Box::new(Poly::Sub(Box::new(Poly::Constant((range - 1) as u64)), Box::new(Poly::Value))),
        )
    }
}

/// The range-check polynomial for `range` has degree `range` and takes the
/// value `range_product(range, v)` at every `v`.
pub proof fn lemma_range_gate_poly(range: nat)
    requires
        0 < range <= u64::MAX + 1,
    ensures
        range_gate_poly(range).degree() == range,
        forall|v: int| #[trigger] range_gate_poly(range).eval(v) == range_product(range, v),
    decreases range,
{
    if range > 1 {
        lemma_range_gate_poly((range - 1) as nat);
        let f = Poly::Sub(Box::new(Poly::Constant((range - 1) as u64)), Box::new(Poly::Value));
        assert(Poly::Constant((range - 1) as u64).degree() == 0);
        assert(Poly::Value.degree() == 1);
        assert(f.degree() == 1);
        assert forall|v: int| #[trigger] range_gate_poly(range).eval(v) == range_product(range, v) by {
            assert(Poly::Constant((range - 1) as u64).eval(v) == ((range - 1) as u64) as int);
            assert(Poly::Value.eval(v) == v);
            assert(f.eval(v) == (range - 1) - v);
            let prev = range_gate_poly((range - 1) as nat);
            assert(prev.eval(v) == range_product((range - 1) as nat, v));
            assert(range_gate_poly(range) == Poly::Mul(Box::new(prev), Box::new(f)));
            assert(range_gate_poly(range).eval(v) == prev.eval(v) * f.eval(v));
        }
    }
}

/// Builds the range-check polynomial for `range`.
pub fn range_check_poly(range: u64) -> (r: Poly)
    requires
        range > 0,
    ensures
        r == range_gate_poly(range as nat),
        r.degree() == range,
        forall|v: int| #[trigger] r.eval(v) == range_product(range as nat, v),
{
    proof {
        lemma_range_gate_poly(range as nat);
    }
    let mut acc = Poly::Value;
    let mut i: u64 = 1;
    while i < range
        invariant
            1 <= i <= range,
            acc == range_gate_poly(i as nat),
        decreases range - i,
    {
        let factor = Poly::Sub(Box::new(Poly::Constant(i)), Box::new(Poly::Value));
        acc = Poly::Mul(Box::new(acc), Box::new(factor));
        i = i + 1;
    }
    acc
}

/// The range-check polynomial vanishes at `v` exactly when `v` lies in
/// `[0, range)`.
pub proof fn lemma_range_product_roots(range: nat, v: int)
    requires
        range > 0,
    ensures
        (range_product(range, v) == 0) <==> (0 <= v < range),
    decreases range,
{
    if range > 1 {
        let r1 = (range - 1) as nat;
        lemma_range_product_roots(r1, v);
        let a = range_product(r1, v);
        let b = (range - 1) - v;
        assert((a * b == 0) <==> (a == 0 || b == 0)) by (nonlinear_arith);
    }
}

/// `p` is a prime number.
pub open spec fn is_prime(p: int) -> bool {
    &&& p > 1
    &&& forall|d: int| 1 < d < p ==> #[trigger] (p % d) != 0
}

/// Over the field of a prime `p` holding every value of `[0, range)`, the
/// range-check polynomial vanishes at a field element `v` exactly when `v`
/// lies in `[0, range)`.
pub proof fn lemma_range_product_roots_mod_prime(range: nat, v: int, p: int)
    requires
        is_prime(p),
        0 < range <= p,
        0 <= v < p,
    ensures
        (range_product(range, v) % p == 0) <==> (v < range),
    decreases range,
{
    if range <= 1 {
        assert(v % p == v) by {
            vstd::arithmetic::div_mod::lemma_small_mod(v as nat, p as nat);
        }
    } else {
        let r1 = (range - 1) as nat;
        lemma_range_product_roots_mod_prime(r1, v, p);
        let a = range_product(r1, v);
        let b = (range - 1) - v;
        assert((b % p == 0) <==> (b == 0)) by {
            if b >= 0 {
                vstd::arithmetic::div_mod::lemma_small_mod(b as nat, p as nat);
            } else {
                vstd::arithmetic::div_mod::lemma_fundamental_div_mod(b, p);
                assert(b % p == b + p) by {
                    vstd::arithmetic::div_mod::lemma_mod_add_multiples_vanish(b, p);
                    vstd::arithmetic::div_mod::lemma_small_mod((b + p) as nat, p as nat);
                }
            }
        }
        if a % p == 0 || b % p == 0 {
            assert((a * b) % p == 0) by {
                if a % p == 0 {
                    vstd::arithmetic::div_mod::lemma_mul_mod_noop_left(a, b, p);
                } else {
                    vstd::arithmetic::div_mod::lemma_mul_mod_noop_right(a, b, p);
                }
                assert(0int * b == 0 && a * 0int == 0);
            }
        } else {
            lemma_prime_product(p, a, b);
        }
    }
}

/// A prime that divides neither factor does not divide their product.
pub proof fn lemma_prime_product(p: int, a: int, b: int)
    requires
        is_prime(p),
        a % p != 0,
        b % p != 0,
    ensures
        (a * b) % p != 0,
{
    vstd::arithmetic::div_mod::lemma_mul_mod_noop(a, b, p);
    vstd::arithmetic::div_mod::lemma_mod_bound(a, p);
    vstd::arithmetic::div_mod::lemma_mod_bound(b, p);
    lemma_prime_product_small(p, a % p, b % p);
}

proof fn lemma_prime_product_small(p: int, a: int, b: int)
    requires
        is_prime(p),
        0 < a < p,
        0 < b < p,
    ensures
        (a * b) % p != 0,
    decreases b,
{
    if (a * b) % p == 0 {
        if b == 1 {
            vstd::arithmetic::div_mod::lemma_small_mod(a as nat, p as nat);
        } else {
            let q = p / b;
            let r = p % b;
            vstd::arithmetic::div_mod::lemma_fundamental_div_mod(p, b);
            vstd::arithmetic::div_mod::lemma_mod_bound(p, b);
            assert(r != 0);
            let m = (a * b) / p;
            vstd::arithmetic::div_mod::lemma_fundamental_div_mod(a * b, p);
            assert(a * b == p * m);
            assert(a * r == p * (a - q * m)) by (nonlinear_arith)
                requires
                    p == b * q + r,
                    a * b == p * m,
            ;
            vstd::arithmetic::div_mod::lemma_mod_multiples_basic(a - q * m, p);
            assert(p * (a - q * m) == (a - q * m) * p) by (nonlinear_arith);
            lemma_prime_product_small(p, a, r);
        }
    }
}

} // verus!
