//! Sums of elements over one and over two indices, for element types whose
//! arithmetic obeys the laws of a semiring.
use crate::construct::one;
use crate::construct::zero;
use std::ops::Add;
use std::ops::Mul;
use vstd::prelude::*;
use vstd::std_specs::ops::AddSpec;
use vstd::std_specs::ops::MulSpec;

verus! {

/// Whether the sums and products of the element type obey the laws of a
/// semiring: the sum is commutative and associative with zero as its neutral
/// element, the product is associative and distributes over the sum from
/// both sides, and a product with zero is zero.
#[verifier::opaque]
pub open spec fn semiring<T: Add<Output = T> + Mul<Output = T> + From<u8>>() -> bool {
    &&& forall|a: T, b: T| #[trigger] a.add_spec(b) == b.add_spec(a)
    &&& forall|a: T, b: T, c: T| #[trigger] a.add_spec(b).add_spec(c) == a.add_spec(b.add_spec(c))
    &&& forall|a: T| #[trigger] zero::<T>().add_spec(a) == a
    &&& forall|a: T, b: T, c: T| #[trigger] a.mul_spec(b).mul_spec(c) == a.mul_spec(b.mul_spec(c))
    &&& forall|a: T, b: T, c: T| #[trigger]
        a.add_spec(b).mul_spec(c) == a.mul_spec(c).add_spec(b.mul_spec(c))
    &&& forall|a: T, b: T, c: T| #[trigger]
        a.mul_spec(b.add_spec(c)) == a.mul_spec(b).add_spec(a.mul_spec(c))
    &&& forall|a: T| #[trigger] zero::<T>().mul_spec(a) == zero::<T>()
    &&& forall|a: T| #[trigger] a.mul_spec(zero::<T>()) == zero::<T>()
}

/// Whether one is neutral for the product of the element type, from both
/// sides.
#[verifier::opaque]
pub open spec fn unital<T: Mul<Output = T> + From<u8>>() -> bool {
    &&& forall|a: T| #[trigger] one::<T>().mul_spec(a) == a
    &&& forall|a: T| #[trigger] a.mul_spec(one::<T>()) == a
}

pub proof fn lemma_mul_one<T: Mul<Output = T> + From<u8>>(a: T)
    requires
        unital::<T>(),
    ensures
        one::<T>().mul_spec(a) == a,
        a.mul_spec(one::<T>()) == a,
{
    reveal(unital);
}

pub proof fn lemma_add_comm<T: Add<Output = T> + Mul<Output = T> + From<u8>>(a: T, b: T)
    requires
        semiring::<T>(),
    ensures
        a.add_spec(b) == b.add_spec(a),
{
    reveal(semiring);
}

pub proof fn lemma_add_assoc<T: Add<Output = T> + Mul<Output = T> + From<u8>>(a: T, b: T, c: T)
    requires
        semiring::<T>(),
    ensures
        a.add_spec(b).add_spec(c) == a.add_spec(b.add_spec(c)),
{
    reveal(semiring);
}

pub proof fn lemma_add_zero<T: Add<Output = T> + Mul<Output = T> + From<u8>>(a: T)
    requires
        semiring::<T>(),
    ensures
        zero::<T>().add_spec(a) == a,
{
    reveal(semiring);
}

pub proof fn lemma_mul_assoc<T: Add<Output = T> + Mul<Output = T> + From<u8>>(a: T, b: T, c: T)
    requires
        semiring::<T>(),
    ensures
        a.mul_spec(b).mul_spec(c) == a.mul_spec(b.mul_spec(c)),
{
    reveal(semiring);
}

pub proof fn lemma_mul_distributes_right<T: Add<Output = T> + Mul<Output = T> + From<u8>>(
    a: T,
    b: T,
    c: T,
)
    requires
        semiring::<T>(),
    ensures
        a.add_spec(b).mul_spec(c) == a.mul_spec(c).add_spec(b.mul_spec(c)),
{
    reveal(semiring);
}

pub proof fn lemma_mul_distributes_left<T: Add<Output = T> + Mul<Output = T> + From<u8>>(
    a: T,
    b: T,
    c: T,
)
    requires
        semiring::<T>(),
    ensures
        a.mul_spec(b.add_spec(c)) == a.mul_spec(b).add_spec(a.mul_spec(c)),
{
    reveal(semiring);
}

pub proof fn lemma_mul_zero<T: Add<Output = T> + Mul<Output = T> + From<u8>>(a: T)
    requires
        semiring::<T>(),
    ensures
        zero::<T>().mul_spec(a) == zero::<T>(),
        a.mul_spec(zero::<T>()) == zero::<T>(),
{
    reveal(semiring);
}

/// `(x + y) + (z + w)` is `(x + z) + (y + w)`.
pub proof fn lemma_add_swap_inner<T: Add<Output = T> + Mul<Output = T> + From<u8>>(
    x: T,
    y: T,
    z: T,
    w: T,
)
    requires
        semiring::<T>(),
    ensures
        x.add_spec(y).add_spec(z.add_spec(w)) == x.add_spec(z).add_spec(y.add_spec(w)),
{
    lemma_add_assoc(x, y, z.add_spec(w));
    lemma_add_assoc(y, z, w);
    lemma_add_comm(y, z);
    lemma_add_assoc(z, y, w);
    lemma_add_assoc(x, z, y.add_spec(w));
}

/// The sum of `h(k, l)` over the first `n` values of `k`.
pub open spec fn sum_first<T: Add<Output = T> + From<u8>>(
    h: spec_fn(int, int) -> T,
    l: int,
    n: nat,
) -> T
    decreases n,
{
    if n == 0 {
        zero::<T>()
    } else {
        sum_first(h, l, (n - 1) as nat).add_spec(h(n - 1, l))
    }
}

/// The sum of `h(k, l)` over the first `p` values of `l`.
pub open spec fn sum_second<T: Add<Output = T> + From<u8>>(
    h: spec_fn(int, int) -> T,
    k: int,
    p: nat,
) -> T
    decreases p,
{
    if p == 0 {
        zero::<T>()
    } else {
        sum_second(h, k, (p - 1) as nat).add_spec(h(k, p - 1))
    }
}

/// The sum over the first `p` values of `l` of the sums of `h(k, l)` over
/// the first `n` values of `k`.
pub open spec fn sum_first_inside<T: Add<Output = T> + From<u8>>(
    h: spec_fn(int, int) -> T,
    n: nat,
    p: nat,
) -> T
    decreases p,
{
    if p == 0 {
        zero::<T>()
    } else {
        sum_first_inside(h, n, (p - 1) as nat).add_spec(sum_first(h, p - 1, n))
    }
}

/// The sum over the first `n` values of `k` of the sums of `h(k, l)` over
/// the first `p` values of `l`.
pub open spec fn sum_second_inside<T: Add<Output = T> + From<u8>>(
    h: spec_fn(int, int) -> T,
    n: nat,
    p: nat,
) -> T
    decreases n,
{
    if n == 0 {
        zero::<T>()
    } else {
        sum_second_inside(h, (n - 1) as nat, p).add_spec(sum_second(h, n - 1, p))
    }
}

proof fn lemma_sum_second_inside_empty<T: Add<Output = T> + Mul<Output = T> + From<u8>>(
    h: spec_fn(int, int) -> T,
    n: nat,
)
    requires
        semiring::<T>(),
    ensures
        sum_second_inside(h, n, 0) == zero::<T>(),
    decreases n,
{
    if n > 0 {
        lemma_sum_second_inside_empty(h, (n - 1) as nat);
        lemma_add_zero(zero::<T>());
    }
}

proof fn lemma_sum_second_inside_step<T: Add<Output = T> + Mul<Output = T> + From<u8>>(
    h: spec_fn(int, int) -> T,
    n: nat,
    p: nat,
)
    requires
        semiring::<T>(),
        p > 0,
    ensures
        sum_second_inside(h, n, p) == sum_second_inside(h, n, (p - 1) as nat).add_spec(
            sum_first(h, p - 1, n),
        ),
    decreases n,
{
    let q = (p - 1) as nat;
    if n == 0 {
        lemma_add_zero(zero::<T>());
    } else {
        let m = (n - 1) as nat;
        lemma_sum_second_inside_step(h, m, p);
        lemma_add_swap_inner(
            sum_second_inside(h, m, q),
            sum_first(h, p - 1, m),
            sum_second(h, n - 1, q),
            h(n - 1, p - 1),
        );
    }
}

/// A sum over two indices does not depend on which index is summed first.
pub proof fn lemma_sum_exchange<T: Add<Output = T> + Mul<Output = T> + From<u8>>(
    h: spec_fn(int, int) -> T,
    n: nat,
    p: nat,
)
    requires
        semiring::<T>(),
    ensures
        sum_first_inside(h, n, p) == sum_second_inside(h, n, p),
    decreases p,
{
    if p == 0 {
        lemma_sum_second_inside_empty(h, n);
    } else {
        lemma_sum_exchange(h, n, (p - 1) as nat);
        lemma_sum_second_inside_step(h, n, p);
    }
}

} // verus!
