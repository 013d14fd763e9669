//! Arithmetic modulo the group order.

use crate::group::is_unit;
use crate::scalar::{group_order, mul_mod};
use vstd::arithmetic::div_mod::{
    lemma_add_mod_noop, lemma_mod_equivalence, lemma_mul_mod_noop_left, lemma_mul_mod_noop_right,
    lemma_small_mod, lemma_sub_mod_noop,
};
use vstd::prelude::*;

verus! {

/// Sum of two integers reduced modulo the group order.
pub open spec fn add_mod(a: int, b: int) -> int {
    (a + b) % group_order()
}

/// Difference of two integers reduced modulo the group order.
pub open spec fn sub_mod(a: int, b: int) -> int {
    (a - b) % group_order()
}

/// The reduced product does not depend on the order of its factors.
pub proof fn lemma_mul_mod_commutes(a: int, b: int)
    ensures
        mul_mod(a, b) == mul_mod(b, a),
{
    assert(a * b == b * a) by (nonlinear_arith);
}

/// The reduced sum does not depend on the order of its terms.
pub proof fn lemma_add_mod_commutes(a: int, b: int)
    ensures
        add_mod(a, b) == add_mod(b, a),
{
}

/// Reduced sums may be nested either way.
pub proof fn lemma_add_mod_associates(a: int, b: int, c: int)
    ensures
        add_mod(a, add_mod(b, c)) == add_mod(add_mod(a, b), c),
        add_mod(a, add_mod(b, c)) == (a + b + c) % group_order(),
{
    let r = group_order();
    lemma_add_mod_noop(a, b + c, r);
    lemma_add_mod_noop(a + b, c, r);
    lemma_small_mod(((b + c) % r) as nat, r as nat);
    lemma_small_mod(((a + b) % r) as nat, r as nat);
    lemma_add_mod_noop(a, (b + c) % r, r);
    lemma_add_mod_noop((a + b) % r, c, r);
}

/// A value below the group order is its own residue.
pub proof fn lemma_reduced_is_fixed(a: int)
    requires
        0 <= a < group_order(),
    ensures
        a % group_order() == a,
{
    lemma_small_mod(a as nat, group_order() as nat);
}

/// One more multiple: adding the factor to a reduced product gives the
/// reduced product of the successor.
pub proof fn lemma_mul_mod_successor(j: int, t: int)
    ensures
        add_mod(mul_mod(j, t), t) == mul_mod(j + 1, t),
{
    let r = group_order();
    assert((j + 1) * t == j * t + t) by (nonlinear_arith);
    lemma_add_mod_noop(j * t, t, r);
    lemma_add_mod_noop((j * t) % r, t, r);
    lemma_small_mod(((j * t) % r) as nat, r as nat);
}

/// A residue moved across a congruence: `a` is congruent to `b - c` exactly
/// when `a + c` is congruent to `b`.
pub proof fn lemma_congruence_shift(a: int, b: int, c: int)
    ensures
        a % group_order() == (b - c) % group_order() <==> (a + c) % group_order() == b
            % group_order(),
{
    let r = group_order();
    lemma_mod_equivalence(a, b - c, r);
    lemma_mod_equivalence(a + c, b, r);
}

/// A step of a search by strides: the element sought, less `i` strides of
/// `m` multiples, is the `j`-th multiple exactly when the element sought is
/// the multiple numbered `i * m + j`.
pub proof fn lemma_stride_match(e: int, t: int, m: int, i: int, j: int)
    requires
        0 <= e < group_order(),
    ensures
        mul_mod(j, t) == sub_mod(e, i * (m * t)) <==> mul_mod(i * m + j, t) == e,
{
    let r = group_order();
    lemma_congruence_shift(j * t, e, i * (m * t));
    assert((i * m + j) * t == j * t + i * (m * t)) by (nonlinear_arith);
    lemma_small_mod(e as nat, r as nat);
}

/// Taking one more stride off.
pub proof fn lemma_stride_step(e: int, t: int, m: int, i: int)
    ensures
        sub_mod(sub_mod(e, i * (m * t)), mul_mod(m, t)) == sub_mod(e, (i + 1) * (m * t)),
{
    let r = group_order();
    let a = e - i * (m * t);
    lemma_sub_mod_noop(a, m * t, r);
    assert((i + 1) * (m * t) == i * (m * t) + m * t) by (nonlinear_arith);
}

/// Multiplication by a unit can be undone: two residues with the same
/// product are the same.
pub proof fn lemma_unit_cancels(t: int, x: int, y: int)
    requires
        is_unit(t),
        0 <= x < group_order(),
        0 <= y < group_order(),
        mul_mod(x, t) == mul_mod(y, t),
    ensures
        x == y,
{
    let r = group_order();
    let u = choose|u: int| 0 <= u < group_order() && #[trigger] mul_mod(t, u) == 1;
    lemma_recover(t, u, x);
    lemma_recover(t, u, y);
}

/// Multiplying by a unit and then by its inverse gives back the residue.
proof fn lemma_recover(t: int, u: int, x: int)
    requires
        mul_mod(t, u) == 1,
        0 <= x < group_order(),
    ensures
        mul_mod(mul_mod(x, t), u) == x,
{
    let r = group_order();
    lemma_mul_mod_noop_left(x * t, u, r);
    assert((x * t) * u == x * (t * u)) by (nonlinear_arith);
    lemma_mul_mod_noop_right(x, t * u, r);
    assert(x * 1 == x);
    lemma_small_mod(x as nat, r as nat);
}

} // verus!
