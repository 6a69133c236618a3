//! The tables of the products and maps of the algebra, applied to
//! multivectors: what the products and maps do to the basis blades settles
//! what they do to every multivector.
use crate::multivector::{Blade, BladeMap, Multivector, Product};
use vstd::prelude::*;

verus! {

/// The signs of products of which one factor or both are negated.
proof fn lemma_negated_factors(x: real, y: real)
    by (nonlinear_arith)
    ensures
        (-x) * y == -(x * y),
        x * (-y) == -(x * y),
        (-x) * (-y) == x * y,
{
}

/// The facts of `lemma_negated_factors` for `x` and each component of `b`,
/// in both orders.
proof fn lemma_negated_factors_of(x: real, b: Multivector)
    ensures
        forall|j: Blade|
            #![trigger b.component(j)]
            (-x) * b.component(j) == -(x * b.component(j)) && x * (-b.component(j)) == -(x
                * b.component(j)) && (-x) * (-b.component(j)) == x * b.component(j)
                && b.component(j) * (-x) == -(b.component(j) * x) && (-b.component(j)) * x == -(
            b.component(j) * x) && (-b.component(j)) * (-x) == b.component(j) * x,
{
    assert forall|j: Blade|
        #![trigger b.component(j)]
        (-x) * b.component(j) == -(x * b.component(j)) && x * (-b.component(j)) == -(x
            * b.component(j)) && (-x) * (-b.component(j)) == x * b.component(j) && b.component(j)
            * (-x) == -(b.component(j) * x) && (-b.component(j)) * x == -(b.component(j) * x) && (
        -b.component(j)) * (-x) == b.component(j) * x by {
        lemma_negated_factors(x, b.component(j));
        lemma_negated_factors(b.component(j), x);
    }
}

/// The geometric product is its table applied to the operands: the table
/// that the metric gives is the table of the product.
#[verifier::spinoff_prover]
pub proof fn lemma_product_applies_table(a: Multivector, b: Multivector)
    ensures
        a.mul(b) == Multivector::applied(Product::Geometric, a, b),
{
}

/// The wedge product is its table applied to the operands.
#[verifier::spinoff_prover]
pub proof fn lemma_wedge_applies_table(a: Multivector, b: Multivector)
    ensures
        a.wedge(b) == Multivector::applied(Product::Wedge, a, b),
{
}

/// The inner product is its table applied to the operands.
#[verifier::spinoff_prover]
pub proof fn lemma_inner_applies_table(a: Multivector, b: Multivector)
    ensures
        a.inner(b) == Multivector::applied(Product::Inner, a, b),
{
    let x = a.inner(b);
    let y = Multivector::applied(Product::Inner, a, b);
    assert(x.s == y.s);
    assert(x.e0 == y.e0);
    assert(x.e1 == y.e1);
    assert(x.e2 == y.e2);
    assert(x.e01 == y.e01);
    assert(x.e02 == y.e02);
    assert(x.e12 == y.e12);
    assert(x.e012 == y.e012);
}

/// The regressive product is its table applied to the operands.
#[verifier::spinoff_prover]
pub proof fn lemma_regressive_applies_table(a: Multivector, b: Multivector)
    ensures
        a.regressive(b) == Multivector::applied(Product::Regressive, a, b),
{
    lemma_negated_factors_of(a.e1, b);
    lemma_negated_factors_of(a.e02, b);
    assert(b.component(Blade::S) == b.s && b.component(Blade::E0) == b.e0 && b.component(Blade::E1)
        == b.e1 && b.component(Blade::E2) == b.e2 && b.component(Blade::E01) == b.e01
        && b.component(Blade::E02) == b.e02 && b.component(Blade::E12) == b.e12 && b.component(
        Blade::E012,
    ) == b.e012);
    lemma_negated_factors_of(b.e1, a);
    lemma_negated_factors_of(b.e02, a);
    assert(a.component(Blade::S) == a.s && a.component(Blade::E0) == a.e0 && a.component(Blade::E1)
        == a.e1 && a.component(Blade::E2) == a.e2 && a.component(Blade::E01) == a.e01
        && a.component(Blade::E02) == a.e02 && a.component(Blade::E12) == a.e12 && a.component(
        Blade::E012,
    ) == a.e012);
    let x = a.regressive(b);
    let y = Multivector::applied(Product::Regressive, a, b);
    assert(x.s == y.s);
    assert(x.e0 == y.e0);
    assert(x.e1 == y.e1);
    assert(x.e2 == y.e2);
    assert(x.e01 == y.e01);
    assert(x.e02 == y.e02);
    assert(x.e12 == y.e12);
    assert(x.e012 == y.e012);
}

/// Each product is its table applied to the operands: what a product does
/// to the basis blades settles what it does to all multivectors.
pub proof fn lemma_products_apply_tables(product: Product, a: Multivector, b: Multivector)
    ensures
        a.combine(product, b) == Multivector::applied(product, a, b),
{
    match product {
        Product::Geometric => lemma_product_applies_table(a, b),
        Product::Wedge => lemma_wedge_applies_table(a, b),
        Product::Inner => lemma_inner_applies_table(a, b),
        Product::Regressive => lemma_regressive_applies_table(a, b),
    }
}

/// The reverse and the dual are their maps of blades applied to the operand.
pub proof fn lemma_maps_apply_tables(a: Multivector)
    ensures
        a.reverse() == Multivector::mapped(BladeMap::Reverse, a),
        a.dual() == Multivector::mapped(BladeMap::Dual, a),
        a.dual_inverse() == Multivector::mapped(BladeMap::DualInverse, a),
{
    assert(2int * 1int / 2 == 1 && 3int * 2int / 2 == 3 && 1int * 0int / 2 == 0 && 0int * -1int
        / 2 == 0);
}

/// Of the multivectors of two blades, only the pair of the two components
/// that are one gives something to a product.
#[verifier::spinoff_prover]
proof fn lemma_cell_of_blades(product: Product, a: Blade, b: Blade, i: Blade, j: Blade)
    ensures
        Multivector::cell(product, Multivector::basis(a), Multivector::basis(b), i, j) == if i == a
            && j == b {
            Multivector::term(a.combined_of(product, b))
        } else {
            Multivector::zero()
        },
{
    let t = i.combined_of(product, j);
    assert(Multivector::single(t.blade, 0real) == Multivector::zero());
}

/// Of the multivectors of two blades, only the component of the first that
/// is one gives something to a product.
#[verifier::spinoff_prover]
proof fn lemma_row_of_blades(product: Product, a: Blade, b: Blade, i: Blade)
    ensures
        Multivector::row(product, Multivector::basis(a), Multivector::basis(b), i) == if i == a {
            Multivector::term(a.combined_of(product, b))
        } else {
            Multivector::zero()
        },
{
    lemma_cell_of_blades(product, a, b, i, Blade::S);
    lemma_cell_of_blades(product, a, b, i, Blade::E0);
    lemma_cell_of_blades(product, a, b, i, Blade::E1);
    lemma_cell_of_blades(product, a, b, i, Blade::E2);
    lemma_cell_of_blades(product, a, b, i, Blade::E01);
    lemma_cell_of_blades(product, a, b, i, Blade::E02);
    lemma_cell_of_blades(product, a, b, i, Blade::E12);
    lemma_cell_of_blades(product, a, b, i, Blade::E012);
}

/// The table of a product applied to the multivectors of two blades is the
/// multivector of the term that the table has for the blades.
#[verifier::spinoff_prover]
pub proof fn lemma_applied_to_blades(product: Product, a: Blade, b: Blade)
    ensures
        Multivector::applied(product, Multivector::basis(a), Multivector::basis(b))
            == Multivector::term(a.combined_of(product, b)),
{
    lemma_row_of_blades(product, a, b, Blade::S);
    lemma_row_of_blades(product, a, b, Blade::E0);
    lemma_row_of_blades(product, a, b, Blade::E1);
    lemma_row_of_blades(product, a, b, Blade::E2);
    lemma_row_of_blades(product, a, b, Blade::E01);
    lemma_row_of_blades(product, a, b, Blade::E02);
    lemma_row_of_blades(product, a, b, Blade::E12);
    lemma_row_of_blades(product, a, b, Blade::E012);
}

/// A product of the multivectors of two blades is the multivector of the
/// term that the table of the product has for the blades.
#[verifier::spinoff_prover]
pub proof fn lemma_products_of_blades(product: Product, a: Blade, b: Blade)
    ensures
        Multivector::basis(a).combine(product, Multivector::basis(b)) == Multivector::term(
            a.combined_of(product, b),
        ),
{
    lemma_products_apply_tables(product, Multivector::basis(a), Multivector::basis(b));
    lemma_applied_to_blades(product, a, b);
}

/// The geometric products of the basis vectors: `e0` squares to zero, `e1`
/// and `e2` square to one, and `e1` and `e2` anticommute.
pub proof fn lemma_products_of_basis_vectors()
    ensures
        Multivector::basis(Blade::E0).mul(Multivector::basis(Blade::E0)) == Multivector::zero(),
        Multivector::basis(Blade::E1).mul(Multivector::basis(Blade::E1)) == Multivector::scalar(
            1real,
        ),
        Multivector::basis(Blade::E2).mul(Multivector::basis(Blade::E2)) == Multivector::scalar(
            1real,
        ),
        Multivector::basis(Blade::E1).mul(Multivector::basis(Blade::E2)) == Multivector::basis(
            Blade::E12,
        ),
        Multivector::basis(Blade::E2).mul(Multivector::basis(Blade::E1)) == Multivector::basis(
            Blade::E12,
        ).neg(),
{
}

} // verus!
