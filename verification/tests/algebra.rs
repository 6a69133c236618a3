use ga_sandbox::multivector::{Blade, BladeMap, Product, Sign, Term};
use ga_sandbox::parameter::ParameterType;

type Components = [f32; 8];

const ZERO: Components = [0.0; 8];

fn signed(sign: Sign, value: f32) -> f32 {
    match sign {
        Sign::Minus => -value,
        Sign::Zero => 0.0,
        Sign::Plus => value,
    }
}

/// The table of a product applied to two multivectors.
fn combine(product: Product, a: &Components, b: &Components) -> Components {
    let mut out = ZERO;
    for i in Blade::all() {
        for j in Blade::all() {
            let term = i.combine(product, j);
            out[term.blade.index()] += signed(term.sign, a[i.index()] * b[j.index()]);
        }
    }
    out
}

/// A map of blades applied to a multivector.
fn map(map: BladeMap, a: &Components) -> Components {
    let mut out = ZERO;
    for i in Blade::all() {
        let term = i.map(map);
        out[term.blade.index()] += signed(term.sign, a[i.index()]);
    }
    out
}

fn basis(blade: Blade) -> Components {
    let mut out = ZERO;
    out[blade.index()] = 1.0;
    out
}

fn negated(a: &Components) -> Components {
    a.map(|x| -x)
}

fn grade(a: &Components, grade: usize) -> Components {
    let mut out = ZERO;
    for i in Blade::all() {
        if i.grade() == grade {
            out[i.index()] = a[i.index()];
        }
    }
    out
}

fn sum(a: &Components, b: &Components) -> Components {
    let mut out = ZERO;
    for i in 0..8 {
        out[i] = a[i] + b[i];
    }
    out
}

/// The geometric product written out component by component.
fn product_written_out(a: &Components, b: &Components) -> Components {
    let [a0, a1, a2, a3, a4, a5, a6, a7] = *a;
    let [b0, b1, b2, b3, b4, b5, b6, b7] = *b;
    [
        a0 * b0 + b2 * a2 + b3 * a3 - b6 * a6,
        a0 * b1 + a1 * b0 - b4 * a2 - b5 * a3 + b2 * a4 + b3 * a5 - b7 * a6 - b6 * a7,
        a0 * b2 + a2 * b0 - b6 * a3 + b3 * a6,
        a0 * b3 + b6 * a2 + a3 * b0 - b2 * a6,
        a0 * b4 + a1 * b2 - a2 * b1 + b7 * a3 + a4 * b0 - b6 * a5 + b5 * a6 + b3 * a7,
        a0 * b5 + a1 * b3 - b7 * a2 - a3 * b1 + b6 * a4 + a5 * b0 - b4 * a6 - b2 * a7,
        a0 * b6 + b3 * a2 - b2 * a3 + a6 * b0,
        a0 * b7 + a1 * b6 - b5 * a2 + b4 * a3 + b3 * a4 - b2 * a5 + a6 * b1 + a7 * b0,
    ]
}

/// A product as the sum over the grades `j` and `k` of the part of the
/// grade that `pick` gives of the product of the parts of grades `j` and `k`.
fn graded(a: &Components, b: &Components, pick: fn(usize, usize) -> usize) -> Components {
    let mut out = ZERO;
    for j in 0..=3 {
        for k in 0..=3 {
            let part = grade(&product_written_out(&grade(a, j), &grade(b, k)), pick(j, k));
            out = sum(&out, &part);
        }
    }
    out
}

const A: Components = [2.0, -3.0, 5.0, 7.0, -11.0, 13.0, 17.0, -19.0];

const B: Components = [-1.0, 4.0, 0.5, -6.0, 8.0, 9.0, -10.0, 12.0];

#[test]
fn the_blades_stand_in_the_order_of_their_components() {
    let all = Blade::all();
    assert_eq!(
        all,
        [
            Blade::S,
            Blade::E0,
            Blade::E1,
            Blade::E2,
            Blade::E01,
            Blade::E02,
            Blade::E12,
            Blade::E012
        ]
    );
    for (place, blade) in all.iter().enumerate() {
        assert_eq!(blade.index(), place);
    }
}

#[test]
fn the_grade_of_a_blade_counts_its_basis_vectors() {
    let grades: Vec<usize> = Blade::all().iter().map(|blade| blade.grade()).collect();
    assert_eq!(grades, vec![0, 1, 1, 1, 2, 2, 2, 3]);
}

#[test]
fn the_squares_of_the_basis_vectors_follow_the_metric() {
    let zero = Blade::E0.product(Blade::E0);
    assert_eq!(zero.sign, Sign::Zero);
    assert_eq!(combine(Product::Geometric, &basis(Blade::E0), &basis(Blade::E0)), ZERO);
    assert_eq!(Blade::E1.product(Blade::E1), Term { sign: Sign::Plus, blade: Blade::S });
    assert_eq!(Blade::E2.product(Blade::E2), Term { sign: Sign::Plus, blade: Blade::S });
    assert_eq!(
        combine(Product::Geometric, &basis(Blade::E1), &basis(Blade::E1)),
        basis(Blade::S)
    );
    assert_eq!(
        combine(Product::Geometric, &basis(Blade::E2), &basis(Blade::E2)),
        basis(Blade::S)
    );
}

#[test]
fn different_basis_vectors_anticommute() {
    assert_eq!(Blade::E1.product(Blade::E2), Term { sign: Sign::Plus, blade: Blade::E12 });
    assert_eq!(Blade::E2.product(Blade::E1), Term { sign: Sign::Minus, blade: Blade::E12 });
    assert_eq!(Blade::E0.product(Blade::E1), Term { sign: Sign::Plus, blade: Blade::E01 });
    assert_eq!(Blade::E1.product(Blade::E0), Term { sign: Sign::Minus, blade: Blade::E01 });
    assert_eq!(Blade::E0.product(Blade::E2), Term { sign: Sign::Plus, blade: Blade::E02 });
    assert_eq!(Blade::E2.product(Blade::E0), Term { sign: Sign::Minus, blade: Blade::E02 });
    assert_eq!(
        combine(Product::Geometric, &basis(Blade::E2), &basis(Blade::E1)),
        negated(&basis(Blade::E12))
    );
}

#[test]
fn products_of_blades_of_higher_grade() {
    assert_eq!(Blade::E01.product(Blade::E2), Term { sign: Sign::Plus, blade: Blade::E012 });
    assert_eq!(Blade::E12.product(Blade::E12), Term { sign: Sign::Minus, blade: Blade::S });
    assert_eq!(Blade::E1.product(Blade::E012), Term { sign: Sign::Minus, blade: Blade::E02 });
    assert_eq!(Blade::E012.product(Blade::E012).sign, Sign::Zero);
    assert_eq!(Blade::E12.product(Blade::E1), Term { sign: Sign::Minus, blade: Blade::E2 });
    assert_eq!(Blade::E1.product(Blade::E12), Term { sign: Sign::Plus, blade: Blade::E2 });
    assert_eq!(Blade::S.product(Blade::E02), Term { sign: Sign::Plus, blade: Blade::E02 });
}

#[test]
fn the_table_of_the_geometric_product_gives_the_product_written_out() {
    assert_eq!(combine(Product::Geometric, &A, &B), product_written_out(&A, &B));
    assert_eq!(combine(Product::Geometric, &B, &A), product_written_out(&B, &A));
    assert_eq!(
        combine(Product::Geometric, &A, &B),
        [128.5, -569.5, -36.0, -77.5, 486.5, -81.5, -70.5, 211.5]
    );
}

#[test]
fn the_table_of_the_wedge_product_keeps_the_sum_of_the_grades() {
    let expected = graded(&A, &B, |j, k| j + k);
    assert_eq!(combine(Product::Wedge, &A, &B), expected);
    assert_eq!(combine(Product::Wedge, &A, &B), [-2.0, 11.0, -4.0, -19.0, 5.5, -5.0, -70.5, 211.5]);
}

#[test]
fn the_table_of_the_inner_product_keeps_the_difference_of_the_grades() {
    let expected = graded(&A, &B, |j, k| j.abs_diff(k));
    assert_eq!(combine(Product::Inner, &A, &B), expected);
    assert_eq!(
        combine(Product::Inner, &A, &B),
        [128.5, -569.5, -36.0, -77.5, 225.0, -45.5, -37.0, 43.0]
    );
}

#[test]
fn the_wedge_product_of_a_vector_with_itself_is_zero() {
    let v = [0.0, 3.0, -4.0, 0.25, 0.0, 0.0, 0.0, 0.0];
    assert_eq!(combine(Product::Wedge, &v, &v), ZERO);
    let w = [0.0, -1.5, 2.0, 8.0, 0.0, 0.0, 0.0, 0.0];
    assert_eq!(combine(Product::Wedge, &v, &w), negated(&combine(Product::Wedge, &w, &v)));
}

#[test]
fn the_wedge_product_of_blades_that_share_a_basis_vector_is_zero() {
    assert_eq!(Blade::E1.wedge(Blade::E1).sign, Sign::Zero);
    assert_eq!(Blade::E01.wedge(Blade::E12).sign, Sign::Zero);
    assert_eq!(Blade::E0.wedge(Blade::E12), Term { sign: Sign::Plus, blade: Blade::E012 });
    assert_eq!(Blade::E2.wedge(Blade::E01), Term { sign: Sign::Plus, blade: Blade::E012 });
    assert_eq!(Blade::E1.wedge(Blade::E02), Term { sign: Sign::Minus, blade: Blade::E012 });
    assert_eq!(Blade::S.wedge(Blade::E1), Term { sign: Sign::Plus, blade: Blade::E1 });
}

#[test]
fn the_inner_product_of_blades_lowers_the_grade() {
    assert_eq!(Blade::E1.inner(Blade::E1), Term { sign: Sign::Plus, blade: Blade::S });
    assert_eq!(Blade::E0.inner(Blade::E0).sign, Sign::Zero);
    assert_eq!(Blade::E1.inner(Blade::E2).sign, Sign::Zero);
    assert_eq!(Blade::E1.inner(Blade::E12), Term { sign: Sign::Plus, blade: Blade::E2 });
    assert_eq!(Blade::E12.inner(Blade::E12), Term { sign: Sign::Minus, blade: Blade::S });
    assert_eq!(Blade::E12.inner(Blade::E012), Term { sign: Sign::Minus, blade: Blade::E0 });
}

#[test]
fn the_reverse_negates_the_grades_two_and_three() {
    assert_eq!(map(BladeMap::Reverse, &A), [2.0, -3.0, 5.0, 7.0, 11.0, -13.0, -17.0, 19.0]);
    let signs: Vec<Sign> = Blade::all().iter().map(|blade| blade.reverse()).collect();
    assert_eq!(
        signs,
        vec![
            Sign::Plus,
            Sign::Plus,
            Sign::Plus,
            Sign::Plus,
            Sign::Minus,
            Sign::Minus,
            Sign::Minus,
            Sign::Minus
        ]
    );
}

#[test]
fn the_reverse_of_the_reverse_is_the_multivector() {
    assert_eq!(map(BladeMap::Reverse, &map(BladeMap::Reverse, &A)), A);
    assert_eq!(map(BladeMap::Reverse, &map(BladeMap::Reverse, &B)), B);
}

#[test]
fn the_dual_exchanges_each_blade_with_the_blade_of_the_rest() {
    assert_eq!(map(BladeMap::Dual, &A), [-19.0, 17.0, -13.0, -11.0, 7.0, -5.0, -3.0, 2.0]);
    assert_eq!(Blade::S.dual(), Term { sign: Sign::Plus, blade: Blade::E012 });
    assert_eq!(Blade::E0.dual(), Term { sign: Sign::Plus, blade: Blade::E12 });
    assert_eq!(Blade::E1.dual(), Term { sign: Sign::Minus, blade: Blade::E02 });
    assert_eq!(Blade::E2.dual(), Term { sign: Sign::Plus, blade: Blade::E01 });
    assert_eq!(Blade::E01.dual(), Term { sign: Sign::Plus, blade: Blade::E2 });
    assert_eq!(Blade::E02.dual(), Term { sign: Sign::Minus, blade: Blade::E1 });
    assert_eq!(Blade::E12.dual(), Term { sign: Sign::Plus, blade: Blade::E0 });
    assert_eq!(Blade::E012.dual(), Term { sign: Sign::Plus, blade: Blade::S });
}

#[test]
fn the_dual_and_its_inverse_undo_each_other() {
    assert_eq!(map(BladeMap::Dual, &map(BladeMap::DualInverse, &A)), A);
    assert_eq!(map(BladeMap::DualInverse, &map(BladeMap::Dual, &B)), B);
    for blade in Blade::all() {
        assert_eq!(blade.dual(), blade.dual_inverse());
    }
}

#[test]
fn the_regressive_product_is_the_dual_of_the_wedge_product_of_the_duals() {
    let expected = map(
        BladeMap::Dual,
        &combine(Product::Wedge, &map(BladeMap::Dual, &A), &map(BladeMap::Dual, &B)),
    );
    assert_eq!(combine(Product::Regressive, &A, &B), expected);
    assert_eq!(
        combine(Product::Regressive, &A, &B),
        [211.5, -315.0, 24.5, -85.0, -284.0, -15.0, 394.0, -228.0]
    );
    assert_eq!(Blade::E01.regressive(Blade::E12), Term { sign: Sign::Plus, blade: Blade::E1 });
    assert_eq!(Blade::E02.regressive(Blade::E12), Term { sign: Sign::Plus, blade: Blade::E2 });
    assert_eq!(Blade::E012.regressive(Blade::E2), Term { sign: Sign::Plus, blade: Blade::E2 });
    assert_eq!(Blade::E1.regressive(Blade::E2).sign, Sign::Zero);
}

#[test]
fn combining_blades_by_kind_is_combining_them_by_name() {
    for a in Blade::all() {
        for b in Blade::all() {
            assert_eq!(a.combine(Product::Geometric, b), a.product(b));
            assert_eq!(a.combine(Product::Wedge, b), a.wedge(b));
            assert_eq!(a.combine(Product::Inner, b), a.inner(b));
            assert_eq!(a.combine(Product::Regressive, b), a.regressive(b));
        }
        assert_eq!(a.map(BladeMap::Reverse), Term { sign: a.reverse(), blade: a });
        assert_eq!(a.map(BladeMap::Dual), a.dual());
        assert_eq!(a.map(BladeMap::DualInverse), a.dual_inverse());
    }
}

#[test]
fn signs_multiply_as_their_factors() {
    assert_eq!(Sign::Plus.times(Sign::Plus), Sign::Plus);
    assert_eq!(Sign::Minus.times(Sign::Minus), Sign::Plus);
    assert_eq!(Sign::Plus.times(Sign::Minus), Sign::Minus);
    assert_eq!(Sign::Minus.times(Sign::Plus), Sign::Minus);
    assert_eq!(Sign::Zero.times(Sign::Minus), Sign::Zero);
    assert_eq!(Sign::Plus.times(Sign::Zero), Sign::Zero);
}

#[test]
fn parameter_kinds_have_their_names() {
    assert_eq!(ParameterType::Grade0.display_name(), "Scalar");
    assert_eq!(ParameterType::Grade1.display_name(), "Grade 1");
    assert_eq!(ParameterType::Grade2.display_name(), "Grade 2");
    assert_eq!(ParameterType::Grade3.display_name(), "Grade 3");
    assert_eq!(ParameterType::Multivector.display_name(), "Multivector");
}

#[test]
fn a_parameter_kind_keeps_the_components_of_its_grade() {
    let kept = |kind: ParameterType| -> Vec<bool> {
        Blade::all().iter().map(|blade| kind.keeps(*blade)).collect()
    };
    assert_eq!(kept(ParameterType::Grade0), [true, false, false, false, false, false, false, false]);
    assert_eq!(kept(ParameterType::Grade1), [false, true, true, true, false, false, false, false]);
    assert_eq!(kept(ParameterType::Grade2), [false, false, false, false, true, true, true, false]);
    assert_eq!(kept(ParameterType::Grade3), [false, false, false, false, false, false, false, true]);
    assert_eq!(kept(ParameterType::Multivector), [true; 8]);
}

#[test]
fn no_blade_has_a_grade_above_three() {
    for grade in 4..10 {
        assert_eq!(self::grade(&A, grade), ZERO);
    }
    assert_eq!(
        sum(&sum(&grade(&A, 0), &grade(&A, 1)), &sum(&grade(&A, 2), &grade(&A, 3))),
        A
    );
}

fn magnitude(a: &Components) -> f32 {
    combine(Product::Geometric, a, &map(BladeMap::Reverse, a))[Blade::S.index()].sqrt()
}

fn normalised(a: &Components) -> Components {
    let magnitude = magnitude(a);
    if magnitude >= 0.0001 {
        a.map(|x| x / magnitude)
    } else {
        *a
    }
}

#[test]
fn the_square_of_the_magnitude_is_the_scalar_part_of_the_product_with_the_reverse() {
    assert_eq!(magnitude(&[0.0, 9.0, 3.0, 4.0, 0.0, 0.0, 0.0, 0.0]), 5.0);
    assert_eq!(magnitude(&[1.0, 0.0, 2.0, 0.0, 7.0, 7.0, 2.0, 7.0]), 3.0);
    assert_eq!(magnitude(&basis(Blade::E0)), 0.0);
    assert_eq!(magnitude(&basis(Blade::E12)), 1.0);
}

#[test]
fn a_normalised_multivector_has_the_magnitude_one() {
    let unit = normalised(&[0.0, 9.0, 3.0, 4.0, 0.0, 0.0, 0.0, 0.0]);
    assert_eq!(unit, [0.0, 9.0 / 5.0, 3.0 / 5.0, 4.0 / 5.0, 0.0, 0.0, 0.0, 0.0]);
    assert!((magnitude(&unit) - 1.0).abs() < 1e-6);
    assert!((magnitude(&normalised(&A)) - 1.0).abs() < 1e-6);
    assert!((magnitude(&normalised(&B)) - 1.0).abs() < 1e-6);
}

#[test]
fn a_multivector_of_small_magnitude_is_left_as_it_is() {
    let small = [0.00005, 3.0, 0.0, 0.0, 2.0, 0.0, 0.0, 1.0];
    assert_eq!(normalised(&small), small);
    assert_eq!(normalised(&basis(Blade::E01)), basis(Blade::E01));
    assert_eq!(normalised(&ZERO), ZERO);
}
