//! The algebra: multivectors of the projective geometric algebra of the
//! plane, with the metric `e0*e0 = 0`, `e1*e1 = 1`, `e2*e2 = 1`.
use crate::tables::lemma_products_of_blades;
use vstd::prelude::*;

verus! {

/// A multivector: one real component for each of the eight basis blades.
pub struct Multivector {
    pub s: real,
    pub e0: real,
    pub e1: real,
    pub e2: real,
    pub e01: real,
    pub e02: real,
    pub e12: real,
    pub e012: real,
}

impl Multivector {
    /// The multivector with every component zero.
    pub open spec fn zero() -> Multivector {
        Multivector {
            s: 0real,
            e0: 0real,
            e1: 0real,
            e2: 0real,
            e01: 0real,
            e02: 0real,
            e12: 0real,
            e012: 0real,
        }
    }

    /// The scalar `value` as a multivector.
    pub open spec fn scalar(value: real) -> Multivector {
        Multivector { s: value, ..Multivector::zero() }
    }

    /// The part of grade zero: the scalar.
    pub open spec fn grade0(self) -> Multivector {
        Multivector { s: self.s, ..Multivector::zero() }
    }

    /// The part of grade one: the vector.
    pub open spec fn grade1(self) -> Multivector {
        Multivector { e0: self.e0, e1: self.e1, e2: self.e2, ..Multivector::zero() }
    }

    /// The part of grade two: the bivector.
    pub open spec fn grade2(self) -> Multivector {
        Multivector { e01: self.e01, e02: self.e02, e12: self.e12, ..Multivector::zero() }
    }

    /// The part of grade three: the trivector.
    pub open spec fn grade3(self) -> Multivector {
        Multivector { e012: self.e012, ..Multivector::zero() }
    }

    /// The part of the given grade. No part has a grade outside zero to three.
    pub open spec fn grade(self, grade: int) -> Multivector {
        if grade == 0 {
            self.grade0()
        } else if grade == 1 {
            self.grade1()
        } else if grade == 2 {
            self.grade2()
        } else if grade == 3 {
            self.grade3()
        } else {
            Multivector::zero()
        }
    }

    /// The sum, component by component.
    pub open spec fn add(self, other: Multivector) -> Multivector {
        Multivector {
            s: self.s + other.s,
            e0: self.e0 + other.e0,
            e1: self.e1 + other.e1,
            e2: self.e2 + other.e2,
            e01: self.e01 + other.e01,
            e02: self.e02 + other.e02,
            e12: self.e12 + other.e12,
            e012: self.e012 + other.e012,
        }
    }

    /// The difference, component by component.
    pub open spec fn sub(self, other: Multivector) -> Multivector {
        Multivector {
            s: self.s - other.s,
            e0: self.e0 - other.e0,
            e1: self.e1 - other.e1,
            e2: self.e2 - other.e2,
            e01: self.e01 - other.e01,
            e02: self.e02 - other.e02,
            e12: self.e12 - other.e12,
            e012: self.e012 - other.e012,
        }
    }

    /// The multivector with the sign of every component changed.
    pub open spec fn neg(self) -> Multivector {
        Multivector {
            s: -self.s,
            e0: -self.e0,
            e1: -self.e1,
            e2: -self.e2,
            e01: -self.e01,
            e02: -self.e02,
            e12: -self.e12,
            e012: -self.e012,
        }
    }

    /// The multivector with every component multiplied by `factor`.
    pub open spec fn scale(self, factor: real) -> Multivector {
        Multivector {
            s: self.s * factor,
            e0: self.e0 * factor,
            e1: self.e1 * factor,
            e2: self.e2 * factor,
            e01: self.e01 * factor,
            e02: self.e02 * factor,
            e12: self.e12 * factor,
            e012: self.e012 * factor,
        }
    }

    /// The geometric product: the bilinear product in which `e0` squares to
    /// zero, `e1` and `e2` square to one, and different basis vectors
    /// anticommute.
    pub open spec fn mul(self, other: Multivector) -> Multivector {
        let a = self;
        let b = other;
        Multivector {
            s: a.s * b.s + a.e1 * b.e1 + a.e2 * b.e2 - a.e12 * b.e12,
            e0: a.s * b.e0 + a.e0 * b.s - a.e1 * b.e01 - a.e2 * b.e02 + a.e01 * b.e1 + a.e02
                * b.e2 - a.e12 * b.e012 - a.e012 * b.e12,
            e1: a.s * b.e1 + a.e1 * b.s - a.e2 * b.e12 + a.e12 * b.e2,
            e2: a.s * b.e2 + a.e1 * b.e12 + a.e2 * b.s - a.e12 * b.e1,
            e01: a.s * b.e01 + a.e0 * b.e1 - a.e1 * b.e0 + a.e2 * b.e012 + a.e01 * b.s - a.e02
                * b.e12 + a.e12 * b.e02 + a.e012 * b.e2,
            e02: a.s * b.e02 + a.e0 * b.e2 - a.e1 * b.e012 - a.e2 * b.e0 + a.e01 * b.e12 + a.e02
                * b.s - a.e12 * b.e01 - a.e012 * b.e1,
            e12: a.s * b.e12 + a.e1 * b.e2 - a.e2 * b.e1 + a.e12 * b.s,
            e012: a.s * b.e012 + a.e0 * b.e12 - a.e1 * b.e02 + a.e2 * b.e01 + a.e01 * b.e2 - a.e02
                * b.e1 + a.e12 * b.e0 + a.e012 * b.s,
        }
    }

    /// One term of the wedge product: of the product of the part of grade
    /// `j` with the part of grade `k`, the part of grade `j + k`.
    pub open spec fn wedge_term(self, other: Multivector, j: int, k: int) -> Multivector {
        self.grade(j).mul(other.grade(k)).grade(j + k)
    }

    /// The terms of the wedge product for one grade `j` of `self`.
    pub open spec fn wedge_row(self, other: Multivector, j: int) -> Multivector {
        self.wedge_term(other, j, 0).add(self.wedge_term(other, j, 1)).add(
            self.wedge_term(other, j, 2),
        ).add(self.wedge_term(other, j, 3))
    }

    /// The wedge (outer) product: the sum over all grades `j` and `k` from
    /// zero to three of the part of grade `j + k` of the product of the part
    /// of grade `j` of `self` with the part of grade `k` of `other`.
    pub open spec fn wedge(self, other: Multivector) -> Multivector {
        self.wedge_row(other, 0).add(self.wedge_row(other, 1)).add(self.wedge_row(other, 2)).add(
            self.wedge_row(other, 3),
        )
    }

    /// One term of the inner product: of the product of the part of grade
    /// `j` with the part of grade `k`, the part of grade `|j - k|`.
    pub open spec fn inner_term(self, other: Multivector, j: int, k: int) -> Multivector {
        self.grade(j).mul(other.grade(k)).grade(
            if j >= k {
                j - k
            } else {
                k - j
            },
        )
    }

    /// The terms of the inner product for one grade `j` of `self`.
    pub open spec fn inner_row(self, other: Multivector, j: int) -> Multivector {
        self.inner_term(other, j, 0).add(self.inner_term(other, j, 1)).add(
            self.inner_term(other, j, 2),
        ).add(self.inner_term(other, j, 3))
    }

    /// The inner product: as the wedge product, with the part of grade
    /// `|j - k|` in place of that of grade `j + k`.
    pub open spec fn inner(self, other: Multivector) -> Multivector {
        self.inner_row(other, 0).add(self.inner_row(other, 1)).add(self.inner_row(other, 2)).add(
            self.inner_row(other, 3),
        )
    }

    /// The regressive product: the wedge product under duality.
    pub open spec fn regressive(self, other: Multivector) -> Multivector {
        self.dual().wedge(other.dual()).dual_inverse()
    }

    /// The reverse: the parts of grade two and three change their sign.
    pub open spec fn reverse(self) -> Multivector {
        Multivector {
            s: self.s,
            e0: self.e0,
            e1: self.e1,
            e2: self.e2,
            e01: -self.e01,
            e02: -self.e02,
            e12: -self.e12,
            e012: -self.e012,
        }
    }

    /// The dual: each blade goes to the blade of the basis vectors that it
    /// lacks, `e1` and `e02` with a change of sign.
    pub open spec fn dual(self) -> Multivector {
        Multivector {
            s: self.e012,
            e0: self.e12,
            e1: -self.e02,
            e2: self.e01,
            e01: self.e2,
            e02: -self.e1,
            e12: self.e0,
            e012: self.s,
        }
    }

    /// The inverse of the dual. In this algebra it is the dual itself.
    pub open spec fn dual_inverse(self) -> Multivector {
        Multivector {
            s: self.e012,
            e0: self.e12,
            e1: -self.e02,
            e2: self.e01,
            e01: self.e2,
            e02: -self.e1,
            e12: self.e0,
            e012: self.s,
        }
    }

    /// The square of the magnitude: the scalar part of the product with the
    /// reverse.
    pub open spec fn sqr_magnitude(self) -> real {
        self.mul(self.reverse()).s
    }

    /// Whether `root` is the magnitude: the square root, not negative, of
    /// the square of the magnitude.
    pub open spec fn has_magnitude(self, root: real) -> bool {
        root >= 0real && root * root == self.sqr_magnitude()
    }

    /// The magnitude below which a multivector is left as it is when it is
    /// normalised: a ten-thousandth.
    pub open spec fn threshold() -> real {
        1real / 10000real
    }

    /// The multivector divided by its magnitude `root`, or the multivector
    /// itself where the magnitude is below the threshold.
    pub open spec fn normalised(self, root: real) -> Multivector {
        if root >= Multivector::threshold() {
            self.scale(1real / root)
        } else {
            self
        }
    }
}

/// The reverse of the reverse is the multivector itself.
pub proof fn lemma_reverse_reverse(a: Multivector)
    ensures
        a.reverse().reverse() == a,
{
}

/// The dual and its inverse undo each other, and they are one map.
pub proof fn lemma_dual_dual_inverse(a: Multivector)
    ensures
        a.dual_inverse().dual() == a,
        a.dual().dual_inverse() == a,
        a.dual_inverse() == a.dual(),
{
}

/// The wedge product of a vector with itself is zero.
pub proof fn lemma_wedge_of_vector_with_itself(v: Multivector)
    requires
        v == v.grade1(),
    ensures
        v.wedge(v) == Multivector::zero(),
{
    assert(v.e0 * v.e1 == v.e1 * v.e0) by (nonlinear_arith);
    assert(v.e0 * v.e2 == v.e2 * v.e0) by (nonlinear_arith);
    assert(v.e1 * v.e2 == v.e2 * v.e1) by (nonlinear_arith);
}

/// The regressive product is the dual of the wedge product of the duals.
pub proof fn lemma_regressive_is_dual_of_wedge_of_duals(a: Multivector, b: Multivector)
    ensures
        a.regressive(b) == a.dual().wedge(b.dual()).dual(),
{
}

/// A square is not negative.
proof fn lemma_square_is_not_negative(x: real)
    by (nonlinear_arith)
    ensures
        x * x >= 0real,
        x * (-x) == -(x * x),
{
}

/// The square of the magnitude is a sum of four squares: of the scalar, of
/// the components of `e1` and `e2`, and of that of `e12`. So it is never
/// negative.
pub proof fn lemma_sqr_magnitude_is_sum_of_squares(a: Multivector)
    ensures
        a.sqr_magnitude() == a.s * a.s + a.e1 * a.e1 + a.e2 * a.e2 + a.e12 * a.e12,
        a.sqr_magnitude() >= 0real,
{
    lemma_square_is_not_negative(a.s);
    lemma_square_is_not_negative(a.e1);
    lemma_square_is_not_negative(a.e2);
    lemma_square_is_not_negative(a.e12);
}

/// The square of a product is the product of the squares.
proof fn lemma_square_of_scaled(x: real, factor: real)
    by (nonlinear_arith)
    ensures
        (x * factor) * (x * factor) == (x * x) * (factor * factor),
        (x * factor) * (-(x * factor)) == -((x * x) * (factor * factor)),
        x * (-x) == -(x * x),
{
}

/// The square of a number times the square of its inverse is one.
proof fn lemma_inverse_squared(root: real)
    by (nonlinear_arith)
    requires
        root > 0real,
    ensures
        (root * root) * ((1real / root) * (1real / root)) == 1real,
{
}

/// A factor of every term of a sum is a factor of the sum.
proof fn lemma_sum_scaled(a: real, b: real, c: real, d: real, factor: real)
    by (nonlinear_arith)
    ensures
        a * factor + b * factor + c * factor + d * factor == (a + b + c + d) * factor,
{
}

/// A multivector whose magnitude reaches the threshold has the magnitude one
/// after it is normalised.
pub proof fn lemma_normalised_has_magnitude_one(a: Multivector, root: real)
    requires
        a.has_magnitude(root),
        root >= Multivector::threshold(),
    ensures
        a.normalised(root).has_magnitude(1real),
{
    let factor = 1real / root;
    let square = factor * factor;
    lemma_inverse_squared(root);
    lemma_square_of_scaled(a.s, factor);
    lemma_square_of_scaled(a.e1, factor);
    lemma_square_of_scaled(a.e2, factor);
    lemma_square_of_scaled(a.e12, factor);
    lemma_sum_scaled(a.s * a.s, a.e1 * a.e1, a.e2 * a.e2, a.e12 * a.e12, square);
    assert(a.sqr_magnitude() == a.s * a.s + a.e1 * a.e1 + a.e2 * a.e2 + a.e12 * a.e12);
    assert(a.normalised(root).sqr_magnitude() == (a.s * a.s) * square + (a.e1 * a.e1) * square
        + (a.e2 * a.e2) * square + (a.e12 * a.e12) * square);
}

/// A multivector whose magnitude is below the threshold stays as it is when
/// it is normalised.
pub proof fn lemma_normalised_below_threshold(a: Multivector, root: real)
    requires
        root < Multivector::threshold(),
    ensures
        a.normalised(root) == a,
{
}

/// The eight basis blades: the products of none, one, two or all three of
/// the basis vectors `e0`, `e1`, `e2`, in rising order.
#[derive(Debug, Clone, Copy, PartialEq, Eq, Structural)]
pub enum Blade {
    S,
    E0,
    E1,
    E2,
    E01,
    E02,
    E12,
    E012,
}

/// The sign of a term: the factor minus one, zero or one.
#[derive(Debug, Clone, Copy, PartialEq, Eq, Structural)]
pub enum Sign {
    Minus,
    Zero,
    Plus,
}

impl Sign {
    /// The factor that the sign stands for.
    pub open spec fn value(self) -> real {
        match self {
            Sign::Minus => -1real,
            Sign::Zero => 0real,
            Sign::Plus => 1real,
        }
    }

    /// The value with the sign: the value, zero, or the value negated.
    pub open spec fn apply(self, value: real) -> real {
        match self {
            Sign::Minus => -value,
            Sign::Zero => 0real,
            Sign::Plus => value,
        }
    }

    /// The sign of the product of two factors.
    pub open spec fn times_spec(self, other: Sign) -> Sign {
        match (self, other) {
            (Sign::Zero, _) | (_, Sign::Zero) => Sign::Zero,
            (Sign::Plus, Sign::Plus) | (Sign::Minus, Sign::Minus) => Sign::Plus,
            _ => Sign::Minus,
        }
    }

    /// The sign of the product of two factors.
    #[verifier::when_used_as_spec(times_spec)]
    pub fn times(self, other: Sign) -> (r: Sign)
        ensures
            r == self.times_spec(other),
    {
        match (self, other) {
            (Sign::Zero, _) | (_, Sign::Zero) => Sign::Zero,
            (Sign::Plus, Sign::Plus) | (Sign::Minus, Sign::Minus) => Sign::Plus,
            _ => Sign::Minus,
        }
    }
}

/// The four products of the algebra.
#[derive(Debug, Clone, Copy, PartialEq, Eq, Structural)]
pub enum Product {
    Geometric,
    Wedge,
    Inner,
    Regressive,
}

/// The maps of the algebra that take each blade to a blade with a sign.
#[derive(Debug, Clone, Copy, PartialEq, Eq, Structural)]
pub enum BladeMap {
    Reverse,
    Dual,
    DualInverse,
}

/// A basis blade with a sign: what a product of basis blades is.
#[derive(Debug, Clone, Copy, PartialEq, Eq, Structural)]
pub struct Term {
    pub sign: Sign,
    pub blade: Blade,
}

impl Multivector {
    /// The multiple of a basis blade: `value` in its component, zero elsewhere.
    pub open spec fn single(blade: Blade, value: real) -> Multivector {
        match blade {
            Blade::S => Multivector { s: value, ..Multivector::zero() },
            Blade::E0 => Multivector { e0: value, ..Multivector::zero() },
            Blade::E1 => Multivector { e1: value, ..Multivector::zero() },
            Blade::E2 => Multivector { e2: value, ..Multivector::zero() },
            Blade::E01 => Multivector { e01: value, ..Multivector::zero() },
            Blade::E02 => Multivector { e02: value, ..Multivector::zero() },
            Blade::E12 => Multivector { e12: value, ..Multivector::zero() },
            Blade::E012 => Multivector { e012: value, ..Multivector::zero() },
        }
    }

    /// The basis blade as a multivector: one in its component, zero elsewhere.
    pub open spec fn basis(blade: Blade) -> Multivector {
        Multivector::single(blade, 1real)
    }

    /// The component that belongs to the basis blade.
    pub open spec fn component(self, blade: Blade) -> real {
        match blade {
            Blade::S => self.s,
            Blade::E0 => self.e0,
            Blade::E1 => self.e1,
            Blade::E2 => self.e2,
            Blade::E01 => self.e01,
            Blade::E02 => self.e02,
            Blade::E12 => self.e12,
            Blade::E012 => self.e012,
        }
    }

    /// The term as a multivector: its sign in the component of its blade.
    pub open spec fn term(term: Term) -> Multivector {
        Multivector::single(term.blade, term.sign.value())
    }

    /// The product of the given kind.
    pub open spec fn combine(self, product: Product, other: Multivector) -> Multivector {
        match product {
            Product::Geometric => self.mul(other),
            Product::Wedge => self.wedge(other),
            Product::Inner => self.inner(other),
            Product::Regressive => self.regressive(other),
        }
    }

    /// What one pair of components gives to a product: the product of the
    /// two components, with the sign and in the blade that the table of the
    /// product has for their blades.
    pub open spec fn cell(product: Product, a: Multivector, b: Multivector, i: Blade, j: Blade) -> Multivector {
        Multivector::single(
            i.combined_of(product, j).blade,
            i.combined_of(product, j).sign.apply(a.component(i) * b.component(j)),
        )
    }

    /// What one component of `a` gives to a product with `b`.
    pub open spec fn row(product: Product, a: Multivector, b: Multivector, i: Blade) -> Multivector {
        Multivector::cell(product, a, b, i, Blade::S).add(
            Multivector::cell(product, a, b, i, Blade::E0),
        ).add(Multivector::cell(product, a, b, i, Blade::E1)).add(
            Multivector::cell(product, a, b, i, Blade::E2),
        ).add(Multivector::cell(product, a, b, i, Blade::E01)).add(
            Multivector::cell(product, a, b, i, Blade::E02),
        ).add(Multivector::cell(product, a, b, i, Blade::E12)).add(
            Multivector::cell(product, a, b, i, Blade::E012),
        )
    }

    /// The table of a product applied to two multivectors: the sum over all
    /// pairs of a component of `a` and a component of `b`.
    pub open spec fn applied(product: Product, a: Multivector, b: Multivector) -> Multivector {
        Multivector::row(product, a, b, Blade::S).add(
            Multivector::row(product, a, b, Blade::E0),
        ).add(Multivector::row(product, a, b, Blade::E1)).add(
            Multivector::row(product, a, b, Blade::E2),
        ).add(Multivector::row(product, a, b, Blade::E01)).add(
            Multivector::row(product, a, b, Blade::E02),
        ).add(Multivector::row(product, a, b, Blade::E12)).add(
            Multivector::row(product, a, b, Blade::E012),
        )
    }

    /// What one component gives to the image under a map of blades: the
    /// component, with the sign and in the blade that the map gives its blade.
    pub open spec fn image(map: BladeMap, a: Multivector, i: Blade) -> Multivector {
        Multivector::single(i.mapped_of(map).blade, i.mapped_of(map).sign.apply(a.component(i)))
    }

    /// A map of blades applied to a multivector: the sum over its components.
    pub open spec fn mapped(map: BladeMap, a: Multivector) -> Multivector {
        Multivector::image(map, a, Blade::S).add(Multivector::image(map, a, Blade::E0)).add(
            Multivector::image(map, a, Blade::E1),
        ).add(Multivector::image(map, a, Blade::E2)).add(
            Multivector::image(map, a, Blade::E01),
        ).add(Multivector::image(map, a, Blade::E02)).add(
            Multivector::image(map, a, Blade::E12),
        ).add(Multivector::image(map, a, Blade::E012))
    }
}

impl Blade {
    /// Whether `e0` is among the basis vectors of the blade.
    pub open spec fn has_e0(self) -> bool {
        self == Blade::E0 || self == Blade::E01 || self == Blade::E02 || self == Blade::E012
    }

    /// Whether `e1` is among the basis vectors of the blade.
    pub open spec fn has_e1(self) -> bool {
        self == Blade::E1 || self == Blade::E01 || self == Blade::E12 || self == Blade::E012
    }

    /// Whether `e2` is among the basis vectors of the blade.
    pub open spec fn has_e2(self) -> bool {
        self == Blade::E2 || self == Blade::E02 || self == Blade::E12 || self == Blade::E012
    }

    /// The blade of the given basis vectors.
    pub open spec fn of(e0: bool, e1: bool, e2: bool) -> Blade {
        if e0 {
            if e1 {
                if e2 {
                    Blade::E012
                } else {
                    Blade::E01
                }
            } else {
                if e2 {
                    Blade::E02
                } else {
                    Blade::E0
                }
            }
        } else {
            if e1 {
                if e2 {
                    Blade::E12
                } else {
                    Blade::E1
                }
            } else {
                if e2 {
                    Blade::E2
                } else {
                    Blade::S
                }
            }
        }
    }

    /// The grade: the number of basis vectors of the blade.
    pub open spec fn grade_of(self) -> int {
        (if self.has_e0() {
            1int
        } else {
            0int
        }) + (if self.has_e1() {
            1int
        } else {
            0int
        }) + (if self.has_e2() {
            1int
        } else {
            0int
        })
    }

    /// The number of exchanges of neighbours that bring the basis vectors of
    /// `self` followed by those of `other` into rising order: the pairs of a
    /// basis vector of `self` and a lower one of `other`.
    pub open spec fn exchanges(self, other: Blade) -> int {
        (if self.has_e1() && other.has_e0() {
            1int
        } else {
            0int
        }) + (if self.has_e2() && other.has_e0() {
            1int
        } else {
            0int
        }) + (if self.has_e2() && other.has_e1() {
            1int
        } else {
            0int
        })
    }

    /// The product of two basis blades as the metric gives it. Each exchange
    /// of two different basis vectors changes the sign; then `e0*e0` is zero,
    /// `e1*e1` and `e2*e2` are one, and the basis vectors that stand in one
    /// blade only are left.
    pub open spec fn product_of(self, other: Blade) -> Term {
        Term {
            sign: if self.has_e0() && other.has_e0() {
                Sign::Zero
            } else if self.exchanges(other) % 2 == 0 {
                Sign::Plus
            } else {
                Sign::Minus
            },
            blade: Blade::of(
                self.has_e0() != other.has_e0(),
                self.has_e1() != other.has_e1(),
                self.has_e2() != other.has_e2(),
            ),
        }
    }

    /// The sign that the reverse gives the blade: writing the `k` basis
    /// vectors of the blade in falling order takes `k(k-1)/2` exchanges.
    pub open spec fn reverse_of(self) -> Sign {
        if (self.grade_of() * (self.grade_of() - 1) / 2) % 2 == 0 {
            Sign::Plus
        } else {
            Sign::Minus
        }
    }

    /// The dual of the blade: the blade of the basis vectors that it lacks,
    /// with a change of sign for `e1` and `e02`.
    pub open spec fn dual_of(self) -> Term {
        Term {
            sign: if self == Blade::E1 || self == Blade::E02 {
                Sign::Minus
            } else {
                Sign::Plus
            },
            blade: Blade::of(!self.has_e0(), !self.has_e1(), !self.has_e2()),
        }
    }

    /// The wedge product of two basis blades: their product where they share
    /// no basis vector, else zero.
    pub open spec fn wedge_of(self, other: Blade) -> Term {
        let product = self.product_of(other);
        if product.blade.grade_of() == self.grade_of() + other.grade_of() {
            product
        } else {
            Term { sign: Sign::Zero, blade: product.blade }
        }
    }

    /// The inner product of two basis blades: their product where one holds
    /// all the basis vectors of the other, else zero.
    pub open spec fn inner_of(self, other: Blade) -> Term {
        let product = self.product_of(other);
        let difference = if self.grade_of() >= other.grade_of() {
            self.grade_of() - other.grade_of()
        } else {
            other.grade_of() - self.grade_of()
        };
        if product.blade.grade_of() == difference {
            product
        } else {
            Term { sign: Sign::Zero, blade: product.blade }
        }
    }

    /// The regressive product of two basis blades: the dual of the wedge
    /// product of their duals.
    pub open spec fn regressive_of(self, other: Blade) -> Term {
        let left = self.dual_of();
        let right = other.dual_of();
        let wedge = left.blade.wedge_of(right.blade);
        let back = wedge.blade.dual_of();
        Term { sign: left.sign.times(right.sign).times(wedge.sign).times(back.sign), blade: back.blade }
    }

    /// The product of the given kind of two basis blades.
    pub open spec fn combined_of(self, product: Product, other: Blade) -> Term {
        match product {
            Product::Geometric => self.product_of(other),
            Product::Wedge => self.wedge_of(other),
            Product::Inner => self.inner_of(other),
            Product::Regressive => self.regressive_of(other),
        }
    }

    /// The image of the blade under the given map.
    pub open spec fn mapped_of(self, map: BladeMap) -> Term {
        match map {
            BladeMap::Reverse => Term { sign: self.reverse_of(), blade: self },
            BladeMap::Dual => self.dual_of(),
            BladeMap::DualInverse => self.dual_of(),
        }
    }

    fn contains_e0(self) -> (r: bool)
        ensures
            r == self.has_e0(),
    {
        match self {
            Blade::E0 | Blade::E01 | Blade::E02 | Blade::E012 => true,
            _ => false,
        }
    }

    fn contains_e1(self) -> (r: bool)
        ensures
            r == self.has_e1(),
    {
        match self {
            Blade::E1 | Blade::E01 | Blade::E12 | Blade::E012 => true,
            _ => false,
        }
    }

    fn contains_e2(self) -> (r: bool)
        ensures
            r == self.has_e2(),
    {
        match self {
            Blade::E2 | Blade::E02 | Blade::E12 | Blade::E012 => true,
            _ => false,
        }
    }

    fn with(e0: bool, e1: bool, e2: bool) -> (r: Blade)
        ensures
            r == Blade::of(e0, e1, e2),
    {
        if e0 {
            if e1 {
                if e2 {
                    Blade::E012
                } else {
                    Blade::E01
                }
            } else {
                if e2 {
                    Blade::E02
                } else {
                    Blade::E0
                }
            }
        } else {
            if e1 {
                if e2 {
                    Blade::E12
                } else {
                    Blade::E1
                }
            } else {
                if e2 {
                    Blade::E2
                } else {
                    Blade::S
                }
            }
        }
    }

    /// The eight blades in the order of their components.
    pub open spec fn in_order() -> Seq<Blade> {
        seq![
            Blade::S,
            Blade::E0,
            Blade::E1,
            Blade::E2,
            Blade::E01,
            Blade::E02,
            Blade::E12,
            Blade::E012,
        ]
    }

    /// The eight blades in the order of their components.
    pub fn all() -> (blades: [Blade; 8])
        ensures
            blades@ == Blade::in_order(),
    {
        [
            Blade::S,
            Blade::E0,
            Blade::E1,
            Blade::E2,
            Blade::E01,
            Blade::E02,
            Blade::E12,
            Blade::E012,
        ]
    }

    /// The place of the blade's component among the eight: the scalar has
    /// place zero, `e012` place seven.
    pub fn index(self) -> (r: usize)
        ensures
            r < 8,
            Blade::in_order()[r as int] == self,
    {
        match self {
            Blade::S => 0,
            Blade::E0 => 1,
            Blade::E1 => 2,
            Blade::E2 => 3,
            Blade::E01 => 4,
            Blade::E02 => 5,
            Blade::E12 => 6,
            Blade::E012 => 7,
        }
    }

    /// The grade of the blade, from zero to three. Of the multivector of the
    /// blade, the part of this grade is the whole and every other part zero.
    pub fn grade(self) -> (r: usize)
        ensures
            r == self.grade_of(),
            r <= 3,
            forall|k: int|
                #[trigger] Multivector::basis(self).grade(k) == if k == r {
                    Multivector::basis(self)
                } else {
                    Multivector::zero()
                },
    {
        match self {
            Blade::S => 0,
            Blade::E0 | Blade::E1 | Blade::E2 => 1,
            Blade::E01 | Blade::E02 | Blade::E12 => 2,
            Blade::E012 => 3,
        }
    }

    /// The geometric product of two basis blades.
    pub fn product(self, other: Blade) -> (term: Term)
        ensures
            term == self.product_of(other),
            Multivector::basis(self).mul(Multivector::basis(other)) == Multivector::term(term),
    {
        proof {
            lemma_products_of_blades(Product::Geometric, self, other);
        }
        let blade = Blade::with(
            self.contains_e0() != other.contains_e0(),
            self.contains_e1() != other.contains_e1(),
            self.contains_e2() != other.contains_e2(),
        );
        if self.contains_e0() && other.contains_e0() {
            return Term { sign: Sign::Zero, blade };
        }
        let mut odd = false;
        if self.contains_e1() && other.contains_e0() {
            odd = !odd;
        }
        if self.contains_e2() && other.contains_e0() {
            odd = !odd;
        }
        if self.contains_e2() && other.contains_e1() {
            odd = !odd;
        }
        Term {
            sign: if odd {
                Sign::Minus
            } else {
                Sign::Plus
            },
            blade,
        }
    }

    /// The sign with which the reverse takes the blade to itself.
    pub fn reverse(self) -> (sign: Sign)
        ensures
            sign == self.reverse_of(),
            Multivector::basis(self).reverse() == Multivector::single(self, sign.value()),
    {
        proof {
            assert(2int * 1int / 2 == 1 && 3int * 2int / 2 == 3 && 1int * 0int / 2 == 0 && 0int
                * -1int / 2 == 0);
        }
        if self.grade() >= 2 {
            Sign::Minus
        } else {
            Sign::Plus
        }
    }

    /// The dual of the blade.
    pub fn dual(self) -> (term: Term)
        ensures
            term == self.dual_of(),
            Multivector::basis(self).dual() == Multivector::term(term),
    {
        Term {
            sign: match self {
                Blade::E1 | Blade::E02 => Sign::Minus,
                _ => Sign::Plus,
            },
            blade: Blade::with(!self.contains_e0(), !self.contains_e1(), !self.contains_e2()),
        }
    }

    /// The inverse of the dual of the blade. It is the dual.
    pub fn dual_inverse(self) -> (term: Term)
        ensures
            term == self.dual_of(),
            Multivector::basis(self).dual_inverse() == Multivector::term(term),
    {
        self.dual()
    }

    /// The wedge product of two basis blades.
    pub fn wedge(self, other: Blade) -> (term: Term)
        ensures
            term == self.wedge_of(other),
            Multivector::basis(self).wedge(Multivector::basis(other)) == Multivector::term(term),
    {
        let product = self.product(other);
        proof {
            lemma_products_of_blades(Product::Wedge, self, other);
        }
        if product.blade.grade() == self.grade() + other.grade() {
            product
        } else {
            Term { sign: Sign::Zero, blade: product.blade }
        }
    }

    /// The inner product of two basis blades.
    pub fn inner(self, other: Blade) -> (term: Term)
        ensures
            term == self.inner_of(other),
            Multivector::basis(self).inner(Multivector::basis(other)) == Multivector::term(term),
    {
        let product = self.product(other);
        proof {
            lemma_products_of_blades(Product::Inner, self, other);
        }
        let difference = if self.grade() >= other.grade() {
            self.grade() - other.grade()
        } else {
            other.grade() - self.grade()
        };
        if product.blade.grade() == difference {
            product
        } else {
            Term { sign: Sign::Zero, blade: product.blade }
        }
    }

    /// The regressive product of two basis blades.
    pub fn regressive(self, other: Blade) -> (term: Term)
        ensures
            term == self.regressive_of(other),
            Multivector::basis(self).regressive(Multivector::basis(other)) == Multivector::term(
                term,
            ),
    {
        let left = self.dual();
        let right = other.dual();
        let wedge = left.blade.wedge(right.blade);
        let back = wedge.blade.dual_inverse();
        proof {
            lemma_products_of_blades(Product::Regressive, self, other);
        }
        Term { sign: left.sign.times(right.sign).times(wedge.sign).times(back.sign), blade: back.blade }
    }
    /// The product of the given kind of two basis blades.
    pub fn combine(self, product: Product, other: Blade) -> (term: Term)
        ensures
            term == self.combined_of(product, other),
            Multivector::basis(self).combine(product, Multivector::basis(other))
                == Multivector::term(term),
    {
        match product {
            Product::Geometric => self.product(other),
            Product::Wedge => self.wedge(other),
            Product::Inner => self.inner(other),
            Product::Regressive => self.regressive(other),
        }
    }

    /// The image of the blade under the given map.
    pub fn map(self, map: BladeMap) -> (term: Term)
        ensures
            term == self.mapped_of(map),
    {
        match map {
            BladeMap::Reverse => Term { sign: self.reverse(), blade: self },
            BladeMap::Dual => self.dual(),
            BladeMap::DualInverse => self.dual_inverse(),
        }
    }
}

} // verus!
