//! The value that the search gives to a state, as an exact number.
use vstd::prelude::*;

verus! {

/// How good a state is for the evaluated player.
///
/// A score is a defeat, a victory, or a fraction between the two: scores
/// are ordered as those numbers are, with a defeat below and a victory above
/// every fraction.
#[derive(Clone, Copy, Debug, PartialEq, Eq, Structural)]
pub enum Score {
    /// Below every other score.
    Lost,
    /// The player can reach less space than its opponent: minus one thousand
    /// divided by the number of cells that the player can reach.
    Behind(usize),
    /// Both can reach the same space, the first number: that number divided
    /// by the distance between the two, the second number.
    Level(usize, usize),
    /// The player can reach more space than its opponent: one hundred times
    /// the number of cells that the player can reach.
    Ahead(usize),
    /// Above every other score.
    Won,
}

impl Score {
    /// No score divides by zero.
    pub open spec fn valid(self) -> bool {
        match self {
            Score::Behind(space) => space >= 1,
            Score::Level(_, distance) => distance >= 1,
            _ => true,
        }
    }

    /// Minus one for a defeat, one for a victory, zero for a fraction.
    pub open spec fn rank(self) -> int {
        match self {
            Score::Lost => -1,
            Score::Won => 1,
            _ => 0,
        }
    }

    /// The numerator of a fraction.
    pub open spec fn numerator(self) -> int {
        match self {
            Score::Behind(_) => -1000,
            Score::Level(space, _) => space as int,
            Score::Ahead(space) => 100 * space,
            _ => 0,
        }
    }

    /// The denominator of a fraction.
    pub open spec fn denominator(self) -> int {
        match self {
            Score::Behind(space) => space as int,
            Score::Level(_, distance) => distance as int,
            _ => 1,
        }
    }

    /// Whether this score is strictly below `other`.
    pub open spec fn below(self, other: Score) -> bool {
        if self.rank() != other.rank() {
            self.rank() < other.rank()
        } else {
            self.rank() == 0 && self.numerator() * other.denominator() < other.numerator()
                * self.denominator()
        }
    }

    /// The lower of two scores; `other` where neither is below the other.
    pub open spec fn spec_min(self, other: Score) -> Score {
        if self.below(other) {
            self
        } else {
            other
        }
    }

    /// The higher of two scores; `other` where neither is below the other.
    pub open spec fn spec_max(self, other: Score) -> Score {
        if other.below(self) {
            self
        } else {
            other
        }
    }

    /// Whether this score is strictly below `other`.
    pub fn is_below(&self, other: &Score) -> (r: bool)
        requires
            self.valid(),
            other.valid(),
        ensures
            r == self.below(*other),
    {
        match (*self, *other) {
            (Score::Lost, Score::Lost) => false,
            (Score::Lost, _) => true,
            (_, Score::Lost) => false,
            (Score::Won, _) => false,
            (_, Score::Won) => true,
            (Score::Behind(a), Score::Behind(b)) => {
                assert((-1000 * b < -1000 * a) == (a < b));
                a < b
            },
            (Score::Behind(a), Score::Level(b, e)) => {
                assert(-1000 * e < b * a) by (nonlinear_arith)
                    requires
                        e >= 1,
                        a >= 0,
                        b >= 0,
                ;
                true
            },
            (Score::Behind(_), Score::Ahead(_)) => true,
            (Score::Level(a, d), Score::Behind(b)) => {
                assert(!(a * b < -1000 * d)) by (nonlinear_arith)
                    requires
                        d >= 1,
                        a >= 0,
                        b >= 0,
                ;
                false
            },
            (Score::Level(a, d), Score::Level(b, e)) => {
                product(a, e) < product(b, d)
            },
            (Score::Level(a, d), Score::Ahead(b)) => {
                let scaled: u128 = product(b, d);
                if scaled > a as u128 {
                    assert(a * 1 < (100 * b) * d) by (nonlinear_arith)
                        requires
                            b * d > a,
                            a >= 0,
                    ;
                    true
                } else {
                    assert((100 * b) * d == 100 * scaled) by (nonlinear_arith)
                        requires
                            scaled == b * d,
                    ;
                    (a as u128) < 100 * scaled
                }
            },
            (Score::Ahead(_), Score::Behind(_)) => false,
            (Score::Ahead(a), Score::Level(b, e)) => {
                let scaled: u128 = product(a, e);
                if scaled > b as u128 {
                    assert(!((100 * a) * e < b * 1)) by (nonlinear_arith)
                        requires
                            a * e > b,
                            b >= 0,
                    ;
                    false
                } else {
                    assert((100 * a) * e == 100 * scaled) by (nonlinear_arith)
                        requires
                            scaled == a * e,
                    ;
                    100 * scaled < b as u128
                }
            },
            (Score::Ahead(a), Score::Ahead(b)) => a < b,
        }
    }

    /// The lower of two scores; `other` where neither is below the other.
    pub fn min(self, other: Score) -> (r: Score)
        requires
            self.valid(),
            other.valid(),
        ensures
            r == self.spec_min(other),
            r.valid(),
    {
        if self.is_below(&other) {
            self
        } else {
            other
        }
    }

    /// The higher of two scores; `other` where neither is below the other.
    pub fn max(self, other: Score) -> (r: Score)
        requires
            self.valid(),
            other.valid(),
        ensures
            r == self.spec_max(other),
            r.valid(),
    {
        if other.is_below(&self) {
            self
        } else {
            other
        }
    }
}

/// The product of two sizes, which fits in 128 bits.
fn product(a: usize, b: usize) -> (r: u128)
    ensures
        r == a * b,
{
    assert(a * b <= 0xffff_ffff_ffff_ffff * 0xffff_ffff_ffff_ffff) by (nonlinear_arith)
        requires
            0 <= a <= 0xffff_ffff_ffff_ffff,
            0 <= b <= 0xffff_ffff_ffff_ffff,
    ;
    (a as u128) * (b as u128)
}

/// Of three valid scores of which the first is below the second and the
/// second below the third, the first is below the third.
pub proof fn lemma_below_transitive(a: Score, b: Score, c: Score)
    requires
        a.valid(),
        b.valid(),
        c.valid(),
        a.below(b),
        b.below(c),
    ensures
        a.below(c),
{
    if a.rank() == 0 && b.rank() == 0 && c.rank() == 0 {
        lemma_fractions_ordered(
            a.numerator(),
            a.denominator(),
            b.numerator(),
            b.denominator(),
            c.numerator(),
            c.denominator(),
        );
    }
}

/// Of three valid scores of which the second is not below the first and
/// the second is below the third, the first is below the third.
pub proof fn lemma_below_after_not_below(a: Score, b: Score, c: Score)
    requires
        a.valid(),
        b.valid(),
        c.valid(),
        !b.below(a),
        b.below(c),
    ensures
        a.below(c),
{
    if a.rank() == 0 && b.rank() == 0 && c.rank() == 0 {
        lemma_fractions_ordered(
            a.numerator(),
            a.denominator(),
            b.numerator(),
            b.denominator(),
            c.numerator(),
            c.denominator(),
        );
    }
}

/// Fractions with positive denominators are ordered as numbers are: what is
/// not above a second fraction is below every fraction that the second is
/// below.
proof fn lemma_fractions_ordered(n1: int, d1: int, n2: int, d2: int, n3: int, d3: int)
    requires
        d1 > 0,
        d2 > 0,
        d3 > 0,
        n1 * d2 <= n2 * d1,
        n2 * d3 < n3 * d2,
    ensures
        n1 * d3 < n3 * d1,
{
    assert((n1 * d2) * d3 <= (n2 * d1) * d3) by (nonlinear_arith)
        requires
            n1 * d2 <= n2 * d1,
            d3 > 0,
    ;
    assert((n2 * d3) * d1 < (n3 * d2) * d1) by (nonlinear_arith)
        requires
            n2 * d3 < n3 * d2,
            d1 > 0,
    ;
    assert((n2 * d1) * d3 == (n2 * d3) * d1) by (nonlinear_arith);
    assert((n1 * d2) * d3 == (n1 * d3) * d2) by (nonlinear_arith);
    assert((n3 * d2) * d1 == (n3 * d1) * d2) by (nonlinear_arith);
    assert(n1 * d3 < n3 * d1) by (nonlinear_arith)
        requires
            (n1 * d3) * d2 < (n3 * d1) * d2,
            d2 > 0,
    ;
}

} // verus!
