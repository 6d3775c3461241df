use solar_system_rust::{Scalar, SimError, Vector2};

/// Double-precision floating point as the simulator's scalar. What a
/// contract calls `spec_add` is the same addition that `add` performs, and
/// so on for every operation.
#[derive(Clone, Copy, Debug, PartialEq)]
struct F(f64);

impl Scalar for F {
    fn spec_zero() -> F {
        F(0.0)
    }

    fn spec_half() -> F {
        F(0.5)
    }

    fn spec_from_i64(n: i64) -> F {
        F(n as f64)
    }

    fn spec_add(self, rhs: F) -> F {
        F(self.0 + rhs.0)
    }

    fn spec_sub(self, rhs: F) -> F {
        F(self.0 - rhs.0)
    }

    fn spec_mul(self, rhs: F) -> F {
        F(self.0 * rhs.0)
    }

    fn spec_div(self, rhs: F) -> F {
        F(self.0 / rhs.0)
    }

    fn spec_sqrt(self) -> F {
        F(self.0.sqrt())
    }

    fn spec_is_zero(self) -> bool {
        self.0 == 0.0
    }

    fn spec_is_positive(self) -> bool {
        self.0 > 0.0
    }

    fn zero() -> F {
        F(0.0)
    }

    fn half() -> F {
        F(0.5)
    }

    fn from_i64(n: i64) -> F {
        F(n as f64)
    }

    fn add(self, rhs: F) -> F {
        F(self.0 + rhs.0)
    }

    fn sub(self, rhs: F) -> F {
        F(self.0 - rhs.0)
    }

    fn mul(self, rhs: F) -> F {
        F(self.0 * rhs.0)
    }

    fn div(self, rhs: F) -> F {
        F(self.0 / rhs.0)
    }

    fn sqrt(self) -> F {
        F(self.0.sqrt())
    }

    fn is_zero(self) -> bool {
        self.0 == 0.0
    }

    fn is_positive(self) -> bool {
        self.0 > 0.0
    }
}

#[test]
fn new_zero_test() {
    assert_eq!(Vector2::new_zero(), Vector2::<F> { x: F(0.), y: F(0.) });
}

#[test]
fn new_test() {
    assert_eq!(Vector2::<F> { x: F(4.), y: F(1.) }, Vector2::new(F(4.), F(1.)));
}

#[test]
fn add_trait() {
    assert_eq!(
        Vector2::<F> { x: F(4.), y: F(1.) },
        Vector2::<F> { x: F(3.), y: F(1.5) }.add(Vector2::<F> { x: F(1.), y: F(-0.5) })
    );
}

#[test]
fn sub_trait() {
    assert_eq!(
        Vector2::<F> { x: F(2.), y: F(2.) },
        Vector2::<F> { x: F(3.), y: F(1.5) }.sub(Vector2::<F> { x: F(1.), y: F(-0.5) })
    );
}

#[test]
fn mul_trait() {
    assert_eq!(
        Vector2::<F> { x: F(6.), y: F(3.) },
        Vector2::<F> { x: F(3.), y: F(1.5) }.scale(F(2.))
    );
}

#[test]
fn div_trait() {
    assert_eq!(
        Vector2::<F> { x: F(6.), y: F(3.) }.div(F(2.)),
        Ok(Vector2::<F> { x: F(3.), y: F(1.5) })
    );
}

#[test]
fn norm_test() {
    assert_eq!(Vector2::<F> { x: F(4.), y: F(-3.) }.norm(), F(5_f64));
}

#[test]
fn div_by_zero_is_refused() {
    let v = Vector2::new(F(6.), F(3.));
    assert_eq!(v.div(F(0.)), Err(SimError::DivisionByZero));
    assert_eq!(v.div(F(-0.)), Err(SimError::DivisionByZero));
}

#[test]
fn getters_return_the_coordinates() {
    let v = Vector2::new(F(4.), F(-1.5));
    assert_eq!(v.get_x(), F(4.));
    assert_eq!(v.get_y(), F(-1.5));
}

#[test]
fn norm_of_zero_vector_is_zero() {
    assert_eq!(Vector2::<F>::new_zero().norm(), F(0.));
}

#[test]
fn operations_leave_their_operands() {
    let a = Vector2::new(F(1.), F(2.));
    let b = Vector2::new(F(0.5), F(-2.));
    let sum = a.add(b);
    assert_eq!(sum, Vector2::new(F(1.5), F(0.)));
    assert_eq!(a, Vector2::new(F(1.), F(2.)));
    assert_eq!(b, Vector2::new(F(0.5), F(-2.)));
    assert_eq!(a.clone(), a);
}

#[test]
fn scale_multiplies_each_coordinate() {
    assert_eq!(Vector2::new(F(1.5), F(-2.)).scale(F(-4.)), Vector2::new(F(-6.), F(8.)));
}
