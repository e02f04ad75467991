use srmc::MathError;
use srmc::accumulate;
use srmc::create_sequential_vec;
use srmc::simpson_coefficients;
use srmc::trapezoid_coefficients;
use srmc::validate_integration_request;
use srmc::validate_step_count;
use srmc::weighted_terms;

/// Strict order on f32, as the quadrature walk uses it.
fn lt(a: f32, b: f32) -> bool {
    a < b
}

/// Full Simpson's pipeline over f32, as an application assembles it.
fn simpsons_f32(f: impl Fn(f32) -> f32, lower: f32, upper: f32, steps: i32) -> Result<f32, MathError> {
    validate_integration_request(lower > upper, steps)?;
    let interval = (upper - lower) / steps as f32;
    let values = create_sequential_vec(lower, upper, lt, move |x: f32| x + interval, steps as usize + 2);
    let coefficients = simpson_coefficients(values.len());
    let terms = weighted_terms(&values, &coefficients, f, |y: f32, c: u32| {
        if c == 1 { y } else { y * c as f32 }
    });
    let sum = accumulate(&terms, 0.0f32, |a: f32, b: f32| a + b);
    Ok((((upper - lower) / steps as f32) * sum) / 3.0)
}

/// Full trapezoidal pipeline over f32, as an application assembles it.
fn trapezoidal_f32(f: impl Fn(f32) -> f32, lower: f32, upper: f32, steps: i32) -> Result<f32, MathError> {
    validate_integration_request(lower > upper, steps)?;
    let interval = (upper - lower) / steps as f32;
    let values = create_sequential_vec(lower, upper, lt, move |x: f32| x + interval, steps as usize + 2);
    let coefficients = trapezoid_coefficients(values.len());
    let terms = weighted_terms(&values, &coefficients, f, |y: f32, c: u32| {
        if c == 1 { y } else { y * c as f32 }
    });
    let sum = accumulate(&terms, 0.0f32, |a: f32, b: f32| a + b);
    Ok(((upper - lower) / (2.0 * steps as f32)) * sum)
}

#[test]
fn generate_equal_bounds_single_element() {
    let r = create_sequential_vec(2.5f32, 2.5f32, lt, |x: f32| x + 1.0, 10);
    assert_eq!(r, vec![2.5f32]);
}

#[test]
fn generate_equal_bounds_single_element_any_steps() {
    for steps in [1usize, 2, 7, 100] {
        let r = create_sequential_vec(-3.0f32, -3.0f32, lt, |x: f32| x + 0.5, steps + 2);
        assert_eq!(r, vec![-3.0f32]);
    }
}

#[test]
fn generate_integer_steps_no_drift() {
    let interval = (5.0f32 - 0.0) / 5.0;
    let r = create_sequential_vec(0.0f32, 5.0f32, lt, move |x: f32| x + interval, 7);
    assert_eq!(r, vec![0.0f32, 1.0, 2.0, 3.0, 4.0, 5.0]);
}

#[test]
fn generate_first_is_start_last_is_end() {
    let interval = (15.0f32 - 0.0) / 10.0;
    let r = create_sequential_vec(0.0f32, 15.0f32, lt, move |x: f32| x + interval, 12);
    assert_eq!(
        r,
        vec![0.0f32, 1.5, 3.0, 4.5, 6.0, 7.5, 9.0, 10.5, 12.0, 13.5, 15.0]
    );
    assert_eq!(r[0], 0.0f32);
    assert_eq!(r[r.len() - 1], 15.0f32);
}

#[test]
fn simpson_coefficients_pattern() {
    assert_eq!(simpson_coefficients(5), vec![1u32, 4, 2, 4, 1]);
    assert_eq!(simpson_coefficients(7), vec![1u32, 4, 2, 4, 2, 4, 1]);
}

#[test]
fn simpson_coefficients_degenerate_lengths() {
    assert_eq!(simpson_coefficients(1), vec![1u32]);
    assert_eq!(simpson_coefficients(2), vec![1u32, 1]);
}

#[test]
fn trapezoid_coefficients_pattern() {
    assert_eq!(trapezoid_coefficients(5), vec![1u32, 2, 2, 2, 1]);
    assert_eq!(trapezoid_coefficients(1), vec![1u32]);
    assert_eq!(trapezoid_coefficients(2), vec![1u32, 1]);
}

#[test]
fn validate_step_count_requires_positive() {
    assert_eq!(validate_step_count(5), Ok(()));
    assert_eq!(validate_step_count(1), Ok(()));
    assert_eq!(validate_step_count(0), Err(MathError::InvalidStepCount));
    assert_eq!(validate_step_count(-3), Err(MathError::InvalidStepCount));
}

#[test]
fn validate_accepts_even_positive_steps() {
    assert_eq!(validate_integration_request(false, 4), Ok(()));
    assert_eq!(validate_integration_request(false, 10000), Ok(()));
}

#[test]
fn validate_rejects_inverted_bounds() {
    assert_eq!(
        validate_integration_request(true, 4),
        Err(MathError::InvalidBounds)
    );
    // Inverted bounds take precedence over a bad step count.
    assert_eq!(
        validate_integration_request(true, 3),
        Err(MathError::InvalidBounds)
    );
}

#[test]
fn validate_rejects_odd_or_non_positive_steps() {
    assert_eq!(
        validate_integration_request(false, 3),
        Err(MathError::InvalidStepCount)
    );
    assert_eq!(
        validate_integration_request(false, 0),
        Err(MathError::InvalidStepCount)
    );
    assert_eq!(
        validate_integration_request(false, -2),
        Err(MathError::InvalidStepCount)
    );
}

#[test]
fn simpsons_exact_on_cubic() {
    let r = simpsons_f32(|x: f32| f32::powf(x, 3.0), 2.0, 10.0, 4);
    assert_eq!(r, Ok(2496.0f32));
}

#[test]
fn simpsons_matches_reference_sine_value() {
    let r = simpsons_f32(|x: f32| x.sin(), 0.0, std::f32::consts::PI, 10);
    assert_eq!(r, Ok(2.0001094f32));
}

#[test]
fn trapezoidal_exact_on_linear() {
    let r = trapezoidal_f32(|x: f32| x, 0.0, 10.0, 4);
    assert_eq!(r, Ok(50.0f32));
}

#[test]
fn quadrature_rules_reject_bad_requests() {
    let f = |x: f32| x;
    assert_eq!(simpsons_f32(f, 10.0, 2.0, 4), Err(MathError::InvalidBounds));
    assert_eq!(simpsons_f32(f, 2.0, 10.0, 3), Err(MathError::InvalidStepCount));
    assert_eq!(simpsons_f32(f, 2.0, 10.0, 0), Err(MathError::InvalidStepCount));
    assert_eq!(trapezoidal_f32(f, 10.0, 2.0, 4), Err(MathError::InvalidBounds));
    assert_eq!(trapezoidal_f32(f, 2.0, 10.0, 3), Err(MathError::InvalidStepCount));
    assert_eq!(trapezoidal_f32(f, 2.0, 10.0, -2), Err(MathError::InvalidStepCount));
}

#[test]
fn weighted_terms_pairs_value_with_same_index_coefficient() {
    let values = vec![1.0f32, 2.0, 3.0];
    let coefficients = vec![1u32, 4, 1];
    let terms = weighted_terms(&values, &coefficients, |x: f32| x + 10.0, |y: f32, c: u32| {
        if c == 1 { y } else { y * c as f32 }
    });
    assert_eq!(terms, vec![11.0f32, 48.0, 13.0]);
}

#[test]
fn accumulate_folds_left_to_right() {
    let terms = vec![1i64, 2, 3];
    let sum = accumulate(&terms, 0i64, |a: i64, b: i64| a + b);
    assert_eq!(sum, 6);
    // Subtraction is not associative, so the result pins the order down.
    let diff = accumulate(&terms, 0i64, |a: i64, b: i64| a - b);
    assert_eq!(diff, -6);
}

#[test]
fn accumulate_empty_returns_init() {
    let terms: Vec<i64> = vec![];
    assert_eq!(accumulate(&terms, 42i64, |a: i64, b: i64| a + b), 42);
}
