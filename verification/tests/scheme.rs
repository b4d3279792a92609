use sidd_gpt::error::LinearError;
use sidd_gpt::scheme::{weight_plan, Family, InitPlan, Scheme};

#[test]
fn flag_selects_the_scheme() {
    assert_eq!(Scheme::from_flag(true), Scheme::He);
    assert_eq!(Scheme::from_flag(false), Scheme::Xavier);
}

#[test]
fn scheme_selects_the_family() {
    assert_eq!(Scheme::He.family(), Family::Normal);
    assert_eq!(Scheme::Xavier.family(), Family::Uniform);
}

#[test]
fn he_plan_has_variance_two_over_inputs() {
    let plan = weight_plan(100, 50, Scheme::He).unwrap();
    assert_eq!(
        plan,
        InitPlan { scheme: Scheme::He, rows: 50, cols: 100, numerator: 2, denominator: 100 }
    );
    assert_eq!(plan.count(), Some(5000));
    let std_dev = (plan.numerator as f32 / plan.denominator as f32).sqrt();
    assert!((std_dev * std_dev - 0.02).abs() < 1e-6);
}

#[test]
fn xavier_plan_has_squared_bound_six_over_inputs_and_outputs() {
    let plan = weight_plan(100, 50, Scheme::Xavier).unwrap();
    assert_eq!(
        plan,
        InitPlan { scheme: Scheme::Xavier, rows: 50, cols: 100, numerator: 6, denominator: 150 }
    );
    let limit = (plan.numerator as f32 / plan.denominator as f32).sqrt();
    assert!((limit - 0.2).abs() < 1e-6);
}

#[test]
fn smallest_layer_has_a_plan() {
    assert_eq!(
        weight_plan(1, 1, Scheme::He),
        Ok(InitPlan { scheme: Scheme::He, rows: 1, cols: 1, numerator: 2, denominator: 1 })
    );
    assert_eq!(
        weight_plan(1, 1, Scheme::Xavier),
        Ok(InitPlan { scheme: Scheme::Xavier, rows: 1, cols: 1, numerator: 6, denominator: 2 })
    );
}

#[test]
fn plan_refuses_a_zero_dimension() {
    for scheme in [Scheme::He, Scheme::Xavier] {
        assert_eq!(weight_plan(0, 5, scheme), Err(LinearError::InvalidDimension));
        assert_eq!(weight_plan(5, 0, scheme), Err(LinearError::InvalidDimension));
        assert_eq!(weight_plan(0, 0, scheme), Err(LinearError::InvalidDimension));
    }
}

#[test]
fn largest_dimensions_do_not_wrap() {
    let plan = weight_plan(usize::MAX, usize::MAX, Scheme::Xavier).unwrap();
    assert_eq!(plan.denominator, 2 * (usize::MAX as u128));
    assert_eq!(plan.count(), None);
    let plan = weight_plan(usize::MAX, 1, Scheme::He).unwrap();
    assert_eq!(plan.denominator, usize::MAX as u128);
    assert_eq!(plan.count(), Some(usize::MAX));
}
