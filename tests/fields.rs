use bingo::error::Error;
use bingo::fields::{access_code, pick_field_templates, plan_fields, FieldPlan, ACCESS_CODE_LEN};

#[test]
fn plan_keeps_a_board_of_the_right_size() {
    assert_eq!(plan_fields(25, 30, 5).unwrap(), FieldPlan::Keep);
    assert_eq!(plan_fields(4, 0, 2).unwrap(), FieldPlan::Keep);
}

#[test]
fn plan_regenerates_missing_or_resized_boards() {
    assert_eq!(plan_fields(0, 30, 5).unwrap(), FieldPlan::Regenerate);
    assert_eq!(plan_fields(9, 30, 5).unwrap(), FieldPlan::Regenerate);
    assert_eq!(plan_fields(25, 9, 3).unwrap(), FieldPlan::Regenerate);
}

#[test]
fn plan_refuses_bad_sizes_and_small_templates() {
    assert!(matches!(plan_fields(0, 100, 1), Err(Error::BadRequest(_))));
    assert!(matches!(plan_fields(0, 100, 9), Err(Error::BadRequest(_))));
    assert!(matches!(plan_fields(81, 100, 9), Err(Error::BadRequest(_))));
    assert!(matches!(plan_fields(0, 24, 5), Err(Error::BadRequest(_))));
    assert!(matches!(plan_fields(0, 100, i64::MAX), Err(Error::BadRequest(_))));
}

#[test]
fn picked_templates_fill_the_board_without_repeats() {
    let ids: Vec<u128> = (0..40).collect();
    let mut picked = pick_field_templates(ids, 5);
    assert_eq!(picked.len(), 25);
    picked.sort();
    picked.dedup();
    assert_eq!(picked.len(), 25);
    assert!(picked.iter().all(|i| *i < 40));
}

#[test]
fn picked_templates_are_shuffled() {
    let ids: Vec<u128> = (0..64).collect();
    let picked = pick_field_templates(ids.clone(), 8);
    assert_eq!(picked.len(), 64);
    assert_ne!(picked, ids);
}

#[test]
fn access_codes_are_alphanumeric_and_vary() {
    let a = access_code();
    let b = access_code();
    assert_eq!(a.len(), ACCESS_CODE_LEN);
    assert!(a.iter().all(|c| c.is_ascii_alphanumeric()));
    assert_ne!(a, b);
}
