use cook_parser::{apply_next_number, Amount, CookError, Qty};

fn aq(num: u64, den: u64) -> Qty {
    Qty { num, den }
}

#[test]
fn qty_sum_is_exact() {
    let r = aq(1, 2).checked_sum(aq(1, 3)).unwrap();
    assert_eq!(r, aq(5, 6));
}

#[test]
fn qty_sum_overflow_is_reported() {
    assert!(aq(u64::MAX, 1).checked_sum(aq(1, 1)).is_none());
    assert!(aq(1, u64::MAX).checked_sum(aq(1, 2)).is_none());
}

#[test]
fn qty_division_is_exact() {
    assert_eq!(aq(1, 2).div_by_count(3), Some(aq(1, 6)));
    assert_eq!(aq(1, 2).div_by_count(0), None);
}

#[test]
fn add_same_variants() {
    let r = Amount::Single(aq(1, 1)).add(Amount::Single(aq(2, 1))).unwrap();
    assert!(matches!(r, Amount::Single(v) if v == aq(3, 1)));
    let r = Amount::Multi(aq(1, 2)).add(Amount::Multi(aq(1, 2))).unwrap();
    assert!(matches!(r, Amount::Multi(v) if v == aq(4, 4)));
    let r = Amount::Servings(vec![aq(1, 1), aq(2, 1)])
        .add(Amount::Servings(vec![aq(3, 1), aq(4, 1)]))
        .unwrap();
    assert!(matches!(r, Amount::Servings(v) if v == vec![aq(4, 1), aq(6, 1)]));
}

#[test]
fn add_mixed_variants_fails() {
    let e = Amount::Single(aq(1, 1)).add(Amount::Multi(aq(1, 1))).unwrap_err();
    assert!(matches!(e, CookError::AmountAlgebra));
    let e = Amount::Multi(aq(1, 1))
        .add(Amount::Servings(vec![aq(1, 1)]))
        .unwrap_err();
    assert!(matches!(e, CookError::AmountAlgebra));
    let e = Amount::Servings(vec![aq(1, 1)])
        .add(Amount::Single(aq(1, 1)))
        .unwrap_err();
    assert!(matches!(e, CookError::AmountAlgebra));
}

#[test]
fn add_bracket_length_mismatch_fails() {
    let e = Amount::Servings(vec![aq(1, 1)])
        .add(Amount::Servings(vec![aq(1, 1), aq(2, 1)]))
        .unwrap_err();
    assert!(matches!(e, CookError::AmountAlgebra));
}

#[test]
fn add_is_commutative_on_values() {
    let a = || Amount::Servings(vec![aq(1, 2), aq(3, 4)]);
    let b = || Amount::Servings(vec![aq(1, 3), aq(1, 4)]);
    let ab = a().add(b()).unwrap();
    let ba = b().add(a()).unwrap();
    assert!(matches!((&ab, &ba), (Amount::Servings(x), Amount::Servings(y)) if x == y));
}

#[test]
fn add_is_associative_on_values() {
    let x = || Amount::Single(aq(1, 2));
    let y = || Amount::Single(aq(1, 3));
    let z = || Amount::Single(aq(1, 5));
    let l = x().add(y()).unwrap().add(z()).unwrap();
    let r = x().add(y().add(z()).unwrap()).unwrap();
    assert!(matches!((&l, &r), (Amount::Single(a), Amount::Single(b)) if a == b));
}

#[test]
fn promote_only_single() {
    let r = Amount::Single(aq(2, 1)).promote_to_scalable().unwrap();
    assert!(matches!(r, Amount::Multi(v) if v == aq(2, 1)));
    let e = Amount::Multi(aq(2, 1)).promote_to_scalable().unwrap_err();
    assert!(matches!(e, CookError::AmountAlgebra));
    let e = Amount::Servings(vec![aq(2, 1)]).promote_to_scalable().unwrap_err();
    assert!(matches!(e, CookError::AmountAlgebra));
}

#[test]
fn separator_extends_brackets() {
    let r = Amount::Single(aq(1, 1)).extend_with_separator().unwrap();
    assert!(matches!(&r, Amount::Servings(v) if *v == vec![aq(1, 1), aq(0, 1)]));
    let r = Amount::Servings(vec![aq(1, 1), aq(2, 1)]).extend_with_separator().unwrap();
    assert!(matches!(&r, Amount::Servings(v) if *v == vec![aq(1, 1), aq(2, 1), aq(0, 1)]));
    let e = Amount::Multi(aq(1, 1)).extend_with_separator().unwrap_err();
    assert!(matches!(e, CookError::AmountAlgebra));
}

#[test]
fn next_number_starts_divides_and_fills() {
    let r = apply_next_number(None, 4).unwrap();
    assert!(matches!(r, Amount::Single(v) if v == aq(4, 1)));
    let r = apply_next_number(Some(Amount::Single(aq(4, 1))), 2).unwrap();
    assert!(matches!(r, Amount::Single(v) if v == aq(4, 2)));
    // a placeholder slot is filled, not divided
    let r = apply_next_number(Some(Amount::Servings(vec![aq(1, 1), aq(0, 1)])), 7).unwrap();
    assert!(matches!(&r, Amount::Servings(v) if *v == vec![aq(1, 1), aq(7, 1)]));
    // a settled slot is divided
    let r = apply_next_number(Some(Amount::Servings(vec![aq(1, 1), aq(7, 1)])), 2).unwrap();
    assert!(matches!(&r, Amount::Servings(v) if *v == vec![aq(1, 1), aq(7, 2)]));
    let e = apply_next_number(Some(Amount::Multi(aq(1, 1))), 2).unwrap_err();
    assert!(matches!(e, CookError::AmountAlgebra));
    let e = apply_next_number(Some(Amount::Servings(vec![])), 2).unwrap_err();
    assert!(matches!(e, CookError::AmountAlgebra));
}

#[test]
fn error_kinds_have_names() {
    assert_eq!(CookError::AmountAlgebra.kind_name(), "amount algebra error");
    assert_eq!(
        CookError::UnitMismatch("x".to_string()).kind_name(),
        "unit mismatch"
    );
    assert_eq!(
        CookError::NumericParse("y".to_string()).kind_name(),
        "numeric parse error"
    );
    assert_eq!(
        CookError::Grammar("z".to_string()).kind_name(),
        "grammar error"
    );
}
