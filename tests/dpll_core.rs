use dpll::Assignment;
use dpll::Lit;
use dpll::Var;

fn lit(v: i32) -> Lit {
    Lit::new(v).unwrap()
}

fn var(n: i32) -> Var {
    Var::new(n).unwrap()
}

#[test]
fn negation_involution() {
    assert_eq!(lit(3).negate().negate(), lit(3));
    assert_eq!(lit(-7).negate(), lit(7));
}

#[test]
fn variable_and_polarity() {
    assert_eq!(lit(-4).var(), var(4));
    assert_eq!(lit(4).var(), var(4));
    assert!(lit(-4).negated());
    assert!(!lit(4).negated());
}

#[test]
fn index_is_zero_based() {
    assert_eq!(var(1).index(), 0);
    assert_eq!(var(9).index(), 8);
    assert_ne!(var(2).index(), var(3).index());
}

#[test]
fn invalid_values_rejected() {
    assert!(Lit::new(0).is_none());
    assert!(Lit::new(i32::MIN).is_none());
    assert!(Var::new(0).is_none());
    assert!(Var::new(-1).is_none());
}

#[test]
fn check_applies_polarity() {
    let mut a = Assignment::new(2);
    assert_eq!(a.check(lit(1)), None);
    assert_eq!(a.check(lit(-1)), None);
    a.set(var(1), Some(true));
    assert_eq!(a.get(var(1)), Some(true));
    assert_eq!(a.check(lit(1)), Some(true));
    assert_eq!(a.check(lit(-1)), Some(false));
}

#[test]
fn one_unknown_one_false_is_unit() {
    let mut a = Assignment::new(2);
    a.set(var(2), Some(false));
    assert!(a.is_unit(&vec![lit(1), lit(2)]));
}

#[test]
fn satisfied_clause_not_unit() {
    let mut a = Assignment::new(2);
    a.set(var(1), Some(true));
    assert!(!a.is_unit(&vec![lit(1), lit(2)]));
}

#[test]
fn two_unknowns_not_unit() {
    let a = Assignment::new(2);
    assert!(!a.is_unit(&vec![lit(1), lit(2)]));
}

#[test]
fn negated_false_is_satisfied() {
    let mut a = Assignment::new(1);
    a.set(var(1), Some(false));
    assert_eq!(a.check(lit(-1)), Some(true));
    assert!(!a.is_unit(&vec![lit(-1)]));
}

#[test]
fn empty_clause_never_unit() {
    let a = Assignment::new(3);
    assert!(!a.is_unit(&vec![]));
}

#[test]
fn all_false_not_unit() {
    let mut a = Assignment::new(2);
    a.set(var(1), Some(false));
    a.set(var(2), Some(false));
    assert!(!a.is_unit(&vec![lit(1), lit(2)]));
}

#[test]
fn negated_literal_satisfied_not_unit() {
    let mut a = Assignment::new(2);
    a.set(var(1), Some(false));
    assert!(!a.is_unit(&vec![lit(-1), lit(2)]));
}

#[test]
fn negated_literal_false_leaves_unit() {
    let mut a = Assignment::new(2);
    a.set(var(1), Some(true));
    assert!(a.is_unit(&vec![lit(-1), lit(2)]));
}

#[test]
fn satisfied_with_many_unknowns_not_unit() {
    let mut a = Assignment::new(4);
    a.set(var(3), Some(false));
    assert!(!a.is_unit(&vec![lit(1), lit(2), lit(-3), lit(4)]));
}
