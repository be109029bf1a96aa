use engine::actions::{ActionValues, Quantity, ValueSnapshot};
use engine::player::Employee;

#[test]
pub fn saveDefaultTrack() {
    assert_eq!(1, 1);
}

fn snapshot() -> ValueSnapshot {
    ValueSnapshot {
        cowboys: 1,
        craftsmen: 2,
        engineers: 3,
        forest_buildings: 4,
        tepee_pairs: 5,
        hazard_pairs: 6,
        certificate_pairs: 7,
        objective_pairs: 8,
        largest_legal: 9,
    }
}

#[test]
fn values_are_read_from_the_snapshot() {
    let s = snapshot();
    assert_eq!(ActionValues::Exact(-7).resolve(&s), Quantity::Exactly(-7));
    assert_eq!(ActionValues::EmployeeMult(Employee::Cowboy, 2).resolve(&s), Quantity::Exactly(2));
    assert_eq!(ActionValues::EmployeeMult(Employee::Craftsman, -2).resolve(&s), Quantity::Exactly(-4));
    assert_eq!(ActionValues::EmployeeMult(Employee::Engineer, 2).resolve(&s), Quantity::Exactly(6));
    assert_eq!(ActionValues::AllEmployeesMult(3).resolve(&s), Quantity::Exactly(18));
    assert_eq!(ActionValues::ForestMult(2).resolve(&s), Quantity::Exactly(8));
    assert_eq!(ActionValues::TepeePairMult(2).resolve(&s), Quantity::Exactly(10));
    assert_eq!(ActionValues::HazardPairMult(2).resolve(&s), Quantity::Exactly(12));
    assert_eq!(ActionValues::CertificatePairMult(2).resolve(&s), Quantity::Exactly(14));
    assert_eq!(ActionValues::ObjectivePairMult(2).resolve(&s), Quantity::Exactly(16));
    assert_eq!(ActionValues::AtMost(4).resolve(&s), Quantity::UpTo(4));
    assert_eq!(ActionValues::Max.resolve(&s), Quantity::Exactly(9));
}

#[test]
fn largest_values_do_not_overflow() {
    let s = ValueSnapshot {
        cowboys: u32::MAX,
        craftsmen: u32::MAX,
        engineers: u32::MAX,
        ..snapshot()
    };
    assert_eq!(
        ActionValues::AllEmployeesMult(i32::MIN).resolve(&s),
        Quantity::Exactly(i32::MIN as i128 * 3 * u32::MAX as i128)
    );
}

#[test]
fn a_choice_is_bounded_on_both_sides() {
    let up = Quantity::UpTo(3);
    assert!(up.admits(0));
    assert!(up.admits(3));
    assert!(!up.admits(4));
    assert!(!up.admits(-1));
    let back = Quantity::UpTo(-1);
    assert!(back.admits(0));
    assert!(back.admits(-1));
    assert!(!back.admits(-2));
    assert!(!back.admits(1));
    let settled = Quantity::Exactly(5);
    assert!(settled.admits(5));
    assert!(!settled.admits(4));
}
