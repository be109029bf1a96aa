use engine::actions::{ActionTag, ActionValues};
use engine::deck::{Objective, ObjectiveError, ObjectiveRequirements};
use engine::player::ObjectiveResources;

fn resources() -> ObjectiveResources {
    ObjectiveResources {
        buildings: 1,
        hazards: 2,
        san_fran: 3,
        green_tepees: 4,
        blue_tepees: 5,
        station_discs: 6,
        ryb_cows: 7,
        brown_cows: 8,
        purple_cows: 9,
    }
}

#[test]
fn a_failed_match_takes_nothing() {
    let card = Objective::new(
        None,
        3,
        2,
        &[ObjectiveRequirements::Building, ObjectiveRequirements::Building],
    )
    .unwrap();
    let held = resources();
    assert_eq!(card.meetsRequirements(held), None);
    assert_eq!(held.buildings, 1);
    assert_eq!(held, resources());
}

#[test]
fn a_late_failure_takes_nothing_either() {
    let card = Objective::new(
        None,
        3,
        2,
        &[
            ObjectiveRequirements::Hazard,
            ObjectiveRequirements::Cow(3),
            ObjectiveRequirements::Building,
            ObjectiveRequirements::Building,
        ],
    )
    .unwrap();
    let held = resources();
    assert_eq!(card.meetsRequirements(held), None);
    assert_eq!(held, resources());
}

#[test]
fn a_match_takes_one_unit_for_each_requirement() {
    let card = Objective::new(
        None,
        3,
        2,
        &[
            ObjectiveRequirements::Hazard,
            ObjectiveRequirements::Hazard,
            ObjectiveRequirements::Cow(4),
            ObjectiveRequirements::Building,
        ],
    )
    .unwrap();
    let left = card.meetsRequirements(resources()).unwrap();
    assert_eq!(left, ObjectiveResources { buildings: 0, hazards: 0, brown_cows: 7, ..resources() });
}

#[test]
fn every_kind_is_taken_from_its_own_pool() {
    let kinds = [
        (ObjectiveRequirements::Building, ObjectiveResources { buildings: 0, ..resources() }),
        (ObjectiveRequirements::Hazard, ObjectiveResources { hazards: 1, ..resources() }),
        (ObjectiveRequirements::SanFran, ObjectiveResources { san_fran: 2, ..resources() }),
        (ObjectiveRequirements::GreenTepee, ObjectiveResources { green_tepees: 3, ..resources() }),
        (ObjectiveRequirements::BlueTepee, ObjectiveResources { blue_tepees: 4, ..resources() }),
        (ObjectiveRequirements::StationDisc, ObjectiveResources { station_discs: 5, ..resources() }),
        (ObjectiveRequirements::Cow(3), ObjectiveResources { ryb_cows: 6, ..resources() }),
        (ObjectiveRequirements::Cow(4), ObjectiveResources { brown_cows: 7, ..resources() }),
        (ObjectiveRequirements::Cow(5), ObjectiveResources { purple_cows: 8, ..resources() }),
    ];
    for (kind, left) in kinds {
        let card = Objective::new(None, 1, 1, &[kind]).unwrap();
        assert_eq!(card.meetsRequirements(resources()), Some(left));
    }
}

#[test]
fn no_requirements_are_always_met() {
    let card = Objective::new(None, 5, 5, &[]).unwrap();
    let nothing = ObjectiveResources {
        buildings: 0,
        hazards: 0,
        san_fran: 0,
        green_tepees: 0,
        blue_tepees: 0,
        station_discs: 0,
        ryb_cows: 0,
        brown_cows: 0,
        purple_cows: 0,
    };
    assert_eq!(card.meetsRequirements(nothing), Some(nothing));
}

#[test]
fn a_card_keeps_what_it_was_built_from() {
    let reward = Some(ActionTag::TakeCoins(ActionValues::Exact(2)));
    let reqs = [ObjectiveRequirements::SanFran, ObjectiveRequirements::Cow(5)];
    let card = Objective::new(reward, 5, 3, &reqs).unwrap();
    assert_eq!(card.immediate(), reward);
    assert_eq!(card.successPts(), 5);
    assert_eq!(card.failPts(), 3);
    assert_eq!(
        card.requirements().items,
        [Some(ObjectiveRequirements::SanFran), Some(ObjectiveRequirements::Cow(5)), None, None]
    );
    assert!(card.sameAs(&Objective::new(reward, 5, 3, &reqs).unwrap()));
    assert!(!card.sameAs(&Objective::new(reward, 5, 3, &reqs[..1]).unwrap()));
    assert!(!card.sameAs(&Objective::new(None, 5, 3, &reqs).unwrap()));
}

#[test]
fn more_than_four_requirements_are_refused() {
    let reqs = [ObjectiveRequirements::Hazard; 5];
    assert_eq!(Objective::new(None, 1, 1, &reqs), Err(ObjectiveError::TooManyRequirements));
    assert!(Objective::new(None, 1, 1, &reqs[..4]).is_ok());
}

#[test]
fn unknown_cow_values_are_refused() {
    for value in [0, 1, 2, 6, 7, u32::MAX] {
        assert_eq!(
            Objective::new(None, 1, 1, &[ObjectiveRequirements::Hazard, ObjectiveRequirements::Cow(value)]),
            Err(ObjectiveError::UnknownCowValue)
        );
        assert!(!ObjectiveRequirements::Cow(value).isValid());
    }
    for value in [3, 4, 5] {
        assert!(ObjectiveRequirements::Cow(value).isValid());
    }
    assert!(ObjectiveRequirements::StationDisc.isValid());
    let reqs = [ObjectiveRequirements::Cow(9); 5];
    assert_eq!(Objective::new(None, 1, 1, &reqs), Err(ObjectiveError::TooManyRequirements));
}
