use engine::actions::{ActionTag, ActionValues, DiscardCardOpts};
use engine::buildings::{Building, Toll};
use engine::deck::CowColor;
use engine::logical::{And, LogicalError, Or, XOr};
use engine::player::Employee;

fn menu(building: &Building) -> Vec<Vec<Vec<ActionTag>>> {
    let mut axes = Vec::new();
    let mut axis = 0;
    while let Ok(alternatives) = building.actions().pick(axis) {
        let mut bundles = Vec::new();
        let mut alternative = 0;
        while let Ok(bundle) = building.bundle(axis, alternative) {
            assert_eq!(alternatives.pick(alternative), Ok(bundle));
            bundles.push(bundle.items.iter().flatten().copied().collect());
            alternative += 1;
        }
        axes.push(bundles);
        axis += 1;
    }
    axes
}

#[test]
fn the_first_neutral_building() {
    let building = Building::basicBuilding(0);
    assert_eq!(building.owner(), 0);
    assert_eq!(building.laborers(), 0);
    assert_eq!(building.points(), 0);
    assert_eq!(building.toll(), Toll::NoToll);
    assert_eq!(
        menu(&building),
        vec![
            vec![vec![
                ActionTag::DiscardCard(DiscardCardOpts::Color(CowColor::Guernsey)),
                ActionTag::TakeCoins(ActionValues::Exact(2)),
            ]],
            vec![vec![ActionTag::HireEmployee(ActionValues::Exact(0))]],
            vec![vec![ActionTag::HireEmployee(ActionValues::Exact(-2))]],
        ]
    );
    assert_eq!(
        building.actions().items[0].unwrap().items[0].unwrap().items,
        [
            Some(ActionTag::DiscardCard(DiscardCardOpts::Color(CowColor::Guernsey))),
            Some(ActionTag::TakeCoins(ActionValues::Exact(2))),
            None,
        ]
    );
    assert_eq!(building.actions().items[0].unwrap().items[1], None);
}

#[test]
fn neutral_buildings_with_alternatives() {
    assert_eq!(
        menu(&Building::basicBuilding(2)),
        vec![
            vec![vec![ActionTag::MoveCertificate(ActionValues::Exact(1))], vec![ActionTag::TakeObjective]],
            vec![vec![ActionTag::MoveEngine(ActionValues::EmployeeMult(Employee::Engineer, 1))]],
        ]
    );
    assert_eq!(
        menu(&Building::basicBuilding(3)),
        vec![
            vec![
                vec![ActionTag::TakeTepee],
                vec![ActionTag::TakeCoins(ActionValues::Exact(-2)), ActionTag::MoveEngine(ActionValues::Exact(2))],
            ],
            vec![vec![ActionTag::DoubleAuxiliary]],
        ]
    );
    assert_eq!(
        menu(&Building::basicBuilding(6)),
        vec![
            vec![vec![ActionTag::MoveEngine(ActionValues::EmployeeMult(Employee::Engineer, 1))]],
            vec![vec![ActionTag::DoubleAuxiliary]],
        ]
    );
}

#[test]
fn player_buildings_by_side() {
    let a = Building::playerBuilding(9, false);
    assert_eq!((a.laborers(), a.points(), a.toll()), (9, 13, Toll::Black));
    assert_eq!(
        menu(&a),
        vec![
            vec![vec![ActionTag::MoveCertificate(ActionValues::Max)]],
            vec![vec![ActionTag::MoveCattleman(ActionValues::Exact(5))]],
        ]
    );
    let b = Building::playerBuilding(9, true);
    assert_eq!((b.laborers(), b.points(), b.toll()), (8, 11, Toll::Black));
    assert_eq!(
        menu(&b),
        vec![
            vec![vec![ActionTag::TakeCoins(ActionValues::Exact(4))]],
            vec![vec![ActionTag::MoveEngine(ActionValues::Exact(4))]],
            vec![vec![ActionTag::MoveCattleman(ActionValues::Exact(4))]],
        ]
    );
    let five = Building::playerBuilding(5, true);
    assert_eq!(
        menu(&five),
        vec![vec![vec![
            ActionTag::DiscardCard(DiscardCardOpts::AnyCow),
            ActionTag::TakeCoins(ActionValues::Exact(3)),
            ActionTag::TakeObjective,
        ]]]
    );
}

#[test]
fn tolls_laborers_and_points_of_player_buildings() {
    let table = [
        (0, Toll::Green, Toll::Green, 1, 1, 1, 1),
        (1, Toll::NoToll, Toll::NoToll, 1, 1, 1, 1),
        (2, Toll::NoToll, Toll::NoToll, 1, 2, 1, 3),
        (3, Toll::Black, Toll::Black, 2, 2, 3, 3),
        (4, Toll::NoToll, Toll::NoToll, 3, 3, 4, 4),
        (5, Toll::NoToll, Toll::NoToll, 4, 4, 5, 5),
        (6, Toll::GreenBlack, Toll::GreenBlack, 5, 5, 6, 6),
        (7, Toll::Green, Toll::NoToll, 5, 6, 6, 8),
        (8, Toll::NoToll, Toll::NoToll, 7, 6, 9, 8),
        (9, Toll::Black, Toll::Black, 9, 8, 13, 11),
    ];
    for (num, toll_a, toll_b, laborers_a, laborers_b, points_a, points_b) in table {
        let a = Building::playerBuilding(num, false);
        let b = Building::playerBuilding(num, true);
        assert_eq!((a.toll(), a.laborers(), a.points(), a.owner()), (toll_a, laborers_a, points_a, 0));
        assert_eq!((b.toll(), b.laborers(), b.points(), b.owner()), (toll_b, laborers_b, points_b, 0));
    }
}

#[test]
fn a_menu_has_no_more_than_it_lists() {
    let building = Building::playerBuilding(7, false);
    assert_eq!(building.bundle(0, 1).map(|b| b.items), Ok([Some(ActionTag::DoubleAuxiliary), None, None]));
    assert_eq!(building.bundle(0, 2), Err(LogicalError::InvalidIndex));
    assert_eq!(building.bundle(1, 1), Err(LogicalError::InvalidIndex));
    assert_eq!(building.bundle(2, 0), Err(LogicalError::InvalidIndex));
    assert_eq!(building.bundle(3, 0), Err(LogicalError::InvalidIndex));
}

#[test]
fn a_building_keeps_its_parts() {
    let bundle = And::new(&[ActionTag::BuyCows]).unwrap();
    let actions = Or::new(&[XOr::new(&[bundle]).unwrap()]).unwrap();
    let building = Building::new(2, 3, 4, Toll::Black, actions);
    assert_eq!(building.owner(), 2);
    assert_eq!(building.laborers(), 3);
    assert_eq!(building.points(), 4);
    assert_eq!(building.toll(), Toll::Black);
    assert_eq!(building.actions(), actions);
    assert_eq!(building.bundle(0, 0), Ok(bundle));
}
