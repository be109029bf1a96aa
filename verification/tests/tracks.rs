use engine::actions::{ActionTag, ActionValues};
use engine::buildings::{HazardType, Tepee};
use engine::logical::{And, XOr};
use engine::tracks::{
    City, CityTrack, EngineSpace, Space, SpaceOccupant, Station, StationTrack, Track, TrackError,
};

fn site() -> SpaceOccupant {
    SpaceOccupant::Building { risk_action: And::empty(), building: None, neutral: true, forest: false }
}

/// start -> site -> fork: either a hazard and then a tepee, or straight on; both meet at the end.
fn trail() -> Vec<Space> {
    vec![
        Space::new(SpaceOccupant::Start, [Some(1), None]),
        Space::new(site(), [Some(2), None]),
        Space::new(site(), [Some(3), Some(5)]),
        Space::new(SpaceOccupant::Hazard(HazardType::Flood, None), [Some(4), None]),
        Space::new(SpaceOccupant::Tepee(-3, Some(Tepee::Green)), [Some(6), None]),
        Space::new(site(), [None, Some(6)]),
        Space::new(SpaceOccupant::KansasCity, [None, None]),
    ]
}

#[test]
fn a_trail_has_one_start_and_one_end() {
    let track = Track::new(trail()).unwrap();
    let spaces = track.spaces();
    assert_eq!(spaces.iter().filter(|s| s.isStart()).count(), 1);
    assert_eq!(spaces.iter().filter(|s| s.isTerminal()).count(), 1);
    for space in spaces.iter() {
        for edge in 0..2 {
            if let Some(to) = space.successor(edge) {
                assert!(to < spaces.len());
            }
        }
        assert_eq!(space.successor(2), None);
    }
    assert_eq!(spaces[2].successor(0), Some(3));
    assert_eq!(spaces[2].successor(1), Some(5));
    assert_eq!(spaces[3].occupant(), SpaceOccupant::Hazard(HazardType::Flood, None));
}

#[test]
fn an_edge_that_leads_nowhere_is_refused() {
    let mut spaces = trail();
    spaces[4] = Space::new(SpaceOccupant::Tepee(1, None), [Some(7), None]);
    assert_eq!(Track::new(spaces).err(), Some(TrackError::InvalidEdge));
    let mut spaces = trail();
    spaces[5] = Space::new(site(), [None, Some(usize::MAX)]);
    assert_eq!(Track::new(spaces).err(), Some(TrackError::InvalidEdge));
}

#[test]
fn a_trail_without_start_or_with_two_is_refused() {
    let mut spaces = trail();
    spaces[0] = Space::new(site(), [Some(1), None]);
    assert_eq!(Track::new(spaces).err(), Some(TrackError::StartCount));
    let mut spaces = trail();
    spaces[1] = Space::new(SpaceOccupant::Start, [Some(2), None]);
    assert_eq!(Track::new(spaces).err(), Some(TrackError::StartCount));
    assert_eq!(Track::new(Vec::new()).err(), Some(TrackError::StartCount));
}

#[test]
fn a_trail_without_end_or_with_two_is_refused() {
    let mut spaces = trail();
    spaces[6] = Space::new(site(), [None, None]);
    assert_eq!(Track::new(spaces).err(), Some(TrackError::TerminalCount));
    let mut spaces = trail();
    spaces[5] = Space::new(SpaceOccupant::KansasCity, [None, None]);
    assert_eq!(Track::new(spaces).err(), Some(TrackError::TerminalCount));
}

#[test]
fn a_walk_follows_the_edges_named() {
    let track = Track::new(trail()).unwrap();
    assert_eq!(track.walk(0, &[]), Ok(0));
    assert_eq!(track.walk(0, &[0, 0]), Ok(2));
    assert_eq!(track.walk(0, &[0, 0, 0]), Ok(3));
    assert_eq!(track.walk(0, &[0, 0, 1]), Ok(5));
    assert_eq!(track.walk(0, &[0, 0, 0, 0, 0]), Ok(6));
    assert_eq!(track.walk(0, &[0, 0, 1, 1]), Ok(6));
    assert_eq!(track.step(2, 1), Ok(5));
}

#[test]
fn a_walk_stops_at_the_end_of_the_trail() {
    let track = Track::new(trail()).unwrap();
    assert_eq!(track.walk(0, &[0, 0, 1, 1, 0, 1, 7, 0]), Ok(6));
    assert_eq!(track.walk(6, &[0, 0, 0]), Ok(6));
    assert_eq!(track.step(6, 9), Ok(6));
}

#[test]
fn a_walk_fails_for_want_of_an_edge_or_a_location() {
    let track = Track::new(trail()).unwrap();
    assert_eq!(track.walk(0, &[1]), Err(TrackError::InvalidEdge));
    assert_eq!(track.walk(0, &[0, 0, 2]), Err(TrackError::InvalidEdge));
    assert_eq!(track.walk(5, &[0]), Err(TrackError::InvalidEdge));
    assert_eq!(track.walk(7, &[]), Err(TrackError::InvalidIndex));
    assert_eq!(track.walk(7, &[0]), Err(TrackError::InvalidIndex));
    assert_eq!(track.step(7, 0), Err(TrackError::InvalidIndex));
}

fn station(location: u32) -> Station {
    Station {
        location,
        price: 2,
        points: 1,
        advanced_disc: false,
        placed_discs: [false; 4],
        station_master: None,
    }
}

fn railway() -> StationTrack {
    let city = City {
        location: 3,
        points: 4,
        coins: 2,
        advanced_disc: false,
        limited: true,
        placed_discs: [0; 4],
        name: "Topeka".to_string(),
    };
    StationTrack::new(
        39,
        [EngineSpace::MainTrack(0); 4],
        station(39),
        vec![station(4), station(7)],
        vec![10, 20],
        CityTrack { cities: vec![city], pair_action: Vec::new() },
    )
}

#[test]
fn an_engine_that_reaches_the_end_of_the_line_is_rewarded() {
    let mut track = railway();
    assert_eq!(
        track.moveEngine(2, EngineSpace::MainTrack(39)),
        Some((ActionTag::MoveEngine(ActionValues::AtMost(-1)), ActionTag::TakeCoins(ActionValues::Exact(3))))
    );
    assert_eq!(track.engineSpace(2), EngineSpace::MainTrack(39));
    assert_eq!(track.engineSpace(0), EngineSpace::MainTrack(0));
    assert_eq!(track.engineSpace(1), EngineSpace::MainTrack(0));
    assert_eq!(track.engineSpace(3), EngineSpace::MainTrack(0));
}

#[test]
fn an_engine_elsewhere_gets_nothing() {
    let mut track = railway();
    assert_eq!(track.moveEngine(0, EngineSpace::MainTrack(38)), None);
    assert_eq!(track.moveEngine(1, EngineSpace::TurnoutTrack(39)), None);
    assert_eq!(track.moveEngine(3, EngineSpace::MainTrack(40)), None);
    assert_eq!(track.engineSpace(0), EngineSpace::MainTrack(38));
    assert_eq!(track.engineSpace(1), EngineSpace::TurnoutTrack(39));
    assert_eq!(track.engineSpace(3), EngineSpace::MainTrack(40));
}

#[test]
fn a_delivery_leaves_the_railway_as_it_is() {
    let mut track = railway();
    track.makeDelivery(1, 3);
    assert_eq!(track, railway());
}

#[test]
fn a_station_master_carries_a_choice_of_bonus() {
    let master = engine::tracks::StationMaster {
        points: ActionValues::Exact(3),
        bonus: XOr::new(&[ActionTag::TakeTepee, ActionTag::TakeHazard]).unwrap(),
        perm_cert: true,
    };
    assert_eq!(master.bonus.pick(1), Ok(ActionTag::TakeHazard));
    let pair = engine::tracks::PairAction { take_obj: true, points: -2 };
    assert_eq!(pair, engine::tracks::PairAction { take_obj: true, points: -2 });
}
