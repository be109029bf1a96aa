use engine::actions::{ActionTag, ActionValues};
use engine::buildings::Building;
use engine::deck::{Card, Cow, CowColor};
use engine::player::{AuxiliaryAction, Player, PlayerBoard};
use engine::tracks::SpaceOccupant;
use engine::Engine;

fn cows() -> Vec<Cow> {
    (0..14).map(|points| Cow::new(CowColor::Jersey, points)).collect()
}

fn points_in(cards: &[Card]) -> Vec<u32> {
    let mut points: Vec<u32> = cards
        .iter()
        .map(|card| match card {
            Card::CowCard(cow) => cow.points(),
            Card::ObjectiveCard(_) => u32::MAX,
        })
        .collect();
    points.sort();
    points
}

#[test]
fn a_new_player_has_six_dollars_and_one_for_each_seat() {
    let first = Player::new(0, cows(), Vec::new());
    assert_eq!(first.id(), 0);
    assert_eq!(first.dollars(), 6);
    assert_eq!(first.tepeePairs(), 0);
    let third = Player::new(2, cows(), vec![Building::playerBuilding(0, false)]);
    assert_eq!(third.id(), 2);
    assert_eq!(third.dollars(), 8);
}

#[test]
fn a_new_player_holds_the_starting_cards_in_the_draw_pile() {
    let player = Player::new(1, cows(), Vec::new());
    let deck = player.deck();
    assert_eq!(deck.handSize(), 4);
    assert_eq!(deck.hand().len(), 0);
    assert_eq!(deck.discard().len(), 0);
    assert_eq!(points_in(deck.draw()), (0..14).collect::<Vec<u32>>());
}

#[test]
fn auxiliary_actions_unlock_one_after_the_other() {
    let first = ActionTag::TakeCoins(ActionValues::Exact(1));
    let second = ActionTag::DrawCards(ActionValues::Exact(2));
    let mut aux = AuxiliaryAction::new([first, second]);
    assert_eq!(aux.availableActions(), (None, None));
    assert!(aux.hasDisc());
    aux.unlock();
    assert_eq!(aux.availableActions(), (Some(first), None));
    assert!(aux.hasDisc());
    aux.unlock();
    assert_eq!(aux.availableActions(), (Some(first), Some(second)));
    assert!(!aux.hasDisc());
}

#[test]
fn a_player_board_is_a_player_board() {
    assert_eq!(PlayerBoard {}, PlayerBoard {});
}

#[test]
fn a_game_starts_with_fresh_players() {
    let track = vec![SpaceOccupant::Start, SpaceOccupant::Tepee(2, None), SpaceOccupant::KansasCity];
    let game = Engine::startDefaultGame(3, &cows(), track.clone());
    assert_eq!(game.currentPlayer(), 0);
    assert_eq!(game.track().clone(), track);
    assert_eq!(game.players().len(), 3);
    for (seat, player) in game.players().iter().enumerate() {
        assert_eq!(player.id() as usize, seat);
        assert_eq!(player.dollars() as usize, seat + 6);
        assert_eq!(points_in(player.deck().draw()), (0..14).collect::<Vec<u32>>());
        assert_eq!(player.deck().hand().len(), 0);
    }
}

#[test]
fn a_game_without_players_has_none() {
    let game = Engine::startDefaultGame(0, &cows(), Vec::new());
    assert_eq!(game.players().len(), 0);
    assert_eq!(game.track().len(), 0);
}
