use engine::deck::{Card, Cow, CowColor, Deck, DeckError, Objective};

fn starting_cows() -> Vec<Cow> {
    let mut cows = Vec::new();
    for _ in 0..5 {
        cows.push(Cow::new(CowColor::Jersey, 0));
    }
    for _ in 0..3 {
        cows.push(Cow::new(CowColor::Dutch, 0));
    }
    for _ in 0..3 {
        cows.push(Cow::new(CowColor::Guernsey, 0));
    }
    for _ in 0..3 {
        cows.push(Cow::new(CowColor::Angus, 0));
    }
    cows
}

fn cards_of(cows: &[Cow]) -> Vec<Card> {
    cows.iter().map(|c| Card::CowCard(*c)).collect()
}

fn sorted_points(cards: &[Card]) -> Vec<u32> {
    let mut points: Vec<u32> = cards
        .iter()
        .map(|card| match card {
            Card::CowCard(cow) => cow.points(),
            Card::ObjectiveCard(_) => u32::MAX,
        })
        .collect();
    points.sort();
    points
}

#[test]
fn testDeck() {
    let starting_cows = starting_cows();
    let starting_deck = cards_of(&starting_cows);
    let mut d = Deck::new_unshuffled(4, starting_deck);
    assert_eq!(d.hand().len(), 0);
    assert_eq!(d.draw().len(), starting_cows.len());
    assert_eq!(d.discard().len(), 0);
    d.refillHand();

    // The first hand is three Angus and a Guernsey: the last four of the starting cards.
    assert_eq!(d.pairInHand(), vec![CowColor::Angus]);
    assert_eq!(d.hand().len(), d.handSize());
    assert_eq!(d.draw().len(), starting_cows.len() - d.handSize());
    assert_eq!(d.discard().len(), 0);
    assert_eq!(d.cowPoints(), 0);
    assert_eq!(d.handValue(), 4);

    assert_ne!(d.trashCard(Card::CowCard(Cow::new(CowColor::Jersey, 0))), Ok(()));
    assert_eq!(d.pairInHand(), vec![CowColor::Angus]);
    assert_eq!(d.hand().len(), d.handSize());
    assert_eq!(d.draw().len(), starting_cows.len() - d.handSize());
    assert_eq!(d.discard().len(), 0);
    assert_eq!(d.cowPoints(), 0);
    assert_eq!(d.handValue(), 4);

    assert_eq!(d.trashCard(Card::CowCard(Cow::new(CowColor::Angus, 0))), Ok(()));
    assert_eq!(d.pairInHand(), vec![CowColor::Angus]);
    assert_eq!(d.hand().len(), d.handSize() - 1);
    assert_eq!(d.draw().len(), starting_cows.len() - d.handSize());
    assert_eq!(d.discard().len(), 0);
    assert_eq!(d.cowPoints(), 0);
    assert_eq!(d.handValue(), 4);

    assert_eq!(d.playCard(Card::CowCard(Cow::new(CowColor::Angus, 0))), Ok(()));
    assert_eq!(d.pairInHand(), Vec::<CowColor>::new());
    assert_eq!(d.hand().len(), d.handSize() - 2);
    assert_eq!(d.draw().len(), starting_cows.len() - d.handSize());
    assert_eq!(d.discard().len(), 1);
    assert_eq!(d.cowPoints(), 0);
    assert_eq!(d.handValue(), 4);

    assert_eq!(d.playCard(Card::CowCard(Cow::new(CowColor::Angus, 0))), Ok(()));
    assert_eq!(d.pairInHand(), Vec::<CowColor>::new());
    assert_eq!(d.hand().len(), d.handSize() - 3);
    assert_eq!(d.draw().len(), starting_cows.len() - d.handSize());
    assert_eq!(d.discard().len(), 2);
    assert_eq!(d.cowPoints(), 0);
    assert_eq!(d.handValue(), 2);

    d.addCard(Card::CowCard(Cow::new(CowColor::Longhorn, 7)));
    assert_eq!(d.pairInHand(), Vec::<CowColor>::new());
    assert_eq!(d.hand().len(), d.handSize() - 3);
    assert_eq!(d.draw().len(), starting_cows.len() - d.handSize());
    assert_eq!(d.discard().len(), 3);
    assert_eq!(d.cowPoints(), 7);
    assert_eq!(d.handValue(), 2);

    assert_eq!(d.objectiveCards(), Vec::<Objective>::new());
    let obj = Objective::new(None, 5, 5, &[]).unwrap();
    d.addCard(Card::ObjectiveCard(obj));
    assert_eq!(d.pairInHand(), Vec::<CowColor>::new());
    assert_eq!(d.hand().len(), d.handSize() - 3);
    assert_eq!(d.draw().len(), starting_cows.len() - d.handSize());
    assert_eq!(d.discard().len(), 4);
    assert_eq!(d.cowPoints(), 7);
    assert_eq!(d.handValue(), 2);
    assert_eq!(d.objectiveCards(), vec![obj]);
}

#[test]
fn refill_of_starting_deck_takes_the_last_four() {
    let cows = starting_cows();
    let mut d = Deck::new_unshuffled(4, cards_of(&cows));
    d.refillHand();
    assert_eq!(
        d.hand().clone(),
        vec![
            Card::CowCard(Cow::new(CowColor::Angus, 0)),
            Card::CowCard(Cow::new(CowColor::Angus, 0)),
            Card::CowCard(Cow::new(CowColor::Angus, 0)),
            Card::CowCard(Cow::new(CowColor::Guernsey, 0)),
        ]
    );
    assert_eq!(d.draw().len(), 10);
    assert_eq!(d.handValue(), 4);
    assert_eq!(d.pairInHand(), vec![CowColor::Angus]);
    assert_eq!(d.cowPoints(), 0);
}

#[test]
fn draw_from_empty_deck_fails_and_changes_nothing() {
    let mut d = Deck::new_unshuffled(4, Vec::new());
    assert_eq!(d.drawCard(), Err(DeckError::DeckEmpty));
    assert_eq!(d.hand().len(), 0);
    assert_eq!(d.draw().len(), 0);
    assert_eq!(d.discard().len(), 0);
}

#[test]
fn draw_takes_the_top_without_reshuffle_while_draw_pile_lasts() {
    let a = Card::CowCard(Cow::new(CowColor::Jersey, 1));
    let b = Card::CowCard(Cow::new(CowColor::Dutch, 2));
    let c = Card::CowCard(Cow::new(CowColor::Swiss, 3));
    let mut d = Deck::new_unshuffled(4, vec![a, b]);
    d.addCard(c);
    assert_eq!(d.drawCard(), Ok(()));
    assert_eq!(d.hand().clone(), vec![b]);
    assert_eq!(d.draw().clone(), vec![a]);
    assert_eq!(d.discard().clone(), vec![c]);
}

#[test]
fn draw_reshuffles_the_discard_pile_when_draw_pile_is_empty() {
    let mut d = Deck::new_unshuffled(4, Vec::new());
    for points in 0..6 {
        d.addCard(Card::CowCard(Cow::new(CowColor::Jersey, points)));
    }
    assert_eq!(d.drawCard(), Ok(()));
    assert_eq!(d.hand().len(), 1);
    assert_eq!(d.draw().len(), 5);
    assert_eq!(d.discard().len(), 0);
    let mut all = d.hand().clone();
    all.extend(d.draw().iter().copied());
    assert_eq!(sorted_points(&all), vec![0, 1, 2, 3, 4, 5]);
}

#[test]
fn refill_stops_short_when_cards_run_out() {
    let a = Card::CowCard(Cow::new(CowColor::Jersey, 1));
    let b = Card::CowCard(Cow::new(CowColor::Dutch, 2));
    let mut d = Deck::new_unshuffled(4, vec![a]);
    d.addCard(b);
    d.refillHand();
    assert_eq!(d.hand().clone(), vec![a, b]);
    assert_eq!(d.draw().len(), 0);
    assert_eq!(d.discard().len(), 0);
    d.refillHand();
    assert_eq!(d.hand().len(), 2);
}

#[test]
fn refill_leaves_a_full_hand_alone() {
    let cows = starting_cows();
    let mut d = Deck::new_unshuffled(4, cards_of(&cows));
    d.refillHand();
    let hand = d.hand().clone();
    d.refillHand();
    assert_eq!(d.hand().clone(), hand);
    assert_eq!(d.draw().len(), 10);
}

#[test]
fn refill_draws_across_a_reshuffle() {
    let mut d = Deck::new_unshuffled(5, vec![Card::CowCard(Cow::new(CowColor::Angus, 100))]);
    for points in 0..10 {
        d.addCard(Card::CowCard(Cow::new(CowColor::Jersey, points)));
    }
    d.refillHand();
    assert_eq!(d.hand().len(), 5);
    assert_eq!(d.hand()[0], Card::CowCard(Cow::new(CowColor::Angus, 100)));
    assert_eq!(d.draw().len(), 6);
    assert_eq!(d.discard().len(), 0);
    let mut all = d.hand().clone();
    all.extend(d.draw().iter().copied());
    assert_eq!(sorted_points(&all), vec![0, 1, 2, 3, 4, 5, 6, 7, 8, 9, 100]);
}

#[test]
fn moves_keep_the_number_of_cards() {
    let cows = starting_cows();
    let mut d = Deck::new(4, cards_of(&cows));
    let total = |d: &Deck| d.hand().len() + d.draw().len() + d.discard().len();
    assert_eq!(total(&d), 14);
    d.refillHand();
    assert_eq!(total(&d), 14);
    d.shuffleDiscard();
    assert_eq!(total(&d), 14);
    for _ in 0..20 {
        let _ = d.drawCard();
        assert_eq!(total(&d), 14);
    }
    assert_eq!(d.hand().len(), 14);
    assert_eq!(d.cowCards().len(), 14);
}

#[test]
fn trash_takes_one_card_and_play_moves_it() {
    let a = Card::CowCard(Cow::new(CowColor::Jersey, 1));
    let b = Card::CowCard(Cow::new(CowColor::Dutch, 2));
    let mut d = Deck::new_unshuffled(4, vec![a, b, a]);
    d.refillHand();
    assert_eq!(d.hand().clone(), vec![a, b, a]);
    assert_eq!(d.trashCard(a), Ok(()));
    assert_eq!(d.hand().clone(), vec![b, a]);
    assert_eq!(d.hand().len() + d.draw().len() + d.discard().len(), 2);
    assert_eq!(d.playCard(a), Ok(()));
    assert_eq!(d.hand().clone(), vec![b]);
    assert_eq!(d.discard().clone(), vec![a]);
    assert_eq!(d.hand().len() + d.draw().len() + d.discard().len(), 2);
    assert_eq!(d.playCard(a), Err(DeckError::CardNotInHand));
    assert_eq!(d.trashCard(a), Err(DeckError::CardNotInHand));
    assert_eq!(d.hand().clone(), vec![b]);
    assert_eq!(d.discard().clone(), vec![a]);
}

#[test]
fn shuffle_discard_swaps_the_piles() {
    let a = Card::CowCard(Cow::new(CowColor::Jersey, 1));
    let b = Card::CowCard(Cow::new(CowColor::Dutch, 2));
    let mut d = Deck::new_unshuffled(4, vec![a, b]);
    d.addCard(Card::CowCard(Cow::new(CowColor::Swiss, 3)));
    d.shuffleDiscard();
    assert_eq!(d.discard().clone(), vec![a, b]);
    assert_eq!(d.draw().clone(), vec![Card::CowCard(Cow::new(CowColor::Swiss, 3))]);
    assert_eq!(d.hand().len(), 0);
}

#[test]
fn new_deck_is_shuffled() {
    let pile: Vec<Card> = (0..40).map(|p| Card::CowCard(Cow::new(CowColor::Jersey, p))).collect();
    let d = Deck::new(4, pile.clone());
    assert_eq!(d.hand().len(), 0);
    assert_eq!(d.discard().len(), 0);
    assert_eq!(sorted_points(d.draw()), (0..40).collect::<Vec<u32>>());
    assert_ne!(d.draw().clone(), pile);
}

#[test]
fn two_decks_shuffle_on_their_own() {
    let pile: Vec<Card> = (0..40).map(|p| Card::CowCard(Cow::new(CowColor::Jersey, p))).collect();
    let first = Deck::new(4, pile.clone());
    let second = Deck::new(4, pile);
    assert_ne!(first.draw().clone(), second.draw().clone());
}

#[test]
fn hand_value_counts_each_breed_once() {
    let mut d = Deck::new_unshuffled(
        9,
        cards_of(&[
            Cow::new(CowColor::Longhorn, 7),
            Cow::new(CowColor::Longhorn, 6),
            Cow::new(CowColor::Highland, 5),
            Cow::new(CowColor::Holstein, 3),
            Cow::new(CowColor::Swiss, 3),
            Cow::new(CowColor::Ayrshire, 3),
            Cow::new(CowColor::Jersey, 0),
            Cow::new(CowColor::Jersey, 0),
        ]),
    );
    assert_eq!(d.handValue(), 0);
    d.refillHand();
    assert_eq!(d.handValue(), 5 + 4 + 3 + 3 + 3 + 1);
    assert_eq!(d.cowPoints(), 7 + 6 + 5 + 3 + 3 + 3);
    assert_eq!(d.pairInHand(), vec![CowColor::Jersey, CowColor::Longhorn]);
}

#[test]
fn hand_value_ignores_objective_cards() {
    let obj = Objective::new(None, 3, 2, &[]).unwrap();
    let mut d = Deck::new_unshuffled(4, vec![Card::ObjectiveCard(obj), Card::ObjectiveCard(obj)]);
    d.refillHand();
    assert_eq!(d.handValue(), 0);
    assert_eq!(d.cowPoints(), 0);
    assert_eq!(d.pairInHand(), Vec::<CowColor>::new());
    assert_eq!(d.cowCards(), Vec::<Cow>::new());
    assert_eq!(d.objectiveCards(), vec![obj, obj]);
}

#[test]
fn pairs_are_listed_once_in_order_of_breed() {
    let mut d = Deck::new_unshuffled(
        10,
        cards_of(&[
            Cow::new(CowColor::Swiss, 3),
            Cow::new(CowColor::Dutch, 0),
            Cow::new(CowColor::Swiss, 3),
            Cow::new(CowColor::Dutch, 0),
            Cow::new(CowColor::Swiss, 4),
            Cow::new(CowColor::Angus, 0),
            Cow::new(CowColor::Dutch, 0),
            Cow::new(CowColor::Dutch, 0),
        ]),
    );
    d.refillHand();
    assert_eq!(d.pairInHand(), vec![CowColor::Dutch, CowColor::Swiss]);
}

#[test]
fn cow_in_hand_finds_the_first_of_a_breed() {
    let mut d = Deck::new_unshuffled(
        4,
        cards_of(&[
            Cow::new(CowColor::Swiss, 2),
            Cow::new(CowColor::Dutch, 0),
            Cow::new(CowColor::Swiss, 3),
        ]),
    );
    assert_eq!(d.cowInHand(CowColor::Swiss), None);
    d.refillHand();
    assert_eq!(d.cowInHand(CowColor::Swiss), Some(Cow::new(CowColor::Swiss, 3)));
    assert_eq!(d.cowInHand(CowColor::Dutch), Some(Cow::new(CowColor::Dutch, 0)));
    assert_eq!(d.cowInHand(CowColor::Jersey), None);
}

#[test]
fn cow_cards_run_through_hand_draw_and_discard() {
    let a = Cow::new(CowColor::Jersey, 1);
    let b = Cow::new(CowColor::Dutch, 2);
    let c = Cow::new(CowColor::Swiss, 3);
    let obj = Objective::new(None, 1, 1, &[]).unwrap();
    let mut d = Deck::new_unshuffled(1, vec![Card::CowCard(a), Card::ObjectiveCard(obj), Card::CowCard(b)]);
    d.addCard(Card::CowCard(c));
    d.refillHand();
    assert_eq!(d.cowCards(), vec![b, a, c]);
    assert_eq!(d.objectiveCards(), vec![obj]);
    assert_eq!(d.cowPoints(), 6);
}

#[test]
fn cow_value_by_breed() {
    let values = [
        (CowColor::Jersey, 1),
        (CowColor::Dutch, 2),
        (CowColor::Angus, 2),
        (CowColor::Guernsey, 2),
        (CowColor::Holstein, 3),
        (CowColor::Swiss, 3),
        (CowColor::Ayrshire, 3),
        (CowColor::Highland, 4),
        (CowColor::Longhorn, 5),
    ];
    for (color, value) in values {
        let cow = Cow::new(color, 9);
        assert_eq!(cow.value(), value);
        assert_eq!(cow.color(), color);
        assert_eq!(cow.points(), 9);
    }
}

#[test]
fn a_copy_of_a_deck_shuffles_as_the_deck_does() {
    let pile: Vec<Card> = (0..40).map(|p| Card::CowCard(Cow::new(CowColor::Jersey, p))).collect();
    let mut deck = Deck::new_unshuffled(4, Vec::new());
    for card in pile {
        deck.addCard(card);
    }
    let mut copy = deck.clone();
    assert_eq!(copy, deck);
    deck.refillHand();
    assert_ne!(copy, deck);
    copy.refillHand();
    assert_eq!(copy.hand().clone(), deck.hand().clone());
    assert_eq!(copy.draw().clone(), deck.draw().clone());
    assert_eq!(copy, deck);
}
