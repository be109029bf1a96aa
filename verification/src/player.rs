//! A player's holdings.
use vstd::prelude::*;
use crate::actions::ActionTag;
use crate::buildings::{Building, Hazard};
use crate::deck::{Card, Cow, Deck, DeckView, Objective};

verus! {

/// The three kinds of employee.
#[derive(Copy, Clone, Eq, PartialEq, Debug, Structural)]
pub enum Employee {
    Cowboy,
    Craftsman,
    Engineer,
}

/// The two auxiliary actions of one space of the player board, which are
/// unlocked one after the other by taking the discs off them.
#[derive(Copy, Clone, Eq, PartialEq, Debug)]
pub struct AuxiliaryAction {
    actions: [ActionTag; 2],
    unlocked: u32,
}

impl AuxiliaryAction {
    /// The two actions, the one that is unlocked first in front.
    pub closed spec fn spec_actions(self) -> Seq<ActionTag> {
        self.actions@
    }

    /// How many of the two actions have been unlocked.
    pub closed spec fn spec_unlocked(self) -> nat {
        self.unlocked as nat
    }

    /// The pair of actions with both still locked.
    pub fn new(actions: [ActionTag; 2]) -> (r: AuxiliaryAction)
        ensures
            r.spec_actions() == actions@,
            r.spec_unlocked() == 0,
    {
        AuxiliaryAction { actions, unlocked: 0 }
    }

    /// The actions that can be taken: none while both are locked, the first
    /// once one is unlocked, both after that.
    pub fn availableActions(&self) -> (r: (Option<ActionTag>, Option<ActionTag>))
        ensures
            r.0 == if self.spec_unlocked() >= 1 {
                Some(self.spec_actions()[0])
            } else {
                None
            },
            r.1 == if self.spec_unlocked() >= 2 {
                Some(self.spec_actions()[1])
            } else {
                None
            },
    {
        if self.unlocked == 0 {
            (None, None)
        } else if self.unlocked == 1 {
            (Some(self.actions[0]), None)
        } else {
            (Some(self.actions[0]), Some(self.actions[1]))
        }
    }

    /// Whether a disc is left on the space, that is, an action still locked.
    pub fn hasDisc(&self) -> (r: bool)
        ensures
            r == (self.spec_unlocked() < 2),
    {
        self.unlocked < 2
    }

    /// Takes a disc off the space, which unlocks the next action. There has
    /// to be a disc left.
    pub fn unlock(&mut self)
        requires
            old(self).spec_unlocked() <= 1,
        ensures
            final(self).spec_unlocked() == old(self).spec_unlocked() + 1,
            final(self).spec_actions() == old(self).spec_actions(),
    {
        self.unlocked += 1;
    }
}

/// The board in front of a player.
#[derive(Copy, Clone, Eq, PartialEq, Debug, Structural)]
pub struct PlayerBoard {
}

/// The pooled resources that objectives are matched against.
#[derive(Copy, Clone, Eq, PartialEq, Debug, Structural)]
pub struct ObjectiveResources {
    pub buildings: u32,
    pub hazards: u32,
    pub san_fran: u32,
    pub green_tepees: u32,
    pub blue_tepees: u32,
    pub station_discs: u32,
    pub ryb_cows: u32,
    pub brown_cows: u32,
    pub purple_cows: u32,
}

/// A player's holdings as plain values.
pub struct PlayerView {
    pub id: u32,
    pub dollars: u32,
    pub cattleman_pos: usize,
    pub hired: Seq<u32>,
    pub deck: DeckView,
    pub played_objectives: Seq<Objective>,
    pub played_buildings: Seq<usize>,
    pub buildings: Seq<Building>,
    pub hazards: Seq<Hazard>,
    pub green_tepees: u32,
    pub blue_tepees: u32,
}

impl PlayerView {
    /// Whether these are the holdings of the player at `seat` at the start
    /// of a game: six dollars and one more for each seat after the first,
    /// the cattleman at the start of the trail, nobody hired, nothing built,
    /// played or collected, the cards `cows` in some order as the draw pile
    /// of a deck with a hand of four, and `buildings` still to place.
    pub open spec fn fresh(self, seat: u32, cows: Seq<Cow>, buildings: Seq<Building>) -> bool {
        &&& self.id == seat
        &&& self.dollars == seat + 6
        &&& self.cattleman_pos == 0
        &&& self.hired == seq![0u32, 0u32, 0u32]
        &&& self.deck.hand == Seq::<Card>::empty()
        &&& self.deck.discard == Seq::<Card>::empty()
        &&& self.deck.hand_size == 4
        &&& self.deck.draw.to_multiset() == as_cards(cows).to_multiset()
        &&& self.played_objectives == Seq::<Objective>::empty()
        &&& self.played_buildings == Seq::<usize>::empty()
        &&& self.buildings == buildings
        &&& self.hazards == Seq::<Hazard>::empty()
        &&& self.green_tepees == 0
        &&& self.blue_tepees == 0
    }
}

/// The cattle cards `cows` as cards of a deck, in the same order.
pub open spec fn as_cards(cows: Seq<Cow>) -> Seq<Card> {
    Seq::new(cows.len(), |i: int| Card::CowCard(cows[i]))
}

/// A player: money, the place on the trail, the employees hired, the deck,
/// and what has been built, played and collected.
#[derive(Clone, Eq, PartialEq, Debug)]
pub struct Player {
    id: u32,
    dollars: u32,
    cattleManPos: usize,
    hired: [u32; 3],
    deck: Deck,
    playedObjectives: Vec<Objective>,
    /// The locations on the trail of the buildings that were placed.
    playedBuildings: Vec<usize>,
    buildings: Vec<Building>,
    hazards: Vec<Hazard>,
    green_tepees: u32,
    blue_tepees: u32,
}

impl View for Player {
    type V = PlayerView;

    closed spec fn view(&self) -> PlayerView {
        PlayerView {
            id: self.id,
            dollars: self.dollars,
            cattleman_pos: self.cattleManPos,
            hired: self.hired@,
            deck: self.deck@,
            played_objectives: self.playedObjectives@,
            played_buildings: self.playedBuildings@,
            buildings: self.buildings@,
            hazards: self.hazards@,
            green_tepees: self.green_tepees,
            blue_tepees: self.blue_tepees,
        }
    }
}

impl Player {
    /// The player who sits at `turnPos`, counted from 0, at the start of a
    /// game, with the starting cards shuffled and the buildings to place.
    pub fn new(turnPos: u32, startingDeck: Vec<Cow>, playerBuildings: Vec<Building>) -> (player:
        Player)
        requires
            turnPos + 6 <= u32::MAX,
        ensures
            player@.fresh(turnPos, startingDeck@, playerBuildings@),
    {
        let mut cards: Vec<Card> = Vec::new();
        let mut i: usize = 0;
        while i < startingDeck.len()
            invariant
                i <= startingDeck.len(),
                cards@ == as_cards(startingDeck@.take(i as int)),
            decreases startingDeck.len() - i,
        {
            cards.push(Card::CowCard(startingDeck[i]));
            i += 1;
        }
        assert(startingDeck@.take(i as int) =~= startingDeck@);
        let player = Player {
            id: turnPos,
            dollars: turnPos + 6,
            cattleManPos: 0,
            hired: [0;3],
            deck: Deck::new(4, cards),
            playedObjectives: Vec::new(),
            playedBuildings: Vec::new(),
            buildings: playerBuildings,
            hazards: Vec::new(),
            green_tepees: 0,
            blue_tepees: 0,
        };
        assert(player@.hired =~= seq![0u32, 0u32, 0u32]);
        player
    }

    /// The money the player holds.
    pub fn dollars(&self) -> (r: u32)
        ensures
            r == self@.dollars,
    {
        self.dollars
    }

    /// The player's deck.
    pub fn deck(&self) -> (r: &Deck)
        ensures
            r@ == self@.deck,
    {
        &self.deck
    }

    /// The player's seat, counted from 0.
    pub fn id(&self) -> (r: u32)
        ensures
            r == self@.id,
    {
        self.id
    }

    /// The number of pairs of a green and a blue tepee that the player holds.
    pub fn tepeePairs(&self) -> (r: u32)
        ensures
            r == if self@.green_tepees <= self@.blue_tepees {
                self@.green_tepees
            } else {
                self@.blue_tepees
            },
    {
        if self.green_tepees <= self.blue_tepees {
            self.green_tepees
        } else {
            self.blue_tepees
        }
    }
}

} // verus!
