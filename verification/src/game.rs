//! The state of a whole game.
use vstd::prelude::*;
use crate::buildings::Building;
use crate::deck::{opening_cow_market, Cow, CowMarket, CowMarketView, Objective};
use crate::player::{Player, PlayerView};
use crate::tracks::SpaceOccupant;

verus! {

/// A game as plain values.
pub struct EngineView {
    pub starting_player: usize,
    pub current_player: usize,
    pub players: Seq<PlayerView>,
    pub cows: CowMarketView,
    pub objectives: Seq<Objective>,
    pub track: Seq<SpaceOccupant>,
}

/// A game: the players in the order of their seats, whose turn it is, the
/// cow market, the objectives on offer and what stands along the trail.
#[derive(Clone, Eq, PartialEq, Debug)]
pub struct Engine {
    starting_player: usize,
    current_player: usize,
    players: Vec<Player>,
    cows: CowMarket,
    objectives: Vec<Objective>,
    track: Vec<SpaceOccupant>,
}

impl View for Engine {
    type V = EngineView;

    closed spec fn view(&self) -> EngineView {
        EngineView {
            starting_player: self.starting_player,
            current_player: self.current_player,
            players: Seq::new(self.players@.len(), |i: int| self.players@[i]@),
            cows: self.cows@,
            objectives: self.objectives@,
            track: self.track@,
        }
    }
}

fn copy_of(cows: &Vec<Cow>) -> (copy: Vec<Cow>)
    ensures
        copy@ == cows@,
{
    let mut copy: Vec<Cow> = Vec::new();
    let mut i: usize = 0;
    while i < cows.len()
        invariant
            i <= cows.len(),
            copy@ == cows@.take(i as int),
        decreases cows.len() - i,
    {
        copy.push(cows[i]);
        i += 1;
    }
    copy
}

impl Engine {
    /// The players in the order of their seats.
    pub fn players(&self) -> (r: &Vec<Player>)
        ensures
            r@.len() == self@.players.len(),
            forall|seat: int| 0 <= seat < r@.len() ==> (#[trigger] r@[seat])@ == self@.players[seat],
    {
        &self.players
    }

    /// The seat of the player whose turn it is.
    pub fn currentPlayer(&self) -> (r: usize)
        ensures
            r == self@.current_player,
    {
        self.current_player
    }

    /// What stands along the trail.
    pub fn track(&self) -> (r: &Vec<SpaceOccupant>)
        ensures
            r@ == self@.track,
    {
        &self.track
    }

    /// Sets up a game for `numPlayers` players with the starting cards that
    /// each of them gets and the trail to play on. The first seat starts and
    /// is in turn; every player starts as a fresh player with no buildings
    /// to place; no objectives are on offer yet.
    pub fn startDefaultGame(numPlayers: u32, starting_deck: &Vec<Cow>, track: Vec<SpaceOccupant>) -> (game:
        Engine)
        requires
            numPlayers + 5 <= u32::MAX,
        ensures
            game@.starting_player == 0,
            game@.current_player == 0,
            game@.players.len() == numPlayers,
            forall|seat: int|
                0 <= seat < numPlayers ==> (#[trigger] game@.players[seat]).fresh(
                    seat as u32,
                    starting_deck@,
                    Seq::<Building>::empty(),
                ),
            game@.cows == opening_cow_market(),
            game@.objectives == Seq::<Objective>::empty(),
            game@.track == track@,
    {
        let mut players: Vec<Player> = Vec::new();
        let mut seat: u32 = 0;
        while seat < numPlayers
            invariant
                seat <= numPlayers,
                numPlayers + 5 <= u32::MAX,
                players@.len() == seat,
                forall|at: int|
                    0 <= at < seat ==> (#[trigger] players@[at])@.fresh(
                        at as u32,
                        starting_deck@,
                        Seq::<Building>::empty(),
                    ),
            decreases numPlayers - seat,
        {
            let player = Player::new(seat, copy_of(starting_deck), Vec::new());
            players.push(player);
            seat += 1;
        }
        Engine {
            starting_player: 0,
            current_player: 0,
            players,
            cows: CowMarket::new(),
            objectives: Vec::new(),
            track,
        }
    }
}

} // verus!
