//! The trail of locations that the cattlemen walk, and the railway with its
//! stations and cities.
use vstd::prelude::*;
use crate::actions::{ActionTag, ActionValues};
use crate::buildings::{Building, Hazard, HazardType, Tepee};
use crate::logical::{And, XOr};

verus! {

/// What stands on a location of the trail.
#[derive(Copy, Clone, Eq, PartialEq, Debug)]
pub enum SpaceOccupant {
    /// A building site, with the risk action of the location, the building
    /// that was placed, if any, and where the site lies.
    Building { risk_action: And<ActionTag, 3>, building: Option<Building>, neutral: bool, forest: bool },
    /// A place for a hazard of one stretch of trail, with the tile on it.
    Hazard(HazardType, Option<Hazard>),
    /// A place for a tepee, with the points it changes hands for and the tile on it.
    Tepee(i32, Option<Tepee>),
    /// The city at the end of the trail.
    KansasCity,
    /// The start of the trail.
    Start,
}

/// A location of the trail: what stands on it, and the locations that a
/// cattleman can walk to from it, two of them where the trail forks.
#[derive(Copy, Clone, Eq, PartialEq, Debug)]
pub struct Space {
    occupant: SpaceOccupant,
    nextSpace: [Option<usize>; 2],
}

impl Space {
    /// What stands on the location.
    pub closed spec fn spec_occupant(self) -> SpaceOccupant {
        self.occupant
    }

    /// The location that the edge `edge` leads to. A location has the edges
    /// 0 and 1, and either may be missing.
    pub closed spec fn spec_successor(self, edge: int) -> Option<usize> {
        if 0 <= edge < 2 {
            self.nextSpace@[edge]
        } else {
            None
        }
    }

    /// Whether the location is the start of the trail.
    pub open spec fn is_start(self) -> bool {
        self.spec_occupant() is Start
    }

    /// Whether the location is the end of the trail.
    pub open spec fn is_terminal(self) -> bool {
        self.spec_occupant() is KansasCity
    }

    /// Whether the trail forks at the location.
    pub open spec fn is_branch(self) -> bool {
        self.spec_successor(0) is Some && self.spec_successor(1) is Some
    }

    /// A location with what stands on it and its two edges.
    pub fn new(occupant: SpaceOccupant, nextSpace: [Option<usize>; 2]) -> (r: Space)
        ensures
            r.spec_occupant() == occupant,
            r.spec_successor(0) == nextSpace@[0],
            r.spec_successor(1) == nextSpace@[1],
            forall|edge: int| !(0 <= edge < 2) ==> r.spec_successor(edge) is None,
    {
        Space { occupant, nextSpace }
    }

    /// What stands on the location.
    pub fn occupant(&self) -> (r: SpaceOccupant)
        ensures
            r == self.spec_occupant(),
    {
        self.occupant
    }

    /// The location that the edge `edge` leads to, if the location has that edge.
    pub fn successor(&self, edge: usize) -> (r: Option<usize>)
        ensures
            r == self.spec_successor(edge as int),
    {
        if edge < 2 {
            self.nextSpace[edge]
        } else {
            None
        }
    }

    /// Whether the location is the start of the trail.
    pub fn isStart(&self) -> (r: bool)
        ensures
            r == self.is_start(),
    {
        match self.occupant {
            SpaceOccupant::Start => true,
            _ => false,
        }
    }

    /// Whether the location is the end of the trail.
    pub fn isTerminal(&self) -> (r: bool)
        ensures
            r == self.is_terminal(),
    {
        match self.occupant {
            SpaceOccupant::KansasCity => true,
            _ => false,
        }
    }
}

/// Why a trail was refused, or a walk on it failed.
#[derive(Copy, Clone, Eq, PartialEq, Debug, Structural)]
pub enum TrackError {
    /// An edge leads to no location of the trail, or the location has no such edge.
    InvalidEdge,
    /// There is no location at the index.
    InvalidIndex,
    /// The trail has no start, or more than one.
    StartCount,
    /// The trail has no end, or more than one.
    TerminalCount,
}

/// Whether every edge of every location leads to a location of the trail.
pub open spec fn edges_valid(spaces: Seq<Space>) -> bool {
    forall|at: int, edge: int|
        0 <= at < spaces.len() && 0 <= edge < 2 ==> (#[trigger] spaces[at].spec_successor(edge)
            matches Some(to) ==> to < spaces.len())
}

/// The number of starts among the locations.
pub open spec fn starts(spaces: Seq<Space>) -> nat
    decreases spaces.len(),
{
    if spaces.len() == 0 {
        0
    } else {
        starts(spaces.drop_last()) + if spaces.last().is_start() {
            1nat
        } else {
            0nat
        }
    }
}

/// The number of ends among the locations.
pub open spec fn terminals(spaces: Seq<Space>) -> nat
    decreases spaces.len(),
{
    if spaces.len() == 0 {
        0
    } else {
        terminals(spaces.drop_last()) + if spaces.last().is_terminal() {
            1nat
        } else {
            0nat
        }
    }
}

/// Whether the locations make up a trail: every edge leads to one of them,
/// and there is exactly one start and exactly one end.
pub open spec fn well_formed(spaces: Seq<Space>) -> bool {
    edges_valid(spaces) && starts(spaces) == 1 && terminals(spaces) == 1
}

/// One step from the location `at` along the edge `edge`. The end of the
/// trail is never left: a step from it stays there.
pub open spec fn step(spaces: Seq<Space>, at: usize, edge: usize) -> Result<usize, TrackError> {
    if at >= spaces.len() {
        Err(TrackError::InvalidIndex)
    } else if spaces[at as int].is_terminal() {
        Ok(at)
    } else {
        match spaces[at as int].spec_successor(edge as int) {
            Some(to) => Ok(to),
            None => Err(TrackError::InvalidEdge),
        }
    }
}

/// A walk from the location `from`, one step along each of `edges` in turn.
pub open spec fn walk(spaces: Seq<Space>, from: usize, edges: Seq<usize>) -> Result<
    usize,
    TrackError,
>
    decreases edges.len(),
{
    if from >= spaces.len() {
        Err(TrackError::InvalidIndex)
    } else if edges.len() == 0 {
        Ok(from)
    } else {
        match step(spaces, from, edges[0]) {
            Ok(to) => walk(spaces, to, edges.skip(1)),
            Err(e) => Err(e),
        }
    }
}

/// Where the locations hold exactly one start, it stands at one index and at
/// no other.
pub proof fn lemma_one_start(spaces: Seq<Space>)
    requires
        starts(spaces) == 1,
    ensures
        exists|at: int|
            0 <= at < spaces.len() && (#[trigger] spaces[at]).is_start() && forall|other: int|
                0 <= other < spaces.len() && (#[trigger] spaces[other]).is_start() ==> other == at,
    decreases spaces.len(),
{
    let front = spaces.drop_last();
    let last = spaces.len() - 1;
    if spaces.last().is_start() {
        lemma_no_start(front);
        assert(spaces[last].is_start());
        assert forall|other: int|
            0 <= other < spaces.len() && (#[trigger] spaces[other]).is_start() implies other
            == last by {
            if other < last {
                assert(front[other].is_start());
            }
        }
    } else {
        lemma_one_start(front);
        let at = choose|at: int|
            0 <= at < front.len() && (#[trigger] front[at]).is_start() && forall|other: int|
                0 <= other < front.len() && (#[trigger] front[other]).is_start() ==> other == at;
        assert(spaces[at].is_start());
        assert forall|other: int|
            0 <= other < spaces.len() && (#[trigger] spaces[other]).is_start() implies other
            == at by {
            assert(other < last);
            assert(front[other].is_start());
        }
    }
}

/// Where the count of starts is nothing, no location is a start.
pub proof fn lemma_no_start(spaces: Seq<Space>)
    requires
        starts(spaces) == 0,
    ensures
        forall|at: int| 0 <= at < spaces.len() ==> !(#[trigger] spaces[at]).is_start(),
    decreases spaces.len(),
{
    if spaces.len() > 0 {
        let front = spaces.drop_last();
        lemma_no_start(front);
        assert forall|at: int| 0 <= at < spaces.len() implies !(#[trigger] spaces[at]).is_start() by {
            if at < front.len() {
                assert(!front[at].is_start());
            }
        }
    }
}

/// Where the locations hold exactly one end, it stands at one index and at
/// no other.
pub proof fn lemma_one_terminal(spaces: Seq<Space>)
    requires
        terminals(spaces) == 1,
    ensures
        exists|at: int|
            0 <= at < spaces.len() && (#[trigger] spaces[at]).is_terminal() && forall|other: int|
                0 <= other < spaces.len() && (#[trigger] spaces[other]).is_terminal() ==> other
                    == at,
    decreases spaces.len(),
{
    let front = spaces.drop_last();
    let last = spaces.len() - 1;
    if spaces.last().is_terminal() {
        lemma_no_terminal(front);
        assert(spaces[last].is_terminal());
        assert forall|other: int|
            0 <= other < spaces.len() && (#[trigger] spaces[other]).is_terminal() implies other
            == last by {
            if other < last {
                assert(front[other].is_terminal());
            }
        }
    } else {
        lemma_one_terminal(front);
        let at = choose|at: int|
            0 <= at < front.len() && (#[trigger] front[at]).is_terminal() && forall|other: int|
                0 <= other < front.len() && (#[trigger] front[other]).is_terminal() ==> other
                    == at;
        assert(spaces[at].is_terminal());
        assert forall|other: int|
            0 <= other < spaces.len() && (#[trigger] spaces[other]).is_terminal() implies other
            == at by {
            assert(other < last);
            assert(front[other].is_terminal());
        }
    }
}

/// Where the count of ends is nothing, no location is an end.
pub proof fn lemma_no_terminal(spaces: Seq<Space>)
    requires
        terminals(spaces) == 0,
    ensures
        forall|at: int| 0 <= at < spaces.len() ==> !(#[trigger] spaces[at]).is_terminal(),
    decreases spaces.len(),
{
    if spaces.len() > 0 {
        let front = spaces.drop_last();
        lemma_no_terminal(front);
        assert forall|at: int| 0 <= at < spaces.len() implies !(
        #[trigger] spaces[at]).is_terminal() by {
            if at < front.len() {
                assert(!front[at].is_terminal());
            }
        }
    }
}

/// The shape of a trail: at every fork both edges lead to locations of the
/// trail, and the trail has one start and one end, each at one index only.
pub proof fn lemma_trail_shape(spaces: Seq<Space>)
    requires
        well_formed(spaces),
    ensures
        forall|at: int|
            0 <= at < spaces.len() && (#[trigger] spaces[at]).is_branch() ==> {
                &&& spaces[at].spec_successor(0) matches Some(left) && left < spaces.len()
                &&& spaces[at].spec_successor(1) matches Some(right) && right < spaces.len()
            },
        exists|at: int|
            0 <= at < spaces.len() && (#[trigger] spaces[at]).is_start() && forall|other: int|
                0 <= other < spaces.len() && (#[trigger] spaces[other]).is_start() ==> other == at,
        exists|at: int|
            0 <= at < spaces.len() && (#[trigger] spaces[at]).is_terminal() && forall|other: int|
                0 <= other < spaces.len() && (#[trigger] spaces[other]).is_terminal() ==> other
                    == at,
{
    lemma_one_start(spaces);
    lemma_one_terminal(spaces);
    assert forall|at: int| 0 <= at < spaces.len() && (#[trigger] spaces[at]).is_branch() implies {
        &&& spaces[at].spec_successor(0) matches Some(left) && left < spaces.len()
        &&& spaces[at].spec_successor(1) matches Some(right) && right < spaces.len()
    } by {
        assert(spaces[at].spec_successor(0) is Some);
        assert(spaces[at].spec_successor(1) is Some);
    }
}

/// A walk on a trail never leaves it, and it fails only for want of an edge
/// once it has started from one of the trail's locations.
pub proof fn lemma_walk_stays(spaces: Seq<Space>, from: usize, edges: Seq<usize>)
    requires
        edges_valid(spaces),
        from < spaces.len(),
    ensures
        walk(spaces, from, edges) matches Ok(to) ==> to < spaces.len(),
        walk(spaces, from, edges) matches Err(e) ==> e == TrackError::InvalidEdge,
    decreases edges.len(),
{
    if edges.len() > 0 {
        if let Ok(to) = step(spaces, from, edges[0]) {
            if !spaces[from as int].is_terminal() {
                assert(spaces[from as int].spec_successor(edges[0] as int) == Some(to));
                assert(0 <= edges[0] < 2);
            }
            lemma_walk_stays(spaces, to, edges.skip(1));
        }
    }
}

/// A walk that starts at the end of the trail stays there, whatever edges it names.
pub proof fn lemma_walk_halts(spaces: Seq<Space>, from: usize, edges: Seq<usize>)
    requires
        from < spaces.len(),
        spaces[from as int].is_terminal(),
    ensures
        walk(spaces, from, edges) == Ok::<usize, TrackError>(from),
    decreases edges.len(),
{
    if edges.len() > 0 {
        lemma_walk_halts(spaces, from, edges.skip(1));
    }
}

/// The trail: locations joined by edges, with one start and one end.
#[derive(Debug)]
pub struct Track {
    spaces: Vec<Space>,
}

impl View for Track {
    type V = Seq<Space>;

    closed spec fn view(&self) -> Seq<Space> {
        self.spaces@
    }
}

impl Track {
    #[verifier::type_invariant]
    spec fn is_trail(self) -> bool {
        well_formed(self.spaces@)
    }

    /// Makes a trail of `spaces`. They are refused where an edge leads to no
    /// location among them, and else where they hold not exactly one start,
    /// and else where they hold not exactly one end.
    pub fn new(spaces: Vec<Space>) -> (r: Result<Track, TrackError>)
        ensures
            r is Ok <==> well_formed(spaces@),
            r matches Ok(track) ==> track@ == spaces@,
            r matches Err(e) ==> e == if !edges_valid(spaces@) {
                TrackError::InvalidEdge
            } else if starts(spaces@) != 1 {
                TrackError::StartCount
            } else {
                TrackError::TerminalCount
            },
    {
        let mut start_count: usize = 0;
        let mut terminal_count: usize = 0;
        let mut edges_ok = true;
        let mut at: usize = 0;
        while at < spaces.len()
            invariant
                at <= spaces.len(),
                start_count == starts(spaces@.take(at as int)),
                terminal_count == terminals(spaces@.take(at as int)),
                start_count <= at,
                terminal_count <= at,
                edges_ok <==> forall|i: int, edge: int|
                    0 <= i < at && 0 <= edge < 2 ==> (#[trigger] spaces@[i].spec_successor(edge)
                        matches Some(to) ==> to < spaces@.len()),
            decreases spaces.len() - at,
        {
            assert(spaces@.take(at + 1).drop_last() =~= spaces@.take(at as int));
            let space = &spaces[at];
            let mut edge: usize = 0;
            while edge < 2
                invariant
                    edge <= 2,
                    at < spaces.len(),
                    *space == spaces@[at as int],
                    edges_ok <==> (forall|i: int, e: int|
                        0 <= i < at && 0 <= e < 2 ==> (#[trigger] spaces@[i].spec_successor(e)
                            matches Some(to) ==> to < spaces@.len())) && (forall|e: int|
                        0 <= e < edge ==> (#[trigger] spaces@[at as int].spec_successor(e)
                            matches Some(to) ==> to < spaces@.len())),
                decreases 2 - edge,
            {
                if let Some(to) = space.successor(edge) {
                    if to >= spaces.len() {
                        edges_ok = false;
                    }
                }
                edge += 1;
            }
            if space.isStart() {
                start_count += 1;
            }
            if space.isTerminal() {
                terminal_count += 1;
            }
            at += 1;
        }
        assert(spaces@.take(at as int) =~= spaces@);
        if !edges_ok {
            Err(TrackError::InvalidEdge)
        } else if start_count != 1 {
            Err(TrackError::StartCount)
        } else if terminal_count != 1 {
            Err(TrackError::TerminalCount)
        } else {
            Ok(Track { spaces })
        }
    }

    /// The locations of the trail, which make up a well-formed trail.
    pub fn spaces(&self) -> (r: &Vec<Space>)
        ensures
            r@ == self@,
            well_formed(self@),
    {
        proof {
            use_type_invariant(self);
        }
        &self.spaces
    }

    /// One step from the location `at` along the edge `edge`: to the location
    /// that the edge leads to, or nowhere from the end of the trail. Fails
    /// where there is no location at `at`, or no such edge.
    pub fn step(&self, at: usize, edge: usize) -> (r: Result<usize, TrackError>)
        ensures
            r == step(self@, at, edge),
            at < self@.len() ==> (r matches Ok(to) ==> to < self@.len()),
    {
        proof {
            use_type_invariant(self);
        }
        if at >= self.spaces.len() {
            return Err(TrackError::InvalidIndex);
        }
        let space = &self.spaces[at];
        if space.isTerminal() {
            return Ok(at);
        }
        match space.successor(edge) {
            Some(to) => {
                assert(self@[at as int].spec_successor(edge as int) == Some(to));
                assert(0 <= edge < 2);
                Ok(to)
            },
            None => Err(TrackError::InvalidEdge),
        }
    }

    /// A walk from the location `from`, one step along each of `edges` in
    /// turn. Once the end of the trail is reached the walk stays there.
    /// Fails where there is no location at `from`, or where a location on
    /// the way has no edge of the number named.
    pub fn walk(&self, from: usize, edges: &[usize]) -> (r: Result<usize, TrackError>)
        ensures
            r == walk(self@, from, edges@),
            r matches Ok(to) ==> to < self@.len(),
    {
        if from >= self.spaces.len() {
            return Err(TrackError::InvalidIndex);
        }
        let mut at = from;
        let mut i: usize = 0;
        assert(edges@.skip(0) =~= edges@);
        while i < edges.len()
            invariant
                i <= edges@.len(),
                at < self@.len(),
                walk(self@, from, edges@) == walk(self@, at, edges@.skip(i as int)),
            decreases edges@.len() - i,
        {
            assert(edges@.skip(i as int)[0] == edges@[i as int]);
            assert(edges@.skip(i as int).skip(1) =~= edges@.skip(i + 1));
            match self.step(at, edges[i]) {
                Ok(to) => {
                    at = to;
                },
                Err(e) => {
                    return Err(e);
                },
            }
            i += 1;
        }
        Ok(at)
    }
}

/// A city that cattle are delivered to.
#[derive(Clone, Eq, PartialEq, Debug)]
pub struct City {
    pub location: u32,
    pub points: i32,
    pub coins: u32,
    pub advanced_disc: bool,
    pub limited: bool,
    pub placed_discs: [u32; 4],
    pub name: String,
}

/// What a pair of deliveries to neighbouring cities gives.
#[derive(Copy, Clone, Eq, PartialEq, Debug, Structural)]
pub struct PairAction {
    pub take_obj: bool,
    pub points: i32,
}

/// The cities along the railway, and what each pair of neighbours gives.
#[derive(Clone, Eq, PartialEq, Debug)]
pub struct CityTrack {
    pub cities: Vec<City>,
    pub pair_action: Vec<PairAction>,
}

/// The tile of a station master.
#[derive(Copy, Clone, Eq, PartialEq, Debug)]
pub struct StationMaster {
    pub points: ActionValues,
    pub bonus: XOr<ActionTag, 2>,
    pub perm_cert: bool,
}

/// A station of the railway.
#[derive(Clone, Eq, PartialEq, Debug)]
pub struct Station {
    pub location: u32,
    pub price: i32,
    pub points: u32,
    pub advanced_disc: bool,
    pub placed_discs: [bool; 4],
    pub station_master: Option<StationMaster>,
}

/// Where an engine stands: on the siding of a station, or on the main line.
#[derive(Copy, Clone, Eq, PartialEq, Debug, Structural)]
pub enum EngineSpace {
    TurnoutTrack(usize),
    MainTrack(usize),
}

/// What an engine's owner gets when the engine reaches the end of the main
/// line: the engine moves back by up to one space, and three coins.
pub open spec fn end_of_line_reward() -> (ActionTag, ActionTag) {
    (ActionTag::MoveEngine(ActionValues::AtMost(-1i32)), ActionTag::TakeCoins(ActionValues::Exact(3i32)))
}

/// The railway: the engines of up to four players, the stations and the cities.
#[derive(Clone, Eq, PartialEq, Debug)]
pub struct StationTrack {
    end: u32,
    engine_loc: [EngineSpace; 4],
    final_station: Station,
    stations: Vec<Station>,
    crossings: Vec<u32>,
    cities: CityTrack,
}

impl StationTrack {
    /// The last space of the main line.
    pub closed spec fn spec_end(self) -> u32 {
        self.end
    }

    /// Where the engines of the four players stand.
    pub closed spec fn spec_engines(self) -> Seq<EngineSpace> {
        self.engine_loc@
    }

    /// The station at the end of the line.
    pub closed spec fn spec_final_station(self) -> Station {
        self.final_station
    }

    /// The stations along the line.
    pub closed spec fn spec_stations(self) -> Seq<Station> {
        self.stations@
    }

    /// The spaces where the line crosses.
    pub closed spec fn spec_crossings(self) -> Seq<u32> {
        self.crossings@
    }

    /// The cities along the line.
    pub closed spec fn spec_cities(self) -> CityTrack {
        self.cities
    }

    /// A railway from its parts.
    pub fn new(
        end: u32,
        engine_loc: [EngineSpace; 4],
        final_station: Station,
        stations: Vec<Station>,
        crossings: Vec<u32>,
        cities: CityTrack,
    ) -> (track: StationTrack)
        ensures
            track.spec_end() == end,
            track.spec_engines() == engine_loc@,
            track.spec_final_station() == final_station,
            track.spec_stations() == stations@,
            track.spec_crossings() == crossings@,
            track.spec_cities() == cities,
    {
        StationTrack { end, engine_loc, final_station, stations, crossings, cities }
    }

    /// Where the engine of `player` stands.
    pub fn engineSpace(&self, player: u32) -> (r: EngineSpace)
        requires
            player < 4,
        ensures
            r == self.spec_engines()[player as int],
    {
        self.engine_loc[player as usize]
    }

    /// Puts the engine of `player`, one of the four, on `space`. Where that
    /// is the end of the main line, the reward for reaching it is returned.
    pub fn moveEngine(&mut self, player: u32, space: EngineSpace) -> (r: Option<
        (ActionTag, ActionTag),
    >)
        requires
            player < 4,
        ensures
            final(self).spec_engines() == old(self).spec_engines().update(player as int, space),
            final(self).spec_end() == old(self).spec_end(),
            final(self).spec_final_station() == old(self).spec_final_station(),
            final(self).spec_stations() == old(self).spec_stations(),
            final(self).spec_crossings() == old(self).spec_crossings(),
            final(self).spec_cities() == old(self).spec_cities(),
            r == if space == EngineSpace::MainTrack(old(self).spec_end() as usize) {
                Some(end_of_line_reward())
            } else {
                None
            },
    {
        self.engine_loc[player as usize] = space;
        if space == EngineSpace::MainTrack(self.end as usize) {
            Some(
                (
                    ActionTag::MoveEngine(ActionValues::AtMost(-1)),
                    ActionTag::TakeCoins(ActionValues::Exact(3)),
                ),
            )
        } else {
            None
        }
    }

    /// Records a delivery of `player` to `city`. A delivery changes nothing
    /// on the railway itself.
    pub fn makeDelivery(&mut self, player: u32, city: u32)
        ensures
            *final(self) == *old(self),
    {
    }
}

} // verus!
