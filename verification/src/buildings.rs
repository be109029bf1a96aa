//! Buildings, hazards and tepees: what can stand on a location of the trail.
use vstd::prelude::*;
use crate::actions::{ActionTag, ActionValues, DiscardCardOpts};
use crate::deck::CowColor;
use crate::logical::{And, LogicalError, Or, XOr};
use crate::player::Employee;

verus! {

/// The toll that a building or hazard asks of a passing player.
#[derive(Copy, Clone, Eq, PartialEq, Debug, Structural)]
pub enum Toll {
    NoToll,
    Green,
    Black,
    GreenBlack,
}

/// The colour of a tepee tile.
#[derive(Copy, Clone, Eq, PartialEq, Debug, Structural)]
pub enum Tepee {
    Green,
    Blue,
}

/// The stretch of trail that a hazard belongs to.
#[derive(Copy, Clone, Eq, PartialEq, Debug, Structural)]
pub enum HazardType {
    Flood,
    Drought,
    Rockfall,
}

/// A hazard tile.
#[derive(Copy, Clone, Eq, PartialEq, Debug, Structural)]
pub struct Hazard {
    area: HazardType,
    toll: Toll,
    points: u32,
}

impl Hazard {
    /// The stretch of trail the hazard belongs to.
    pub closed spec fn spec_area(self) -> HazardType {
        self.area
    }

    /// The toll it asks.
    pub closed spec fn spec_toll(self) -> Toll {
        self.toll
    }

    /// The points it is worth.
    pub closed spec fn spec_points(self) -> u32 {
        self.points
    }

    /// The hazard tile with these three parts.
    pub closed spec fn of(area: HazardType, toll: Toll, points: u32) -> Hazard {
        Hazard { area, toll, points }
    }

    /// A hazard tile of a stretch of trail, with its toll and its points.
    pub fn new(area: HazardType, toll: Toll, points: u32) -> (r: Hazard)
        ensures
            r == Hazard::of(area, toll, points),
            r.spec_area() == area,
            r.spec_toll() == toll,
            r.spec_points() == points,
    {
        Hazard { area, toll, points }
    }

    /// The stretch of trail the hazard belongs to.
    pub fn area(&self) -> (r: HazardType)
        ensures
            r == self.spec_area(),
    {
        self.area
    }

    /// The toll it asks.
    pub fn toll(&self) -> (r: Toll)
        ensures
            r == self.spec_toll(),
    {
        self.toll
    }

    /// The points it is worth.
    pub fn points(&self) -> (r: u32)
        ensures
            r == self.spec_points(),
    {
        self.points
    }
}

/// The alternatives of one axis of a menu, each as the list of its tags.
pub open spec fn alternatives_of(axis: XOr<And<ActionTag, 3>, 2>) -> Seq<Seq<ActionTag>> {
    Seq::new(axis.members().len(), |i: int| axis.members()[i].members())
}

/// A menu as nested lists: its axes, the alternatives of each axis, and the
/// tags of each alternative, all in their order.
pub open spec fn menu_of(actions: Or<XOr<And<ActionTag, 3>, 2>, 3>) -> Seq<Seq<Seq<ActionTag>>> {
    Seq::new(actions.members().len(), |i: int| alternatives_of(actions.members()[i]))
}

/// Whether the alternatives of an axis, and the tags of each of them, fill
/// their slots from the front.
pub open spec fn axis_packed(axis: XOr<And<ActionTag, 3>, 2>) -> bool {
    axis.packed() && forall|i: int|
        0 <= i < axis.members().len() ==> (#[trigger] axis.members()[i]).packed()
}

/// Whether every list of a menu fills its slots from the front.
pub open spec fn menu_packed(actions: Or<XOr<And<ActionTag, 3>, 2>, 3>) -> bool {
    actions.packed() && forall|i: int|
        0 <= i < actions.members().len() ==> axis_packed(#[trigger] actions.members()[i])
}

fn bundle1(first: ActionTag) -> (r: And<ActionTag, 3>)
    ensures
        r.members() == seq![first],
        r.packed(),
{
    let tags = [first];
    And::new(tags.as_slice()).unwrap()
}

fn bundle2(first: ActionTag, second: ActionTag) -> (r: And<ActionTag, 3>)
    ensures
        r.members() == seq![first, second],
        r.packed(),
{
    let tags = [first, second];
    And::new(tags.as_slice()).unwrap()
}

fn bundle3(first: ActionTag, second: ActionTag, third: ActionTag) -> (r: And<ActionTag, 3>)
    ensures
        r.members() == seq![first, second, third],
        r.packed(),
{
    let tags = [first, second, third];
    And::new(tags.as_slice()).unwrap()
}

fn one_of1(first: And<ActionTag, 3>) -> (r: XOr<And<ActionTag, 3>, 2>)
    requires
        first.packed(),
    ensures
        alternatives_of(r) == seq![first.members()],
        axis_packed(r),
{
    let bundles = [first];
    let r = XOr::new(bundles.as_slice()).unwrap();
    r
}

fn one_of2(first: And<ActionTag, 3>, second: And<ActionTag, 3>) -> (r: XOr<And<ActionTag, 3>, 2>)
    requires
        first.packed(),
        second.packed(),
    ensures
        alternatives_of(r) == seq![first.members(), second.members()],
        axis_packed(r),
{
    let bundles = [first, second];
    let r = XOr::new(bundles.as_slice()).unwrap();
    r
}

fn axes1(first: XOr<And<ActionTag, 3>, 2>) -> (r: Or<XOr<And<ActionTag, 3>, 2>, 3>)
    requires
        axis_packed(first),
    ensures
        menu_of(r) == seq![alternatives_of(first)],
        menu_packed(r),
{
    let axes = [first];
    let r = Or::new(axes.as_slice()).unwrap();
    r
}

fn axes2(first: XOr<And<ActionTag, 3>, 2>, second: XOr<And<ActionTag, 3>, 2>) -> (r: Or<
    XOr<And<ActionTag, 3>, 2>,
    3,
>)
    requires
        axis_packed(first),
        axis_packed(second),
    ensures
        menu_of(r) == seq![alternatives_of(first), alternatives_of(second)],
        menu_packed(r),
{
    let axes = [first, second];
    let r = Or::new(axes.as_slice()).unwrap();
    r
}

fn axes3(
    first: XOr<And<ActionTag, 3>, 2>,
    second: XOr<And<ActionTag, 3>, 2>,
    third: XOr<And<ActionTag, 3>, 2>,
) -> (r: Or<XOr<And<ActionTag, 3>, 2>, 3>)
    requires
        axis_packed(first),
        axis_packed(second),
        axis_packed(third),
    ensures
        menu_of(r) == seq![alternatives_of(first), alternatives_of(second), alternatives_of(third)],
        menu_packed(r),
{
    let axes = [first, second, third];
    let r = Or::new(axes.as_slice()).unwrap();
    assert(menu_of(r) =~= seq![
        alternatives_of(first),
        alternatives_of(second),
        alternatives_of(third),
    ]);
    r
}

/// The menus of the seven neutral buildings, by number.
pub open spec fn basic_menu(num: u32) -> Seq<Seq<Seq<ActionTag>>> {
    if num == 0 {
        seq![
            seq![
                seq![ActionTag::DiscardCard(DiscardCardOpts::Color(CowColor::Guernsey)), ActionTag::TakeCoins(ActionValues::Exact(2i32))],
            ],
            seq![
                seq![ActionTag::HireEmployee(ActionValues::Exact(0i32))],
            ],
            seq![
                seq![ActionTag::HireEmployee(ActionValues::Exact(-2i32))],
            ],
        ]
    } else if num == 1 {
        seq![
            seq![
                seq![ActionTag::DiscardCard(DiscardCardOpts::Color(CowColor::Dutch)), ActionTag::TakeCoins(ActionValues::Exact(2i32))],
            ],
            seq![
                seq![ActionTag::PlaceBuilding(ActionValues::EmployeeMult(Employee::Craftsman, -2i32))],
            ],
        ]
    } else if num == 2 {
        seq![
            seq![
                seq![ActionTag::MoveCertificate(ActionValues::Exact(1i32))],
                seq![ActionTag::TakeObjective],
            ],
            seq![
                seq![ActionTag::MoveEngine(ActionValues::EmployeeMult(Employee::Engineer, 1i32))],
            ],
        ]
    } else if num == 3 {
        seq![
            seq![
                seq![ActionTag::TakeTepee],
                seq![ActionTag::TakeCoins(ActionValues::Exact(-2i32)), ActionTag::MoveEngine(ActionValues::Exact(2i32))],
            ],
            seq![
                seq![ActionTag::DoubleAuxiliary],
            ],
        ]
    } else if num == 4 {
        seq![
            seq![
                seq![ActionTag::DiscardCard(DiscardCardOpts::Color(CowColor::Angus)), ActionTag::TakeCoins(ActionValues::Exact(2i32))],
            ],
            seq![
                seq![ActionTag::BuyCows],
            ],
        ]
    } else if num == 5 {
        seq![
            seq![
                seq![ActionTag::DiscardCard(DiscardCardOpts::PairCow), ActionTag::TakeCoins(ActionValues::Exact(4i32))],
            ],
            seq![
                seq![ActionTag::TakeCoins(ActionValues::Exact(-7i32)), ActionTag::TakeHazard],
            ],
        ]
    } else {
        seq![
            seq![
                seq![ActionTag::MoveEngine(ActionValues::EmployeeMult(Employee::Engineer, 1i32))],
            ],
            seq![
                seq![ActionTag::DoubleAuxiliary],
            ],
        ]
    }
}

/// The menus of the ten player buildings on their first side, by number.
pub open spec fn player_menu_a(num: u32) -> Seq<Seq<Seq<ActionTag>>> {
    if num == 0 {
        seq![
            seq![
                seq![ActionTag::TakeCoins(ActionValues::ForestMult(2i32))],
            ],
        ]
    } else if num == 1 {
        seq![
            seq![
                seq![ActionTag::DiscardCard(DiscardCardOpts::Color(CowColor::Guernsey)), ActionTag::TakeCoins(ActionValues::Exact(4i32))],
            ],
            seq![
                seq![ActionTag::BuyCows],
            ],
        ]
    } else if num == 2 {
        seq![
            seq![
                seq![ActionTag::DiscardCard(DiscardCardOpts::PairCow), ActionTag::TakeCoins(ActionValues::Exact(3i32))],
            ],
            seq![
                seq![ActionTag::MoveCattleman(ActionValues::Exact(1i32))],
            ],
        ]
    } else if num == 3 {
        seq![
            seq![
                seq![ActionTag::TakeCoins(ActionValues::Exact(-5i32)), ActionTag::TakeHazard],
            ],
            seq![
                seq![ActionTag::MoveCattleman(ActionValues::Exact(2i32))],
            ],
        ]
    } else if num == 4 {
        seq![
            seq![
                seq![ActionTag::HireEmployee(ActionValues::Exact(1i32))],
            ],
            seq![
                seq![ActionTag::MoveEngine(ActionValues::EmployeeMult(Employee::Engineer, 1i32))],
            ],
        ]
    } else if num == 5 {
        seq![
            seq![
                seq![ActionTag::DiscardCard(DiscardCardOpts::Color(CowColor::Holstein)), ActionTag::TakeCoins(ActionValues::Exact(10i32))],
            ],
            seq![
                seq![ActionTag::DoubleAuxiliary],
            ],
        ]
    } else if num == 6 {
        seq![
            seq![
                seq![ActionTag::MoveCertificate(ActionValues::TepeePairMult(2i32)), ActionTag::TakeCoins(ActionValues::TepeePairMult(2i32))],
            ],
        ]
    } else if num == 7 {
        seq![
            seq![
                seq![ActionTag::TakeTepee],
                seq![ActionTag::DoubleAuxiliary],
            ],
            seq![
                seq![ActionTag::MoveEngine(ActionValues::Exact(2i32))],
            ],
        ]
    } else if num == 8 {
        seq![
            seq![
                seq![ActionTag::MoveEngine(ActionValues::Exact(3i32))],
            ],
            seq![
                seq![ActionTag::CityDiscMoveTrain],
            ],
        ]
    } else {
        seq![
            seq![
                seq![ActionTag::MoveCertificate(ActionValues::Max)],
            ],
            seq![
                seq![ActionTag::MoveCattleman(ActionValues::Exact(5i32))],
            ],
        ]
    }
}

/// The menus of the ten player buildings on their second side, by number.
pub open spec fn player_menu_b(num: u32) -> Seq<Seq<Seq<ActionTag>>> {
    if num == 0 {
        seq![
            seq![
                seq![ActionTag::DiscardCard(DiscardCardOpts::Objective), ActionTag::MoveCertificate(ActionValues::Exact(2i32))],
            ],
            seq![
                seq![ActionTag::MoveEngine(ActionValues::Exact(-1i32)), ActionTag::TakeCoins(ActionValues::Exact(3i32))],
            ],
        ]
    } else if num == 1 {
        seq![
            seq![
                seq![ActionTag::DiscardCard(DiscardCardOpts::Color(CowColor::Jersey)), ActionTag::MoveEngine(ActionValues::Exact(1i32))],
            ],
            seq![
                seq![ActionTag::DiscardCard(DiscardCardOpts::Color(CowColor::Dutch)), ActionTag::TakeCoins(ActionValues::Exact(3i32))],
            ],
        ]
    } else if num == 2 {
        seq![
            seq![
                seq![ActionTag::DoubleAuxiliary],
            ],
            seq![
                seq![ActionTag::MoveCattleman(ActionValues::Exact(1i32))],
            ],
        ]
    } else if num == 3 {
        seq![
            seq![
                seq![ActionTag::DrawCards(ActionValues::EmployeeMult(Employee::Cowboy, 1i32))],
            ],
            seq![
                seq![ActionTag::MoveCattleman(ActionValues::Exact(3i32))],
            ],
        ]
    } else if num == 4 {
        seq![
            seq![
                seq![ActionTag::DiscardCard(DiscardCardOpts::Color(CowColor::Angus)), ActionTag::MoveCertificate(ActionValues::Exact(2i32))],
            ],
            seq![
                seq![ActionTag::TakeCoins(ActionValues::EmployeeMult(Employee::Engineer, 1i32))],
            ],
        ]
    } else if num == 5 {
        seq![
            seq![
                seq![ActionTag::DiscardCard(DiscardCardOpts::AnyCow), ActionTag::TakeCoins(ActionValues::Exact(3i32)), ActionTag::TakeObjective],
            ],
        ]
    } else if num == 6 {
        seq![
            seq![
                seq![ActionTag::MoveEngine(ActionValues::ForestMult(1i32))],
            ],
        ]
    } else if num == 7 {
        seq![
            seq![
                seq![ActionTag::AdjacentBuilding],
            ],
        ]
    } else if num == 8 {
        seq![
            seq![
                seq![ActionTag::StationDiscBehindTrain],
            ],
        ]
    } else {
        seq![
            seq![
                seq![ActionTag::TakeCoins(ActionValues::Exact(4i32))],
            ],
            seq![
                seq![ActionTag::MoveEngine(ActionValues::Exact(4i32))],
            ],
            seq![
                seq![ActionTag::MoveCattleman(ActionValues::Exact(4i32))],
            ],
        ]
    }
}

/// The toll of a player building.
pub open spec fn player_toll(num: u32, side_b: bool) -> Toll {
    if num == 0 {
        Toll::Green
    } else if num == 3 || num == 9 {
        Toll::Black
    } else if num == 6 {
        Toll::GreenBlack
    } else if num == 7 && !side_b {
        Toll::Green
    } else {
        Toll::NoToll
    }
}

/// The number of craftsmen that placing a player building takes.
pub open spec fn player_laborers(num: u32, side_b: bool) -> u32 {
    if num == 0 || num == 1 {
        1
    } else if num == 2 {
        if side_b { 2 } else { 1 }
    } else if num == 3 {
        2
    } else if num == 4 {
        3
    } else if num == 5 {
        4
    } else if num == 6 {
        5
    } else if num == 7 {
        if side_b { 6 } else { 5 }
    } else if num == 8 {
        if side_b { 6 } else { 7 }
    } else {
        if side_b { 8 } else { 9 }
    }
}

/// The points that a player building scores.
pub open spec fn player_points(num: u32, side_b: bool) -> u32 {
    if num == 0 || num == 1 {
        1
    } else if num == 2 {
        if side_b { 3 } else { 1 }
    } else if num == 3 {
        3
    } else if num == 4 {
        4
    } else if num == 5 {
        5
    } else if num == 6 {
        6
    } else if num == 7 {
        if side_b { 8 } else { 6 }
    } else if num == 8 {
        if side_b { 8 } else { 9 }
    } else {
        if side_b { 11 } else { 13 }
    }
}

/// A building: its owner, what placing it takes and scores, the toll it
/// asks, and its menu of up to three axes, each of up to two alternatives,
/// each a bundle of up to three tags.
#[derive(Copy, Clone, Eq, PartialEq, Debug)]
pub struct Building {
    owner: u32,
    laborers: u32,
    points: u32,
    toll: Toll,
    actions: Or<XOr<And<ActionTag, 3>, 2>, 3>,
}

impl Building {
    /// The seat of the player who owns the building.
    pub closed spec fn spec_owner(self) -> u32 {
        self.owner
    }

    /// The number of craftsmen that placing it takes.
    pub closed spec fn spec_laborers(self) -> u32 {
        self.laborers
    }

    /// The points it scores.
    pub closed spec fn spec_points(self) -> u32 {
        self.points
    }

    /// The toll it asks.
    pub closed spec fn spec_toll(self) -> Toll {
        self.toll
    }

    /// Its menu of actions.
    pub closed spec fn spec_actions(self) -> Or<XOr<And<ActionTag, 3>, 2>, 3> {
        self.actions
    }

    /// A building from its parts.
    pub fn new(
        owner: u32,
        laborers: u32,
        points: u32,
        toll: Toll,
        actions: Or<XOr<And<ActionTag, 3>, 2>, 3>,
    ) -> (r: Building)
        ensures
            r.spec_owner() == owner,
            r.spec_laborers() == laborers,
            r.spec_points() == points,
            r.spec_toll() == toll,
            r.spec_actions() == actions,
    {
        Building { owner, laborers, points, toll, actions }
    }

    /// The seat of the player who owns the building.
    pub fn owner(&self) -> (r: u32)
        ensures
            r == self.spec_owner(),
    {
        self.owner
    }

    /// The number of craftsmen that placing it takes.
    pub fn laborers(&self) -> (r: u32)
        ensures
            r == self.spec_laborers(),
    {
        self.laborers
    }

    /// The points it scores.
    pub fn points(&self) -> (r: u32)
        ensures
            r == self.spec_points(),
    {
        self.points
    }

    /// The toll it asks.
    pub fn toll(&self) -> (r: Toll)
        ensures
            r == self.spec_toll(),
    {
        self.toll
    }

    /// Its menu of actions.
    pub fn actions(&self) -> (r: Or<XOr<And<ActionTag, 3>, 2>, 3>)
        ensures
            r == self.spec_actions(),
    {
        self.actions
    }

    /// The bundle of tags that a player takes on by choosing the axis `axis`
    /// of the menu and on it the alternative `alternative`, both counted
    /// from 0. Fails where the menu has no such axis, or the axis no such
    /// alternative.
    pub fn bundle(&self, axis: usize, alternative: usize) -> (r: Result<
        And<ActionTag, 3>,
        LogicalError,
    >)
        ensures
            r is Ok <==> axis < menu_of(self.spec_actions()).len() && alternative < menu_of(
                self.spec_actions(),
            )[axis as int].len(),
            r matches Ok(tags) ==> tags.members() == menu_of(
                self.spec_actions(),
            )[axis as int][alternative as int],
            r matches Err(e) ==> e == LogicalError::InvalidIndex,
    {
        match self.actions.pick(axis) {
            Ok(alternatives) => alternatives.pick(alternative),
            Err(e) => Err(e),
        }
    }

    /// The neutral building of the number `num`, one of the seven from 0 to
    /// 6: it belongs to the first seat, takes and scores nothing and asks no toll.
    pub fn basicBuilding(num: u32) -> (r: Building)
        requires
            num < 7,
        ensures
            r.spec_owner() == 0,
            r.spec_laborers() == 0,
            r.spec_points() == 0,
            r.spec_toll() == Toll::NoToll,
            menu_of(r.spec_actions()) == basic_menu(num),
            menu_packed(r.spec_actions()),
    {
        let actions = match num {
            0 => axes3(
                one_of1(
                    bundle2(ActionTag::DiscardCard(DiscardCardOpts::Color(CowColor::Guernsey)), ActionTag::TakeCoins(ActionValues::Exact(2))),
                ),
                one_of1(
                    bundle1(ActionTag::HireEmployee(ActionValues::Exact(0))),
                ),
                one_of1(
                    bundle1(ActionTag::HireEmployee(ActionValues::Exact(-2))),
                ),
            ),
            1 => axes2(
                one_of1(
                    bundle2(ActionTag::DiscardCard(DiscardCardOpts::Color(CowColor::Dutch)), ActionTag::TakeCoins(ActionValues::Exact(2))),
                ),
                one_of1(
                    bundle1(ActionTag::PlaceBuilding(ActionValues::EmployeeMult(Employee::Craftsman, -2))),
                ),
            ),
            2 => axes2(
                one_of2(
                    bundle1(ActionTag::MoveCertificate(ActionValues::Exact(1))),
                    bundle1(ActionTag::TakeObjective),
                ),
                one_of1(
                    bundle1(ActionTag::MoveEngine(ActionValues::EmployeeMult(Employee::Engineer, 1))),
                ),
            ),
            3 => axes2(
                one_of2(
                    bundle1(ActionTag::TakeTepee),
                    bundle2(ActionTag::TakeCoins(ActionValues::Exact(-2)), ActionTag::MoveEngine(ActionValues::Exact(2))),
                ),
                one_of1(
                    bundle1(ActionTag::DoubleAuxiliary),
                ),
            ),
            4 => axes2(
                one_of1(
                    bundle2(ActionTag::DiscardCard(DiscardCardOpts::Color(CowColor::Angus)), ActionTag::TakeCoins(ActionValues::Exact(2))),
                ),
                one_of1(
                    bundle1(ActionTag::BuyCows),
                ),
            ),
            5 => axes2(
                one_of1(
                    bundle2(ActionTag::DiscardCard(DiscardCardOpts::PairCow), ActionTag::TakeCoins(ActionValues::Exact(4))),
                ),
                one_of1(
                    bundle2(ActionTag::TakeCoins(ActionValues::Exact(-7)), ActionTag::TakeHazard),
                ),
            ),
            _ => axes2(
                one_of1(
                    bundle1(ActionTag::MoveEngine(ActionValues::EmployeeMult(Employee::Engineer, 1))),
                ),
                one_of1(
                    bundle1(ActionTag::DoubleAuxiliary),
                ),
            ),
        };
        Building { owner: 0, laborers: 0, points: 0, toll: Toll::NoToll, actions }
    }

    /// The player building of the number `num`, one of the ten from 0 to 9,
    /// on its first side or, with `side_b`, on its second.
    pub fn playerBuilding(num: u32, side_b: bool) -> (r: Building)
        requires
            num < 10,
        ensures
            r.spec_owner() == 0,
            r.spec_laborers() == player_laborers(num, side_b),
            r.spec_points() == player_points(num, side_b),
            r.spec_toll() == player_toll(num, side_b),
            menu_of(r.spec_actions()) == if side_b {
                player_menu_b(num)
            } else {
                player_menu_a(num)
            },
            menu_packed(r.spec_actions()),
    {
        let actions = if !side_b {
            match num {
                0 => axes1(
                    one_of1(
                        bundle1(ActionTag::TakeCoins(ActionValues::ForestMult(2))),
                    ),
                ),
                1 => axes2(
                    one_of1(
                        bundle2(ActionTag::DiscardCard(DiscardCardOpts::Color(CowColor::Guernsey)), ActionTag::TakeCoins(ActionValues::Exact(4))),
                    ),
                    one_of1(
                        bundle1(ActionTag::BuyCows),
                    ),
                ),
                2 => axes2(
                    one_of1(
                        bundle2(ActionTag::DiscardCard(DiscardCardOpts::PairCow), ActionTag::TakeCoins(ActionValues::Exact(3))),
                    ),
                    one_of1(
                        bundle1(ActionTag::MoveCattleman(ActionValues::Exact(1))),
                    ),
                ),
                3 => axes2(
                    one_of1(
                        bundle2(ActionTag::TakeCoins(ActionValues::Exact(-5)), ActionTag::TakeHazard),
                    ),
                    one_of1(
                        bundle1(ActionTag::MoveCattleman(ActionValues::Exact(2))),
                    ),
                ),
                4 => axes2(
                    one_of1(
                        bundle1(ActionTag::HireEmployee(ActionValues::Exact(1))),
                    ),
                    one_of1(
                        bundle1(ActionTag::MoveEngine(ActionValues::EmployeeMult(Employee::Engineer, 1))),
                    ),
                ),
                5 => axes2(
                    one_of1(
                        bundle2(ActionTag::DiscardCard(DiscardCardOpts::Color(CowColor::Holstein)), ActionTag::TakeCoins(ActionValues::Exact(10))),
                    ),
                    one_of1(
                        bundle1(ActionTag::DoubleAuxiliary),
                    ),
                ),
                6 => axes1(
                    one_of1(
                        bundle2(ActionTag::MoveCertificate(ActionValues::TepeePairMult(2)), ActionTag::TakeCoins(ActionValues::TepeePairMult(2))),
                    ),
                ),
                7 => axes2(
                    one_of2(
                        bundle1(ActionTag::TakeTepee),
                        bundle1(ActionTag::DoubleAuxiliary),
                    ),
                    one_of1(
                        bundle1(ActionTag::MoveEngine(ActionValues::Exact(2))),
                    ),
                ),
                8 => axes2(
                    one_of1(
                        bundle1(ActionTag::MoveEngine(ActionValues::Exact(3))),
                    ),
                    one_of1(
                        bundle1(ActionTag::CityDiscMoveTrain),
                    ),
                ),
                _ => axes2(
                    one_of1(
                        bundle1(ActionTag::MoveCertificate(ActionValues::Max)),
                    ),
                    one_of1(
                        bundle1(ActionTag::MoveCattleman(ActionValues::Exact(5))),
                    ),
                ),
            }
        } else {
            match num {
                0 => axes2(
                    one_of1(
                        bundle2(ActionTag::DiscardCard(DiscardCardOpts::Objective), ActionTag::MoveCertificate(ActionValues::Exact(2))),
                    ),
                    one_of1(
                        bundle2(ActionTag::MoveEngine(ActionValues::Exact(-1)), ActionTag::TakeCoins(ActionValues::Exact(3))),
                    ),
                ),
                1 => axes2(
                    one_of1(
                        bundle2(ActionTag::DiscardCard(DiscardCardOpts::Color(CowColor::Jersey)), ActionTag::MoveEngine(ActionValues::Exact(1))),
                    ),
                    one_of1(
                        bundle2(ActionTag::DiscardCard(DiscardCardOpts::Color(CowColor::Dutch)), ActionTag::TakeCoins(ActionValues::Exact(3))),
                    ),
                ),
                2 => axes2(
                    one_of1(
                        bundle1(ActionTag::DoubleAuxiliary),
                    ),
                    one_of1(
                        bundle1(ActionTag::MoveCattleman(ActionValues::Exact(1))),
                    ),
                ),
                3 => axes2(
                    one_of1(
                        bundle1(ActionTag::DrawCards(ActionValues::EmployeeMult(Employee::Cowboy, 1))),
                    ),
                    one_of1(
                        bundle1(ActionTag::MoveCattleman(ActionValues::Exact(3))),
                    ),
                ),
                4 => axes2(
                    one_of1(
                        bundle2(ActionTag::DiscardCard(DiscardCardOpts::Color(CowColor::Angus)), ActionTag::MoveCertificate(ActionValues::Exact(2))),
                    ),
                    one_of1(
                        bundle1(ActionTag::TakeCoins(ActionValues::EmployeeMult(Employee::Engineer, 1))),
                    ),
                ),
                5 => axes1(
                    one_of1(
                        bundle3(ActionTag::DiscardCard(DiscardCardOpts::AnyCow), ActionTag::TakeCoins(ActionValues::Exact(3)), ActionTag::TakeObjective),
                    ),
                ),
                6 => axes1(
                    one_of1(
                        bundle1(ActionTag::MoveEngine(ActionValues::ForestMult(1))),
                    ),
                ),
                7 => axes1(
                    one_of1(
                        bundle1(ActionTag::AdjacentBuilding),
                    ),
                ),
                8 => axes1(
                    one_of1(
                        bundle1(ActionTag::StationDiscBehindTrain),
                    ),
                ),
                _ => axes3(
                    one_of1(
                        bundle1(ActionTag::TakeCoins(ActionValues::Exact(4))),
                    ),
                    one_of1(
                        bundle1(ActionTag::MoveEngine(ActionValues::Exact(4))),
                    ),
                    one_of1(
                        bundle1(ActionTag::MoveCattleman(ActionValues::Exact(4))),
                    ),
                ),
            }
        };
        let toll = match num {
            0 => Toll::Green,
            3 => Toll::Black,
            6 => Toll::GreenBlack,
            7 => if !side_b {
                Toll::Green
            } else {
                Toll::NoToll
            },
            9 => Toll::Black,
            _ => Toll::NoToll,
        };
        let laborers: u32 = match num {
            0 => 1,
            1 => 1,
            2 => if !side_b { 1 } else { 2 },
            3 => 2,
            4 => 3,
            5 => 4,
            6 => 5,
            7 => if !side_b { 5 } else { 6 },
            8 => if !side_b { 7 } else { 6 },
            _ => if !side_b { 9 } else { 8 },
        };
        let points: u32 = match num {
            0 => 1,
            1 => 1,
            2 => if !side_b { 1 } else { 3 },
            3 => 3,
            4 => 4,
            5 => 5,
            6 => 6,
            7 => if !side_b { 6 } else { 8 },
            8 => if !side_b { 9 } else { 8 },
            _ => if !side_b { 13 } else { 11 },
        };
        Building { owner: 0, laborers, points, toll, actions }
    }
}

} // verus!
