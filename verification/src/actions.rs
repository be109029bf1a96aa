//! What a player can be asked to do: action tags and the rules that give an
//! action its magnitude.
use vstd::prelude::*;
use crate::buildings::{Building, Hazard, Tepee};
use crate::deck::{Card, Cow, CowColor, Objective};
use crate::player::Employee;

verus! {

/// A fully chosen action, with the concrete values it is applied with.
#[derive(Copy, Clone, Eq, PartialEq, Debug)]
pub enum Action {
    PayCoins(i32),
    BuyCow(Cow),
    Buy2Cows(Cow, Cow),
    SellCow(Cow),
    SellCowPair(Cow, Cow),
    SellHand,
    FillHand,
    DrawCards(Option<u32>),
    DiscardCards(Option<u32>),
    TrashCard(Option<Card>),
    MoveCattleman(Option<i32>),
    MoveEngine(Option<i32>),
    MoveCertificate(Option<i32>),
    MaxCertificate,
    TakeTepee(Option<Tepee>),
    TakeHazard(Option<Hazard>),
    TakeObjective(Option<Objective>),
    TakeStationmaster(Option<Employee>),
    RemoveDisc(Option<u32>),
    PlaceDisc(Option<u32>),
    HireEmployee(Option<Employee>),
    PlaceBuilding(Option<u32>, Option<Building>),
    Auxiliary1,
    Auxiliary2,
}

/// Which card a discard action accepts.
#[derive(Copy, Clone, Eq, PartialEq, Debug, Structural)]
pub enum DiscardCardOpts {
    AnyCow,
    Color(CowColor),
    PairCow,
    Objective,
}

/// How the magnitude of an action is found.
#[derive(Copy, Clone, Eq, PartialEq, Debug, Structural)]
pub enum ActionValues {
    /// A fixed amount.
    Exact(i32),
    /// The factor times the number of hired employees of one kind.
    EmployeeMult(Employee, i32),
    /// The factor times the number of hired employees of any kind.
    AllEmployeesMult(i32),
    /// The factor times the number of the player's buildings in the forest.
    ForestMult(i32),
    /// The factor times the number of green-blue tepee pairs.
    TepeePairMult(i32),
    /// The factor times the number of hazard pairs.
    HazardPairMult(i32),
    /// The factor times the number of certificate pairs.
    CertificatePairMult(i32),
    /// The factor times the number of objective pairs.
    ObjectivePairMult(i32),
    /// Any amount between nothing and the bound, at the player's choice.
    AtMost(i32),
    /// The largest amount that is currently legal.
    Max,
}

/// What the magnitude of an action is read from: the acting player's hired
/// employees by kind, buildings in the forest and pairs held, and the largest
/// amount that the rules allow at the moment.
#[derive(Copy, Clone, Eq, PartialEq, Debug, Structural)]
pub struct ValueSnapshot {
    pub cowboys: u32,
    pub craftsmen: u32,
    pub engineers: u32,
    pub forest_buildings: u32,
    pub tepee_pairs: u32,
    pub hazard_pairs: u32,
    pub certificate_pairs: u32,
    pub objective_pairs: u32,
    pub largest_legal: i32,
}

impl ValueSnapshot {
    /// The number of hired employees of one kind.
    pub open spec fn hired(self, kind: Employee) -> int {
        match kind {
            Employee::Cowboy => self.cowboys as int,
            Employee::Craftsman => self.craftsmen as int,
            Employee::Engineer => self.engineers as int,
        }
    }

    /// The number of hired employees of all kinds together.
    pub open spec fn all_hired(self) -> int {
        self.cowboys + self.craftsmen + self.engineers
    }
}

/// The magnitude of an action: a settled amount, or a bound up to which the
/// player chooses.
#[derive(Copy, Clone, Eq, PartialEq, Debug, Structural)]
pub enum Quantity {
    /// This amount and no other.
    Exactly(i128),
    /// Any amount between nothing and the bound, the bound included; a bound
    /// below nothing leaves the amounts from the bound up to nothing.
    UpTo(i32),
}

impl Quantity {
    /// Whether `amount` is one that the quantity allows.
    pub open spec fn allows(self, amount: int) -> bool {
        match self {
            Quantity::Exactly(settled) => amount == settled,
            Quantity::UpTo(bound) => if bound >= 0 {
                0 <= amount <= bound
            } else {
                bound <= amount <= 0
            },
        }
    }

    /// Whether `amount` is one that the quantity allows.
    pub fn admits(&self, amount: i128) -> (r: bool)
        ensures
            r == self.allows(amount as int),
    {
        match *self {
            Quantity::Exactly(settled) => amount == settled,
            Quantity::UpTo(bound) => if bound >= 0 {
                0 <= amount && amount <= bound as i128
            } else {
                bound as i128 <= amount && amount <= 0
            },
        }
    }
}

impl ActionValues {
    /// The amount that the rule settles against `snapshot`: the fixed amount,
    /// the factor times the count that the rule names, or the largest legal
    /// amount. A free choice settles nothing; for it this is the bound.
    pub open spec fn amount(self, snapshot: ValueSnapshot) -> int {
        match self {
            ActionValues::Exact(amount) => amount as int,
            ActionValues::EmployeeMult(kind, factor) => factor * snapshot.hired(kind),
            ActionValues::AllEmployeesMult(factor) => factor * snapshot.all_hired(),
            ActionValues::ForestMult(factor) => factor * snapshot.forest_buildings,
            ActionValues::TepeePairMult(factor) => factor * snapshot.tepee_pairs,
            ActionValues::HazardPairMult(factor) => factor * snapshot.hazard_pairs,
            ActionValues::CertificatePairMult(factor) => factor * snapshot.certificate_pairs,
            ActionValues::ObjectivePairMult(factor) => factor * snapshot.objective_pairs,
            ActionValues::AtMost(bound) => bound as int,
            ActionValues::Max => snapshot.largest_legal as int,
        }
    }

    /// The magnitude that the rule gives against `snapshot`: for a free
    /// choice the bound of the choice, and else the amount that it settles.
    pub fn resolve(&self, snapshot: &ValueSnapshot) -> (r: Quantity)
        ensures
            *self is AtMost ==> r == Quantity::UpTo(self->AtMost_0),
            !(*self is AtMost) ==> (r matches Quantity::Exactly(settled) && settled
                == self.amount(*snapshot)),
    {
        match *self {
            ActionValues::Exact(amount) => Quantity::Exactly(amount as i128),
            ActionValues::EmployeeMult(kind, factor) => {
                let count = match kind {
                    Employee::Cowboy => snapshot.cowboys,
                    Employee::Craftsman => snapshot.craftsmen,
                    Employee::Engineer => snapshot.engineers,
                };
                Quantity::Exactly(times(factor, count as u64))
            },
            ActionValues::AllEmployeesMult(factor) => {
                let count = snapshot.cowboys as u64 + snapshot.craftsmen as u64
                    + snapshot.engineers as u64;
                Quantity::Exactly(times(factor, count))
            },
            ActionValues::ForestMult(factor) => Quantity::Exactly(
                times(factor, snapshot.forest_buildings as u64),
            ),
            ActionValues::TepeePairMult(factor) => Quantity::Exactly(
                times(factor, snapshot.tepee_pairs as u64),
            ),
            ActionValues::HazardPairMult(factor) => Quantity::Exactly(
                times(factor, snapshot.hazard_pairs as u64),
            ),
            ActionValues::CertificatePairMult(factor) => Quantity::Exactly(
                times(factor, snapshot.certificate_pairs as u64),
            ),
            ActionValues::ObjectivePairMult(factor) => Quantity::Exactly(
                times(factor, snapshot.objective_pairs as u64),
            ),
            ActionValues::AtMost(bound) => Quantity::UpTo(bound),
            ActionValues::Max => Quantity::Exactly(snapshot.largest_legal as i128),
        }
    }
}

fn times(factor: i32, count: u64) -> (r: i128)
    ensures
        r == factor * count,
{
    assert(-0x8000_0000 * 0x1_0000_0000_0000_0000 <= factor * count <= 0x8000_0000
        * 0x1_0000_0000_0000_0000) by (nonlinear_arith)
        requires
            -0x8000_0000 <= factor <= 0x8000_0000,
            0 <= count <= 0x1_0000_0000_0000_0000,
    ;
    factor as i128 * count as i128
}

/// One effect that a location or a card offers.
#[derive(Copy, Clone, Eq, PartialEq, Debug, Structural)]
pub enum ActionTag {
    TakeCoins(ActionValues),
    BuyCows,
    DiscardCard(DiscardCardOpts),
    DrawCards(ActionValues),
    TrashCard,
    MoveCattleman(ActionValues),
    TeleportCattleman(ActionValues),
    MoveEngine(ActionValues),
    MoveCertificate(ActionValues),
    TakeTepee,
    TakeHazard,
    TakeObjective,
    PlaceDisc(ActionValues),
    HireEmployee(ActionValues),
    PlaceBuilding(ActionValues),
    CityDiscMoveTrain,
    StationDiscBehindTrain,
    AdjacentBuilding,
    Auxiliary,
    DoubleAuxiliary,
}

} // verus!
