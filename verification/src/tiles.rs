//! Tiles of the foresight spaces, and the job market.
use vstd::prelude::*;
use crate::buildings::{Hazard, HazardType, Tepee, Toll};
use crate::player::Employee;

verus! {

/// A tile that can lie on a foresight space.
#[derive(Copy, Clone, Eq, PartialEq, Debug, Structural)]
pub enum Tile {
    EmployeeTile(Employee),
    HazardTile(Hazard),
    TepeeTile(Tepee),
    BlankTile,
}

/// `count` tiles, all of them `tile`.
pub open spec fn copies_of(tile: Tile, count: nat) -> Seq<Tile> {
    Seq::new(count, |i: int| tile)
}

/// The four hazard tiles of one stretch of trail: two green ones worth 4,
/// then a green and a black one worth 2.
pub open spec fn hazard_tiles(area: HazardType) -> Seq<Tile> {
    seq![
        Tile::HazardTile(Hazard::of(area, Toll::Green, 4)),
        Tile::HazardTile(Hazard::of(area, Toll::Green, 4)),
        Tile::HazardTile(Hazard::of(area, Toll::Green, 2)),
        Tile::HazardTile(Hazard::of(area, Toll::Black, 2)),
    ]
}

/// The first pile: tepees and hazards.
pub open spec fn toll_pile() -> Seq<Tile> {
    copies_of(Tile::TepeeTile(Tepee::Blue), 8) + copies_of(Tile::TepeeTile(Tepee::Green), 9)
        + hazard_tiles(HazardType::Flood) + hazard_tiles(HazardType::Drought) + hazard_tiles(
        HazardType::Rockfall,
    )
}

/// The second pile: eleven employees of each kind.
pub open spec fn employee_pile() -> Seq<Tile> {
    copies_of(Tile::EmployeeTile(Employee::Engineer), 11) + copies_of(
        Tile::EmployeeTile(Employee::Cowboy),
        11,
    ) + copies_of(Tile::EmployeeTile(Employee::Craftsman), 11)
}

/// The third pile: seven employees of each kind, and tepees.
pub open spec fn mixed_pile() -> Seq<Tile> {
    copies_of(Tile::EmployeeTile(Employee::Engineer), 7) + copies_of(
        Tile::EmployeeTile(Employee::Cowboy),
        7,
    ) + copies_of(Tile::EmployeeTile(Employee::Craftsman), 7) + copies_of(
        Tile::TepeeTile(Tepee::Green),
        2,
    ) + copies_of(Tile::TepeeTile(Tepee::Blue), 3)
}

/// The tile that comes off a pile, the last of it, or a blank one where the
/// pile is used up.
pub open spec fn top_of(pile: Seq<Tile>) -> Tile {
    if pile.len() > 0 {
        pile.last()
    } else {
        Tile::BlankTile
    }
}

/// The pile without its top.
pub open spec fn rest_of(pile: Seq<Tile>) -> Seq<Tile> {
    if pile.len() > 0 {
        pile.drop_last()
    } else {
        pile
    }
}

/// The foresight spaces as plain values: the three tiles on offer, the three
/// that come next, and the three piles that feed them, each pile's top last.
pub struct ForesightView {
    pub current: Seq<Tile>,
    pub next: Seq<Tile>,
    pub piles: Seq<Seq<Tile>>,
}

impl ForesightView {
    /// The spaces after the tiles on offer have been taken away: the next
    /// ones are on offer, and the top of each pile comes next.
    pub open spec fn advance(self) -> ForesightView {
        ForesightView {
            current: self.next,
            next: Seq::new(3, |i: int| top_of(self.piles[i])),
            piles: Seq::new(3, |i: int| rest_of(self.piles[i])),
        }
    }
}

/// The three foresight spaces with the piles that feed them.
#[derive(Clone, Eq, PartialEq, Debug)]
pub struct Foresight {
    current: [Tile; 3],
    next: [Tile; 3],
    piles: [Vec<Tile>; 3],
}

impl View for Foresight {
    type V = ForesightView;

    closed spec fn view(&self) -> ForesightView {
        ForesightView {
            current: self.current@,
            next: self.next@,
            piles: Seq::new(3, |i: int| self.piles@[i]@),
        }
    }
}

fn push_copies(pile: &mut Vec<Tile>, tile: Tile, count: usize)
    ensures
        final(pile)@ == old(pile)@ + copies_of(tile, count as nat),
{
    let mut i: usize = 0;
    assert(pile@ =~= old(pile)@ + copies_of(tile, 0));
    while i < count
        invariant
            i <= count,
            pile@ == old(pile)@ + copies_of(tile, i as nat),
        decreases count - i,
    {
        pile.push(tile);
        i += 1;
        assert(pile@ =~= old(pile)@ + copies_of(tile, i as nat));
    }
}

fn push_hazards(pile: &mut Vec<Tile>, area: HazardType)
    ensures
        final(pile)@ == old(pile)@ + hazard_tiles(area),
{
    pile.push(Tile::HazardTile(Hazard::new(area, Toll::Green, 4)));
    pile.push(Tile::HazardTile(Hazard::new(area, Toll::Green, 4)));
    pile.push(Tile::HazardTile(Hazard::new(area, Toll::Green, 2)));
    pile.push(Tile::HazardTile(Hazard::new(area, Toll::Black, 2)));
    assert(pile@ =~= old(pile)@ + hazard_tiles(area));
}

impl Foresight {
    /// The spaces at the start of a game: blank tiles on all six places, and
    /// the three full piles.
    pub fn new() -> (r: Foresight)
        ensures
            r@ == (ForesightView {
                current: copies_of(Tile::BlankTile, 3),
                next: copies_of(Tile::BlankTile, 3),
                piles: seq![toll_pile(), employee_pile(), mixed_pile()],
            }),
    {
        let r = Foresight {
            current: [Tile::BlankTile;3],
            next: [Tile::BlankTile;3],
            piles: Foresight::defaultTilePiles(),
        };
        assert(r@.current =~= copies_of(Tile::BlankTile, 3));
        assert(r@.next =~= copies_of(Tile::BlankTile, 3));
        assert(r@.piles =~= seq![toll_pile(), employee_pile(), mixed_pile()]);
        r
    }

    /// Takes the three tiles on offer away and returns them. The next three
    /// are then on offer, and the top of each pile comes next, a blank tile
    /// where a pile is used up.
    pub fn nextTiles(&mut self) -> (removed: [Tile; 3])
        ensures
            removed@ == old(self)@.current,
            final(self)@ == old(self)@.advance(),
    {
        let removed = self.current;
        self.current = self.next;
        let mut i: usize = 0;
        while i < 3
            invariant
                i <= 3,
                self.current == old(self).next,
                forall|k: int| 0 <= k < i ==> self.next@[k] == top_of(#[trigger] old(self).piles@[k]@),
                forall|k: int|
                    0 <= k < i ==> self.piles@[k]@ == rest_of(#[trigger] old(self).piles@[k]@),
                forall|k: int| i <= k < 3 ==> self.piles@[k] == #[trigger] old(self).piles@[k],
            decreases 3 - i,
        {
            let tile = match self.piles[i].pop() {
                Some(tile) => tile,
                None => Tile::BlankTile,
            };
            self.next[i] = tile;
            i += 1;
        }
        assert(self@.next =~= old(self)@.advance().next);
        assert(self@.piles =~= old(self)@.advance().piles);
        removed
    }

    /// The three piles as they are at the start of a game.
    pub fn defaultTilePiles() -> (piles: [Vec<Tile>; 3])
        ensures
            piles@[0]@ == toll_pile(),
            piles@[1]@ == employee_pile(),
            piles@[2]@ == mixed_pile(),
    {
        let mut tolls: Vec<Tile> = Vec::new();
        push_copies(&mut tolls, Tile::TepeeTile(Tepee::Blue), 8);
        push_copies(&mut tolls, Tile::TepeeTile(Tepee::Green), 9);
        push_hazards(&mut tolls, HazardType::Flood);
        push_hazards(&mut tolls, HazardType::Drought);
        push_hazards(&mut tolls, HazardType::Rockfall);
        assert(tolls@ =~= toll_pile());
        let mut employees: Vec<Tile> = Vec::new();
        push_copies(&mut employees, Tile::EmployeeTile(Employee::Engineer), 11);
        push_copies(&mut employees, Tile::EmployeeTile(Employee::Cowboy), 11);
        push_copies(&mut employees, Tile::EmployeeTile(Employee::Craftsman), 11);
        assert(employees@ =~= employee_pile());
        let mut mix: Vec<Tile> = Vec::new();
        push_copies(&mut mix, Tile::EmployeeTile(Employee::Engineer), 7);
        push_copies(&mut mix, Tile::EmployeeTile(Employee::Cowboy), 7);
        push_copies(&mut mix, Tile::EmployeeTile(Employee::Craftsman), 7);
        push_copies(&mut mix, Tile::TepeeTile(Tepee::Green), 2);
        push_copies(&mut mix, Tile::TepeeTile(Tepee::Blue), 3);
        assert(mix@ =~= mixed_pile());
        [tolls, employees, mix]
    }
}

/// What taking a place in the job market sets off.
#[derive(Copy, Clone, Eq, PartialEq, Debug, Structural)]
pub enum JobMarketEvent {
    NoEvent,
    RefillCowMarket,
    FinalRound,
}

/// Why a hire failed.
#[derive(Copy, Clone, Eq, PartialEq, Debug, Structural)]
pub enum MarketError {
    /// No filled slot holds an employee of the kind at the salary.
    NoMatchingEmployee,
}

/// The salary of a slot that lies below the last row of the salary table:
/// more than any player ever holds.
pub const UNREACHABLE_SALARY: i32 = 1_000_000_000;

/// The job market as plain values: the slots in the order they were filled,
/// the salary of each row, the rows that refill the cow market when they are
/// completed, the row that starts the final round, and the width of a row.
pub struct MarketView {
    pub slots: Seq<Option<Employee>>,
    pub cost: Seq<i32>,
    pub refill_rows: Seq<usize>,
    pub final_row: nat,
    pub columns: nat,
}

impl MarketView {
    /// Whether the market has rows to fill: a row is at least one slot wide.
    pub open spec fn valid(self) -> bool {
        self.columns > 0
    }

    /// The salary of the slot at `slot`: that of its row, or one out of reach
    /// where the table has no such row.
    pub open spec fn salary(self, slot: int) -> int {
        let row = slot / self.columns as int;
        if row < self.cost.len() {
            self.cost[row] as int
        } else {
            UNREACHABLE_SALARY as int
        }
    }

    /// Whether the slot at `slot` is filled with an employee of `kind`.
    pub open spec fn holds(self, kind: Employee, slot: int) -> bool {
        0 <= slot < self.slots.len() && self.slots[slot] == Some(kind)
    }

    /// Whether the slot at `slot` is filled with an employee of `kind` at `salary`.
    pub open spec fn offers(self, kind: Employee, salary: int, slot: int) -> bool {
        self.holds(kind, slot) && self.salary(slot) == salary
    }

    /// Whether the slot at `slot` is the first that offers `kind` at `salary`.
    pub open spec fn first_offer(self, kind: Employee, salary: int, slot: int) -> bool {
        &&& self.offers(kind, salary, slot)
        &&& forall|earlier: int| 0 <= earlier < slot ==> !self.offers(kind, salary, earlier)
    }

    /// The number of filled slots that offer `kind` at `salary` among the
    /// first `upto` slots.
    pub open spec fn offers_below(self, kind: Employee, salary: int, upto: nat) -> nat
        decreases upto,
    {
        if upto == 0 {
            0
        } else {
            self.offers_below(kind, salary, (upto - 1) as nat) + if self.offers(
                kind,
                salary,
                upto - 1,
            ) {
                1nat
            } else {
                0nat
            }
        }
    }

    /// The event that the market sets off when its last slot has just been
    /// filled: where that slot completes a row, the refill of the cow market
    /// if the number of completed rows is one of the refill rows, else the
    /// final round if it is the final row; no event otherwise.
    pub open spec fn event(self) -> JobMarketEvent {
        let filled = self.slots.len() as int;
        let columns = self.columns as int;
        if filled % columns == 0 && self.refill_rows.contains((filled / columns) as usize) {
            JobMarketEvent::RefillCowMarket
        } else if filled % columns == 0 && filled / columns == self.final_row {
            JobMarketEvent::FinalRound
        } else {
            JobMarketEvent::NoEvent
        }
    }

    /// Whether `found` is the list of the salaries at which an employee of
    /// `kind` can be hired: pairs of a salary and the first slot that offers
    /// the kind at that salary, one pair for each salary at which a filled
    /// slot offers the kind, in ascending order of salary.
    pub open spec fn lists_offers(self, kind: Employee, found: Seq<(i32, usize)>) -> bool {
        &&& forall|i: int, j: int|
            0 <= i < j < found.len() ==> (#[trigger] found[i]).0 < (#[trigger] found[j]).0
        &&& forall|i: int|
            0 <= i < found.len() ==> self.first_offer(
                kind,
                (#[trigger] found[i]).0 as int,
                found[i].1 as int,
            )
        &&& forall|slot: int| #[trigger]
            self.holds(kind, slot) ==> exists|i: int|
                0 <= i < found.len() && (#[trigger] found[i]).0 == self.salary(slot)
    }

    /// The market after the slot at `slot` has been emptied.
    pub open spec fn vacate(self, slot: int) -> MarketView {
        MarketView { slots: self.slots.update(slot, None), ..self }
    }
}

/// Whether the numbers ascend strictly.
pub open spec fn ascending(numbers: Seq<int>) -> bool {
    forall|i: int, j: int| 0 <= i < j < numbers.len() ==> numbers[i] < numbers[j]
}

/// Two strictly ascending runs of the same numbers are the same run.
pub proof fn lemma_ascending_same(a: Seq<int>, b: Seq<int>)
    requires
        ascending(a),
        ascending(b),
        forall|x: int| a.contains(x) <==> b.contains(x),
    ensures
        a == b,
    decreases a.len(),
{
    if a.len() == 0 {
        if b.len() > 0 {
            assert(b.contains(b[0]));
        }
        assert(a =~= b);
    } else {
        let top = a.last();
        assert(a.contains(top));
        assert(b.contains(top));
        let at = b.index_of(top);
        assert(b.contains(b.last()));
        assert(a.contains(b.last()));
        let back = a.index_of(b.last());
        assert(b.last() == top);
        let front_a = a.drop_last();
        let front_b = b.drop_last();
        assert forall|x: int| front_a.contains(x) <==> front_b.contains(x) by {
            if front_a.contains(x) {
                let i = front_a.index_of(x);
                assert(a[i] == x);
                assert(a.contains(x));
                let j = b.index_of(x);
                assert(x < top);
                assert(front_b[j] == x);
            }
            if front_b.contains(x) {
                let j = front_b.index_of(x);
                assert(b[j] == x);
                assert(b.contains(x));
                let i = a.index_of(x);
                assert(x < top);
                assert(front_a[i] == x);
            }
        }
        lemma_ascending_same(front_a, front_b);
        assert(a =~= front_a.push(top));
        assert(b =~= front_b.push(top));
    }
}

/// The list of the salaries at which a kind can be hired names no salary
/// twice and no slot twice.
pub proof fn lemma_offers_listed_once(market: MarketView, kind: Employee, found: Seq<(i32, usize)>)
    requires
        market.lists_offers(kind, found),
    ensures
        forall|i: int, j: int|
            0 <= i < found.len() && 0 <= j < found.len() && i != j ==> (#[trigger] found[i]).0 != (
            #[trigger] found[j]).0 && found[i].1 != found[j].1,
{
    assert forall|i: int, j: int|
        0 <= i < found.len() && 0 <= j < found.len() && i != j implies (#[trigger] found[i]).0 != (
    #[trigger] found[j]).0 && found[i].1 != found[j].1 by {
        if i < j {
            assert(found[i].0 < found[j].0);
        } else {
            assert(found[j].0 < found[i].0);
        }
        assert(market.first_offer(kind, found[i].0 as int, found[i].1 as int));
        assert(market.first_offer(kind, found[j].0 as int, found[j].1 as int));
    }
}

/// A market has one list only of the salaries at which a kind can be hired.
pub proof fn lemma_offers_list_unique(
    market: MarketView,
    kind: Employee,
    a: Seq<(i32, usize)>,
    b: Seq<(i32, usize)>,
)
    requires
        market.lists_offers(kind, a),
        market.lists_offers(kind, b),
    ensures
        a == b,
{
    let salaries_a = Seq::new(a.len(), |i: int| a[i].0 as int);
    let salaries_b = Seq::new(b.len(), |i: int| b[i].0 as int);
    assert(ascending(salaries_a)) by {
        assert forall|i: int, j: int| 0 <= i < j < salaries_a.len() implies salaries_a[i]
            < salaries_a[j] by {
            assert(a[i].0 < a[j].0);
        }
    }
    assert(ascending(salaries_b)) by {
        assert forall|i: int, j: int| 0 <= i < j < salaries_b.len() implies salaries_b[i]
            < salaries_b[j] by {
            assert(b[i].0 < b[j].0);
        }
    }
    assert forall|x: int| salaries_a.contains(x) <==> salaries_b.contains(x) by {
        if salaries_a.contains(x) {
            let i = salaries_a.index_of(x);
            assert(market.first_offer(kind, a[i].0 as int, a[i].1 as int));
            assert(market.holds(kind, a[i].1 as int));
            let j = choose|j: int|
                0 <= j < b.len() && (#[trigger] b[j]).0 == market.salary(a[i].1 as int);
            assert(salaries_b[j] == x);
        }
        if salaries_b.contains(x) {
            let j = salaries_b.index_of(x);
            assert(market.first_offer(kind, b[j].0 as int, b[j].1 as int));
            assert(market.holds(kind, b[j].1 as int));
            let i = choose|i: int|
                0 <= i < a.len() && (#[trigger] a[i]).0 == market.salary(b[j].1 as int);
            assert(salaries_a[i] == x);
        }
    }
    lemma_ascending_same(salaries_a, salaries_b);
    assert(a.len() == b.len());
    assert forall|i: int| 0 <= i < a.len() implies a[i] == b[i] by {
        assert(salaries_a[i] == salaries_b[i]);
        assert(market.first_offer(kind, a[i].0 as int, a[i].1 as int));
        assert(market.first_offer(kind, b[i].0 as int, b[i].1 as int));
        let x = a[i].1 as int;
        let y = b[i].1 as int;
        if x < y {
            assert(!market.offers(kind, b[i].0 as int, x));
        } else if y < x {
            assert(!market.offers(kind, a[i].0 as int, y));
        }
    }
    assert(a =~= b);
}

/// Among the first slots of a market some slot offers a kind at a salary
/// exactly where the count of such offers is not nothing.
pub proof fn lemma_offers_counted(market: MarketView, kind: Employee, salary: int, upto: nat)
    ensures
        market.offers_below(kind, salary, upto) > 0 <==> exists|slot: int|
            0 <= slot < upto && #[trigger] market.offers(kind, salary, slot),
    decreases upto,
{
    if upto > 0 {
        lemma_offers_counted(market, kind, salary, (upto - 1) as nat);
        if market.offers_below(kind, salary, upto) > 0 {
            if market.offers(kind, salary, upto - 1) {
            } else {
                let slot = choose|slot: int|
                    0 <= slot < upto - 1 && #[trigger] market.offers(kind, salary, slot);
                assert(0 <= slot < upto && market.offers(kind, salary, slot));
            }
        }
        if exists|slot: int| 0 <= slot < upto && #[trigger] market.offers(kind, salary, slot) {
            let slot = choose|slot: int|
                0 <= slot < upto && #[trigger] market.offers(kind, salary, slot);
            if slot < upto - 1 {
                assert(0 <= slot < upto - 1 && market.offers(kind, salary, slot));
            }
        }
    }
}

/// Emptying a slot that offers a kind at a salary takes away one such offer
/// and no more: among the first slots of the market there is one fewer where
/// the slot is one of them, and as many as before where it is not.
pub proof fn lemma_vacate_takes_offer(
    market: MarketView,
    kind: Employee,
    salary: int,
    slot: int,
    upto: nat,
)
    requires
        market.offers(kind, salary, slot),
        upto <= market.slots.len(),
    ensures
        market.vacate(slot).offers_below(kind, salary, upto) == market.offers_below(
            kind,
            salary,
            upto,
        ) - if slot < upto {
            1int
        } else {
            0int
        },
    decreases upto,
{
    if upto > 0 {
        lemma_vacate_takes_offer(market, kind, salary, slot, (upto - 1) as nat);
        let after = market.vacate(slot);
        assert(after.salary(upto - 1) == market.salary(upto - 1));
        if slot == upto - 1 {
            assert(!after.offers(kind, salary, upto - 1));
        } else {
            assert(after.offers(kind, salary, upto - 1) == market.offers(kind, salary, upto - 1));
        }
    }
}

/// An employee can be hired once for each slot that offers one: a hire
/// empties a slot that offered the kind at the salary, so one offer fewer is
/// left, and where it was the only one no slot offers the kind at the salary
/// any more, and a second hire of the same kind at the same salary fails.
pub proof fn lemma_hire_uses_offer(market: MarketView, kind: Employee, salary: int, slot: int)
    requires
        market.first_offer(kind, salary, slot),
    ensures
        market.vacate(slot).offers_below(kind, salary, market.slots.len()) == market.offers_below(
            kind,
            salary,
            market.slots.len(),
        ) - 1,
        market.offers_below(kind, salary, market.slots.len()) == 1 ==> forall|other: int|
            !#[trigger] market.vacate(slot).offers(kind, salary, other),
{
    let after = market.vacate(slot);
    lemma_vacate_takes_offer(market, kind, salary, slot, market.slots.len());
    if market.offers_below(kind, salary, market.slots.len()) == 1 {
        lemma_offers_counted(after, kind, salary, after.slots.len());
        assert forall|other: int| !#[trigger] after.offers(kind, salary, other) by {
            if after.offers(kind, salary, other) {
                assert(0 <= other < after.slots.len());
            }
        }
    }
}

/// The number of slots that are filled.
pub open spec fn filled(slots: Seq<Option<Employee>>) -> nat
    decreases slots.len(),
{
    if slots.len() == 0 {
        0
    } else {
        filled(slots.drop_last()) + if slots.last() is Some {
            1nat
        } else {
            0nat
        }
    }
}

/// An employee who is added fills one slot more.
pub proof fn lemma_add_fills_one(slots: Seq<Option<Employee>>, kind: Employee)
    ensures
        filled(slots.push(Some(kind))) == filled(slots) + 1,
{
    assert(slots.push(Some(kind)).drop_last() =~= slots);
}

/// A hire leaves one filled slot fewer, and as many slots as before.
pub proof fn lemma_vacate_empties_one(market: MarketView, slot: int)
    requires
        0 <= slot < market.slots.len(),
        market.slots[slot] is Some,
    ensures
        filled(market.vacate(slot).slots) == filled(market.slots) - 1,
        market.vacate(slot).slots.len() == market.slots.len(),
    decreases market.slots.len(),
{
    let slots = market.slots;
    let after = market.vacate(slot).slots;
    if slot == slots.len() - 1 {
        assert(after.drop_last() =~= slots.drop_last());
    } else {
        let front = MarketView { slots: slots.drop_last(), ..market };
        lemma_vacate_empties_one(front, slot);
        assert(after.drop_last() =~= front.vacate(slot).slots);
    }
}

/// The salaries of the twelve rows of the market, first row first.
pub open spec fn default_row_salary() -> Seq<i32> {
    seq![6i32, 6i32, 7i32, 5i32, 7i32, 9i32, 6i32, 8i32, 10i32, 6i32, 5i32, 4i32]
}

/// The job market: slots that are filled one after the other, in rows as wide
/// as there are players.
#[derive(Clone, Eq, PartialEq, Debug)]
pub struct JobMarket {
    employees: Vec<Option<Employee>>,
    cost: [i32; 12],
    refresh_cow_market: Vec<usize>,
    game_end: usize,
    num_cols: usize,
}

impl View for JobMarket {
    type V = MarketView;

    closed spec fn view(&self) -> MarketView {
        MarketView {
            slots: self.employees@,
            cost: self.cost@,
            refill_rows: self.refresh_cow_market@,
            final_row: self.game_end as nat,
            columns: self.num_cols as nat,
        }
    }
}

impl JobMarket {
    /// An empty market for `num_players` players, of whom there is at least
    /// one: the cow market is refilled after rows 6 and 9, and the final
    /// round starts after row 12.
    pub fn new(num_players: usize) -> (market: JobMarket)
        requires
            num_players > 0,
        ensures
            market@ == (MarketView {
                slots: Seq::empty(),
                cost: default_row_salary(),
                refill_rows: seq![6usize, 9usize],
                final_row: 12,
                columns: num_players as nat,
            }),
    {
        let mut refresh_cow_market: Vec<usize> = Vec::new();
        refresh_cow_market.push(6);
        refresh_cow_market.push(9);
        let market = JobMarket {
            employees: Vec::new(),
            cost: JobMarket::defaultRowSalary(),
            refresh_cow_market,
            game_end: 12,
            num_cols: num_players,
        };
        assert(market@.refill_rows =~= seq![6usize, 9usize]);
        market
    }

    /// Fills the next slot with an employee of the kind `emp`, and says what
    /// that sets off.
    pub fn addEmployee(&mut self, emp: Employee) -> (event: JobMarketEvent)
        requires
            old(self)@.valid(),
        ensures
            final(self)@ == (MarketView { slots: old(self)@.slots.push(Some(emp)), ..old(self)@ }),
            event == final(self)@.event(),
    {
        self.employees.push(Some(emp));
        let filled = self.employees.len();
        let ghost after = self@;
        let mut i: usize = 0;
        while i < self.refresh_cow_market.len()
            invariant
                i <= self.refresh_cow_market.len(),
                self.num_cols > 0,
                self@ == after,
                after == (MarketView { slots: old(self)@.slots.push(Some(emp)), ..old(self)@ }),
                filled == self.employees.len(),
                forall|j: int|
                    0 <= j < i ==> !(filled % self.num_cols == 0 && filled / self.num_cols
                        == #[trigger] self.refresh_cow_market@[j]),
            decreases self.refresh_cow_market.len() - i,
        {
            if filled / self.num_cols == self.refresh_cow_market[i] && filled % self.num_cols == 0 {
                assert(self@.refill_rows[i as int] == (filled as int / self.num_cols as int) as usize);
                return JobMarketEvent::RefillCowMarket;
            }
            i += 1;
        }
        if filled / self.num_cols == self.game_end && filled % self.num_cols == 0 {
            return JobMarketEvent::FinalRound;
        }
        JobMarketEvent::NoEvent
    }

    /// Hires an employee of the kind `emp` at `salary`: the first slot that
    /// offers one is emptied. Fails, and changes nothing, where no slot does.
    pub fn hireEmployee(&mut self, emp: Employee, salary: i32) -> (r: Result<(), MarketError>)
        requires
            old(self)@.valid(),
        ensures
            r is Ok <==> exists|slot: int| old(self)@.offers(emp, salary as int, slot),
            r matches Err(e) ==> e == MarketError::NoMatchingEmployee && final(self)@ == old(
                self,
            )@,
            r is Ok ==> exists|slot: int|
                #![trigger old(self)@.vacate(slot)]
                old(self)@.first_offer(emp, salary as int, slot) && final(self)@ == old(
                    self,
                )@.vacate(slot),
    {
        let mut i: usize = 0;
        while i < self.employees.len()
            invariant
                i <= self.employees.len(),
                *self == *old(self),
                self@.valid(),
                forall|slot: int| 0 <= slot < i ==> !self@.offers(emp, salary as int, slot),
            decreases self.employees.len() - i,
        {
            if self.employees[i] == Some(emp) && self.salary(i) == salary {
                self.employees[i] = None;
                assert(old(self)@.first_offer(emp, salary as int, i as int));
                assert(self@ == old(self)@.vacate(i as int));
                return Ok(());
            }
            i += 1;
        }
        Err(MarketError::NoMatchingEmployee)
    }

    /// The salaries at which an employee of the kind `emp` can be hired, in
    /// ascending order, each with the first slot that offers the kind at it.
    /// However many slots share a salary, it is listed once.
    pub fn findEmployees(&self, emp: Employee) -> (found: Vec<(i32, usize)>)
        requires
            self@.valid(),
        ensures
            self@.lists_offers(emp, found@),
    {
        let mut found: Vec<(i32, usize)> = Vec::new();
        let mut i: usize = 0;
        while i < self.employees.len()
            invariant
                i <= self.employees.len(),
                self@.valid(),
                forall|a: int, b: int|
                    0 <= a < b < found@.len() ==> (#[trigger] found@[a]).0 < (
                    #[trigger] found@[b]).0,
                forall|a: int|
                    0 <= a < found@.len() ==> self@.first_offer(
                        emp,
                        (#[trigger] found@[a]).0 as int,
                        found@[a].1 as int,
                    ),
                forall|slot: int|
                    0 <= slot < i && #[trigger] self@.holds(emp, slot) ==> exists|a: int|
                        0 <= a < found@.len() && (#[trigger] found@[a]).0 == self@.salary(slot),
            decreases self.employees.len() - i,
        {
            if self.employees[i] == Some(emp) {
                let salary = self.salary(i);
                let mut at: usize = 0;
                while at < found.len() && found[at].0 < salary
                    invariant
                        at <= found@.len(),
                        forall|a: int| 0 <= a < at ==> (#[trigger] found@[a]).0 < salary,
                    decreases found@.len() - at,
                {
                    at += 1;
                }
                let ghost before = found@;
                if at < found.len() && found[at].0 == salary {
                    assert(before[at as int].0 == self@.salary(i as int));
                } else {
                    found.insert(at, (salary, i));
                    proof {
                        assert forall|a: int| 0 <= a < before.len() implies (
                        #[trigger] before[a]).0 != salary by {
                            if a >= at {
                                assert(before[at as int].0 <= before[a].0);
                            }
                        }
                        assert forall|earlier: int| 0 <= earlier < i implies !self@.offers(
                            emp,
                            salary as int,
                            earlier,
                        ) by {
                            if self@.offers(emp, salary as int, earlier) {
                                assert(self@.holds(emp, earlier));
                                let a = choose|a: int|
                                    0 <= a < before.len() && (#[trigger] before[a]).0
                                        == self@.salary(earlier);
                                assert(before[a].0 != salary);
                            }
                        }
                        assert(self@.first_offer(emp, salary as int, i as int));
                        assert forall|a: int, b: int| 0 <= a < b < found@.len() implies (
                        #[trigger] found@[a]).0 < (#[trigger] found@[b]).0 by {
                            if a < at && b > at {
                                assert(found@[a] == before[a]);
                                assert(found@[b] == before[b - 1]);
                                assert(before[at as int].0 <= before[b - 1].0);
                            } else if a < at && b < at {
                                assert(found@[a] == before[a] && found@[b] == before[b]);
                            } else if a > at {
                                assert(found@[a] == before[a - 1] && found@[b] == before[b - 1]);
                            } else if a == at {
                                assert(found@[b] == before[b - 1]);
                                assert(before[at as int].0 <= before[b - 1].0);
                            }
                        }
                        assert forall|a: int| 0 <= a < found@.len() implies self@.first_offer(
                            emp,
                            (#[trigger] found@[a]).0 as int,
                            found@[a].1 as int,
                        ) by {
                            if a < at {
                                assert(found@[a] == before[a]);
                            } else if a > at {
                                assert(found@[a] == before[a - 1]);
                            }
                        }
                        assert forall|slot: int|
                            0 <= slot < i && #[trigger] self@.holds(emp, slot) implies exists|
                            a: int,
                        |
                            0 <= a < found@.len() && (#[trigger] found@[a]).0 == self@.salary(
                                slot,
                            ) by {
                            let a = choose|a: int|
                                0 <= a < before.len() && (#[trigger] before[a]).0 == self@.salary(
                                    slot,
                                );
                            if a < at {
                                assert(found@[a] == before[a]);
                            } else {
                                assert(found@[a + 1] == before[a]);
                            }
                        }
                    }
                    assert(found@[at as int].0 == self@.salary(i as int));
                }
            }
            i += 1;
        }
        found
    }

    fn salary(&self, emp_idx: usize) -> (r: i32)
        requires
            self@.valid(),
        ensures
            r == self@.salary(emp_idx as int),
    {
        let idx = emp_idx / self.num_cols;
        if idx < 12 {
            self.cost[idx]
        } else {
            UNREACHABLE_SALARY
        }
    }

    fn defaultRowSalary() -> (cost: [i32; 12])
        ensures
            cost@ == default_row_salary(),
    {
        let cost = [6, 6, 7, 5, 7, 9, 6, 8, 10, 6, 5, 4];
        assert(cost@ =~= default_row_salary());
        cost
    }
}

} // verus!
