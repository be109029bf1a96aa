//! Cards and the deck of hand, draw pile and discard pile.
use rand::seq::SliceRandom;
use rand::thread_rng;
use rand::SeedableRng;
use rand_pcg::Pcg64;
use vstd::multiset::Multiset;
use vstd::prelude::*;
use crate::actions::ActionTag;
use crate::logical::{members_of, And};
use crate::player::ObjectiveResources;

verus! {

/// The breeds of cattle, in ascending order.
#[derive(Copy, Clone, Eq, PartialEq, Ord, PartialOrd, Debug, Structural)]
pub enum CowColor {
    Jersey,
    Dutch,
    Angus,
    Guernsey,
    Holstein,
    Swiss,
    Ayrshire,
    Highland,
    Longhorn,
}

impl CowColor {
    /// The place of the breed in the ascending order of breeds, from 0.
    pub open spec fn rank(self) -> nat {
        match self {
            CowColor::Jersey => 0,
            CowColor::Dutch => 1,
            CowColor::Angus => 2,
            CowColor::Guernsey => 3,
            CowColor::Holstein => 4,
            CowColor::Swiss => 5,
            CowColor::Ayrshire => 6,
            CowColor::Highland => 7,
            CowColor::Longhorn => 8,
        }
    }

    /// What a card of the breed is worth when it is sold from the hand.
    pub open spec fn worth(self) -> nat {
        match self {
            CowColor::Jersey => 1,
            CowColor::Dutch => 2,
            CowColor::Angus => 2,
            CowColor::Guernsey => 2,
            CowColor::Holstein => 3,
            CowColor::Swiss => 3,
            CowColor::Ayrshire => 3,
            CowColor::Highland => 4,
            CowColor::Longhorn => 5,
        }
    }

    /// The breed at a place of the ascending order.
    pub open spec fn at(rank: nat) -> CowColor {
        if rank == 0 {
            CowColor::Jersey
        } else if rank == 1 {
            CowColor::Dutch
        } else if rank == 2 {
            CowColor::Angus
        } else if rank == 3 {
            CowColor::Guernsey
        } else if rank == 4 {
            CowColor::Holstein
        } else if rank == 5 {
            CowColor::Swiss
        } else if rank == 6 {
            CowColor::Ayrshire
        } else if rank == 7 {
            CowColor::Highland
        } else {
            CowColor::Longhorn
        }
    }

    fn sale_value(&self) -> (r: u32)
        ensures
            r == self.worth(),
            r <= 5,
    {
        match *self {
            CowColor::Jersey => 1,
            CowColor::Dutch => 2,
            CowColor::Angus => 2,
            CowColor::Guernsey => 2,
            CowColor::Holstein => 3,
            CowColor::Swiss => 3,
            CowColor::Ayrshire => 3,
            CowColor::Highland => 4,
            CowColor::Longhorn => 5,
        }
    }

    fn index(&self) -> (r: usize)
        ensures
            r == self.rank(),
            r < 9,
            CowColor::at(r as nat) == *self,
    {
        match *self {
            CowColor::Jersey => 0,
            CowColor::Dutch => 1,
            CowColor::Angus => 2,
            CowColor::Guernsey => 3,
            CowColor::Holstein => 4,
            CowColor::Swiss => 5,
            CowColor::Ayrshire => 6,
            CowColor::Highland => 7,
            CowColor::Longhorn => 8,
        }
    }

    fn of_index(index: usize) -> (r: CowColor)
        requires
            index < 9,
        ensures
            r == CowColor::at(index as nat),
            r.rank() == index,
    {
        if index == 0 {
            CowColor::Jersey
        } else if index == 1 {
            CowColor::Dutch
        } else if index == 2 {
            CowColor::Angus
        } else if index == 3 {
            CowColor::Guernsey
        } else if index == 4 {
            CowColor::Holstein
        } else if index == 5 {
            CowColor::Swiss
        } else if index == 6 {
            CowColor::Ayrshire
        } else if index == 7 {
            CowColor::Highland
        } else {
            CowColor::Longhorn
        }
    }
}

/// A cattle card.
#[derive(Copy, Clone, Eq, PartialEq, Debug, Structural)]
pub struct Cow {
    color: CowColor,
    points: u32,
}

impl Cow {
    /// The breed of the card.
    pub closed spec fn spec_color(self) -> CowColor {
        self.color
    }

    /// The points the card scores at the end of the game.
    pub closed spec fn spec_points(self) -> u32 {
        self.points
    }

    /// The card of a breed with a score.
    pub closed spec fn of(color: CowColor, points: u32) -> Cow {
        Cow { color, points }
    }

    /// A card of a breed with a score.
    pub fn new(color: CowColor, points: u32) -> (r: Cow)
        ensures
            r == Cow::of(color, points),
            r.spec_color() == color,
            r.spec_points() == points,
    {
        Cow { color, points }
    }

    /// What the card is worth when it is sold from the hand: the worth of its
    /// breed.
    pub fn value(&self) -> (r: u32)
        ensures
            r == self.spec_color().worth(),
    {
        self.color.sale_value()
    }

    /// The breed of the card.
    pub fn color(&self) -> (r: CowColor)
        ensures
            r == self.spec_color(),
    {
        self.color
    }

    /// The points the card scores at the end of the game.
    pub fn points(&self) -> (r: u32)
        ensures
            r == self.spec_points(),
    {
        self.points
    }
}

/// The cow market as plain values: the deck that the markets are filled
/// from, and the three markets by the value of their cows.
pub struct CowMarketView {
    pub cow_deck: Seq<Cow>,
    pub ryb_market: Seq<Cow>,
    pub brown_market: Seq<Cow>,
    pub purple_market: Seq<Cow>,
}

/// The cow market.
#[derive(Clone, Eq, PartialEq, Debug)]
pub struct CowMarket {
    cow_deck: Vec<Cow>,
    ryb_market: Vec<Cow>,
    brown_market: Vec<Cow>,
    purple_market: Vec<Cow>,
}

impl View for CowMarket {
    type V = CowMarketView;

    closed spec fn view(&self) -> CowMarketView {
        CowMarketView {
            cow_deck: self.cow_deck@,
            ryb_market: self.ryb_market@,
            brown_market: self.brown_market@,
            purple_market: self.purple_market@,
        }
    }
}

/// The cow market at the start of a game: one Holstein worth three points to
/// fill from, and three empty markets.
pub open spec fn opening_cow_market() -> CowMarketView {
    CowMarketView {
        cow_deck: seq![Cow::of(CowColor::Holstein, 3)],
        ryb_market: Seq::empty(),
        brown_market: Seq::empty(),
        purple_market: Seq::empty(),
    }
}

impl CowMarket {
    /// The cow market at the start of a game.
    pub fn new() -> (market: CowMarket)
        ensures
            market@ == opening_cow_market(),
    {
        let mut cow_deck: Vec<Cow> = Vec::new();
        cow_deck.push(Cow::new(CowColor::Holstein, 3));
        let market = CowMarket {
            cow_deck,
            ryb_market: Vec::new(),
            brown_market: Vec::new(),
            purple_market: Vec::new(),
        };
        market
    }
}

/// What an objective asks for.
#[derive(Copy, Clone, Eq, PartialEq, Debug, Structural)]
pub enum ObjectiveRequirements {
    Building,
    Hazard,
    SanFran,
    GreenTepee,
    BlueTepee,
    StationDisc,
    /// A cow of the given value: 3, 4 or 5.
    Cow(u32),
}

impl ObjectiveRequirements {
    /// Whether the requirement names something that a player can hold: every
    /// kind does, a cow only in the values 3, 4 and 5.
    pub open spec fn valid(self) -> bool {
        match self {
            ObjectiveRequirements::Cow(v) => 3 <= v <= 5,
            _ => true,
        }
    }

    /// Whether the requirement names something that a player can hold.
    pub fn isValid(&self) -> (r: bool)
        ensures
            r == self.valid(),
    {
        match *self {
            ObjectiveRequirements::Cow(v) => 3 <= v && v <= 5,
            _ => true,
        }
    }
}

/// How many of `reqs` ask for `kind`.
pub open spec fn demand(reqs: Seq<ObjectiveRequirements>, kind: ObjectiveRequirements) -> nat
    decreases reqs.len(),
{
    if reqs.len() == 0 {
        0
    } else {
        demand(reqs.drop_last(), kind) + if reqs.last() == kind {
            1nat
        } else {
            0nat
        }
    }
}

/// Whether every entry of `reqs` is valid.
pub open spec fn all_valid(reqs: Seq<ObjectiveRequirements>) -> bool {
    forall|i: int| 0 <= i < reqs.len() ==> (#[trigger] reqs[i]).valid()
}

/// The units of `kind` that `resources` holds; none of a kind that is not valid.
pub open spec fn available(resources: ObjectiveResources, kind: ObjectiveRequirements) -> nat {
    match kind {
        ObjectiveRequirements::Building => resources.buildings as nat,
        ObjectiveRequirements::Hazard => resources.hazards as nat,
        ObjectiveRequirements::SanFran => resources.san_fran as nat,
        ObjectiveRequirements::GreenTepee => resources.green_tepees as nat,
        ObjectiveRequirements::BlueTepee => resources.blue_tepees as nat,
        ObjectiveRequirements::StationDisc => resources.station_discs as nat,
        ObjectiveRequirements::Cow(v) => if v == 3 {
            resources.ryb_cows as nat
        } else if v == 4 {
            resources.brown_cows as nat
        } else if v == 5 {
            resources.purple_cows as nat
        } else {
            0
        },
    }
}

/// Whether `resources` covers all of `reqs` at once, one unit for each entry.
pub open spec fn covers(resources: ObjectiveResources, reqs: Seq<ObjectiveRequirements>) -> bool {
    forall|kind: ObjectiveRequirements| #[trigger] demand(reqs, kind) <= available(resources, kind)
}

/// What is left of `resources` once one unit is taken for each entry of `reqs`.
pub open spec fn remaining(
    resources: ObjectiveResources,
    reqs: Seq<ObjectiveRequirements>,
) -> ObjectiveResources {
    ObjectiveResources {
        buildings: (resources.buildings - demand(reqs, ObjectiveRequirements::Building)) as u32,
        hazards: (resources.hazards - demand(reqs, ObjectiveRequirements::Hazard)) as u32,
        san_fran: (resources.san_fran - demand(reqs, ObjectiveRequirements::SanFran)) as u32,
        green_tepees: (resources.green_tepees - demand(
            reqs,
            ObjectiveRequirements::GreenTepee,
        )) as u32,
        blue_tepees: (resources.blue_tepees - demand(reqs, ObjectiveRequirements::BlueTepee)) as u32,
        station_discs: (resources.station_discs - demand(
            reqs,
            ObjectiveRequirements::StationDisc,
        )) as u32,
        ryb_cows: (resources.ryb_cows - demand(reqs, ObjectiveRequirements::Cow(3))) as u32,
        brown_cows: (resources.brown_cows - demand(reqs, ObjectiveRequirements::Cow(4))) as u32,
        purple_cows: (resources.purple_cows - demand(reqs, ObjectiveRequirements::Cow(5))) as u32,
    }
}

/// Adding an entry raises the demand for its kind by one and no other.
pub proof fn lemma_demand_push(
    reqs: Seq<ObjectiveRequirements>,
    req: ObjectiveRequirements,
    kind: ObjectiveRequirements,
)
    ensures
        demand(reqs.push(req), kind) == demand(reqs, kind) + if req == kind {
            1nat
        } else {
            0nat
        },
{
    assert(reqs.push(req).drop_last() =~= reqs);
}

/// The reason an objective could not be built.
#[derive(Copy, Clone, Debug, PartialEq, Eq, Structural)]
pub enum ObjectiveError {
    /// More than four requirements were supplied.
    TooManyRequirements,
    /// A requirement asks for a cow of a value other than 3, 4 or 5.
    UnknownCowValue,
}

/// An objective card.
#[derive(Copy, Clone, Eq, PartialEq, Debug)]
pub struct Objective {
    immediate: Option<ActionTag>,
    success_pts: u32,
    fail_pts: u32,
    requirements: And<ObjectiveRequirements, 4>,
}

/// At any point of the slots, the entries met so far ask for no more than
/// all of them do.
proof fn lemma_demand_slots_prefix(
    slots: Seq<Option<ObjectiveRequirements>>,
    n: int,
    kind: ObjectiveRequirements,
)
    requires
        0 <= n <= slots.len(),
    ensures
        demand(members_of(slots.take(n)), kind) <= demand(members_of(slots), kind),
    decreases slots.len() - n,
{
    if n == slots.len() {
        assert(slots.take(n) =~= slots);
    } else {
        lemma_demand_slots_prefix(slots, n + 1, kind);
        assert(slots.take(n + 1).drop_last() =~= slots.take(n));
        if let Some(req) = slots[n] {
            lemma_demand_push(members_of(slots.take(n)), req, kind);
        }
    }
}

impl Objective {
    #[verifier::type_invariant]
    spec fn slots_valid(self) -> bool {
        forall|i: int|
            0 <= i < 4 ==> (#[trigger] self.requirements.items@[i] matches Some(req)
                ==> req.valid())
    }

    /// The reward taken when the card is played, if it has one.
    pub closed spec fn spec_immediate(self) -> Option<ActionTag> {
        self.immediate
    }

    /// The points scored when the objective is met.
    pub closed spec fn spec_success_pts(self) -> u32 {
        self.success_pts
    }

    /// The points lost when it is not.
    pub closed spec fn spec_fail_pts(self) -> u32 {
        self.fail_pts
    }

    /// What the objective asks for, in the listed order.
    pub closed spec fn spec_requirements(self) -> Seq<ObjectiveRequirements> {
        self.requirements.members()
    }

    /// Builds an objective card. At most four requirements fit on a card, and
    /// each of them has to be valid; anything else is refused.
    pub fn new(
        immediate: Option<ActionTag>,
        success_pts: u32,
        fail_pts: u32,
        requirements: &[ObjectiveRequirements],
    ) -> (r: Result<Objective, ObjectiveError>)
        ensures
            r is Ok <==> requirements@.len() <= 4 && all_valid(requirements@),
            r matches Err(e) ==> (e == ObjectiveError::TooManyRequirements
                <==> requirements@.len() > 4),
            r matches Ok(card) ==> {
                &&& card.spec_immediate() == immediate
                &&& card.spec_success_pts() == success_pts
                &&& card.spec_fail_pts() == fail_pts
                &&& card.spec_requirements() == requirements@
            },
    {
        let bundle = match And::<ObjectiveRequirements, 4>::new(requirements) {
            Ok(bundle) => bundle,
            Err(_) => {
                return Err(ObjectiveError::TooManyRequirements);
            },
        };
        let mut i: usize = 0;
        while i < requirements.len()
            invariant
                i <= requirements@.len() <= 4,
                forall|j: int| 0 <= j < i ==> (#[trigger] requirements@[j]).valid(),
            decreases requirements@.len() - i,
        {
            if !requirements[i].isValid() {
                return Err(ObjectiveError::UnknownCowValue);
            }
            i += 1;
        }
        Ok(Objective { immediate, success_pts, fail_pts, requirements: bundle })
    }

    /// The reward taken when the card is played, if it has one.
    pub fn immediate(&self) -> (r: Option<ActionTag>)
        ensures
            r == self.spec_immediate(),
    {
        self.immediate
    }

    /// The points scored when the objective is met.
    pub fn successPts(&self) -> (r: u32)
        ensures
            r == self.spec_success_pts(),
    {
        self.success_pts
    }

    /// The points lost when it is not.
    pub fn failPts(&self) -> (r: u32)
        ensures
            r == self.spec_fail_pts(),
    {
        self.fail_pts
    }

    /// What the objective asks for, as a bundle whose items are all valid.
    pub fn requirements(&self) -> (r: And<ObjectiveRequirements, 4>)
        ensures
            r.members() == self.spec_requirements(),
    {
        self.requirements
    }

    /// Matches the objective against `resources`: one unit is taken for each
    /// requirement, of the kind it asks for. Either all requirements are
    /// covered, and what is left of the resources is returned, or nothing is
    /// taken at all.
    pub fn meetsRequirements(&self, resources: ObjectiveResources) -> (r: Option<
        ObjectiveResources,
    >)
        ensures
            r is Some <==> covers(resources, self.spec_requirements()),
            r matches Some(left) ==> left == remaining(resources, self.spec_requirements()),
    {
        proof {
            use_type_invariant(self);
        }
        let ghost slots = self.requirements.items@;
        let mut left = resources;
        let mut i: usize = 0;
        while i < 4
            invariant
                i <= 4,
                slots == self.requirements.items@,
                slots.len() == 4,
                forall|j: int| 0 <= j < 4 ==> (#[trigger] slots[j] matches Some(req) ==> req.valid()),
                all_valid(members_of(slots.take(i as int))),
                covers(resources, members_of(slots.take(i as int))),
                left == remaining(resources, members_of(slots.take(i as int))),
            decreases 4 - i,
        {
            let ghost seen = members_of(slots.take(i as int));
            assert(slots.take(i + 1).drop_last() =~= slots.take(i as int));
            if let Some(req) = self.requirements.items[i] {
                proof {
                    assert forall|kind: ObjectiveRequirements|
                        demand(seen.push(req), kind) == demand(seen, kind) + if req == kind {
                            1nat
                        } else {
                            0nat
                        } by {
                        lemma_demand_push(seen, req, kind);
                    }
                    lemma_demand_slots_prefix(slots, i + 1, req);
                }
                let met = match req {
                    ObjectiveRequirements::Building => if left.buildings > 0 {
                        left.buildings -= 1;
                        true
                    } else {
                        false
                    },
                    ObjectiveRequirements::Hazard => if left.hazards > 0 {
                        left.hazards -= 1;
                        true
                    } else {
                        false
                    },
                    ObjectiveRequirements::SanFran => if left.san_fran > 0 {
                        left.san_fran -= 1;
                        true
                    } else {
                        false
                    },
                    ObjectiveRequirements::GreenTepee => if left.green_tepees > 0 {
                        left.green_tepees -= 1;
                        true
                    } else {
                        false
                    },
                    ObjectiveRequirements::BlueTepee => if left.blue_tepees > 0 {
                        left.blue_tepees -= 1;
                        true
                    } else {
                        false
                    },
                    ObjectiveRequirements::StationDisc => if left.station_discs > 0 {
                        left.station_discs -= 1;
                        true
                    } else {
                        false
                    },
                    ObjectiveRequirements::Cow(v) => if v == 3 {
                        if left.ryb_cows > 0 {
                            left.ryb_cows -= 1;
                            true
                        } else {
                            false
                        }
                    } else if v == 4 {
                        if left.brown_cows > 0 {
                            left.brown_cows -= 1;
                            true
                        } else {
                            false
                        }
                    } else {
                        if left.purple_cows > 0 {
                            left.purple_cows -= 1;
                            true
                        } else {
                            false
                        }
                    },
                };
                if !met {
                    return None;
                }
            }
            i += 1;
        }
        assert(slots.take(4) =~= slots);
        Some(left)
    }
}

/// A card of a player's deck.
#[derive(Copy, Clone, Eq, PartialEq, Debug)]
pub enum Card {
    CowCard(Cow),
    ObjectiveCard(Objective),
}

fn same_tag(a: Option<ActionTag>, b: Option<ActionTag>) -> (r: bool)
    ensures
        r == (a == b),
{
    match (a, b) {
        (None, None) => true,
        (Some(x), Some(y)) => x == y,
        _ => false,
    }
}

fn same_requirement(a: Option<ObjectiveRequirements>, b: Option<ObjectiveRequirements>) -> (r:
    bool)
    ensures
        r == (a == b),
{
    match (a, b) {
        (None, None) => true,
        (Some(x), Some(y)) => x == y,
        _ => false,
    }
}

impl Objective {
    /// Whether two objective cards are the same in every part.
    pub fn sameAs(&self, other: &Objective) -> (r: bool)
        ensures
            r == (*self == *other),
    {
        if !(same_tag(self.immediate, other.immediate) && self.success_pts == other.success_pts
            && self.fail_pts == other.fail_pts) {
            return false;
        }
        let mut i: usize = 0;
        while i < 4
            invariant
                i <= 4,
                forall|j: int|
                    0 <= j < i ==> self.requirements.items@[j] == other.requirements.items@[j],
            decreases 4 - i,
        {
            if !same_requirement(self.requirements.items[i], other.requirements.items[i]) {
                return false;
            }
            i += 1;
        }
        assert(self.requirements.items =~= other.requirements.items);
        true
    }
}

impl Card {
    /// Whether two cards are the same in every part.
    pub fn sameAs(&self, other: &Card) -> (r: bool)
        ensures
            r == (*self == *other),
    {
        match (self, other) {
            (Card::CowCard(a), Card::CowCard(b)) => *a == *b,
            (Card::ObjectiveCard(a), Card::ObjectiveCard(b)) => a.sameAs(b),
            _ => false,
        }
    }
}

/// Why an operation on a deck failed.
#[derive(Copy, Clone, Debug, PartialEq, Eq, Structural)]
pub enum DeckError {
    /// A card was to be drawn while draw pile and discard pile were both empty.
    DeckEmpty,
    /// The card to be trashed or played is not in the hand.
    CardNotInHand,
}

/// The generator of `rand_pcg` that a deck shuffles with. Nothing is known of
/// its state.
#[verifier::external_type_specification]
#[verifier::external_body]
pub struct ExPcg64(rand_pcg::Lcg128Xsl64);

/// `Clone::clone` of the generator, which copies its state: the copy is the
/// same generator, and from then on the two run apart.
pub assume_specification[ <rand_pcg::Lcg128Xsl64 as Clone>::clone ](
    generator: &rand_pcg::Lcg128Xsl64,
) -> (copy: rand_pcg::Lcg128Xsl64)
    ensures
        copy == *generator,
;

/// Makes a generator of the deck's own by `SeedableRng::from_rng`, seeded
/// from `rand::thread_rng()`. Nothing is claimed of the generator that comes
/// back: its state is a matter of chance. `from_rng` reports an error only
/// when its source fails to fill the seed, and the thread-local generator
/// always fills it, so the result is there to unwrap. `thread_rng` itself
/// gives up where the operating system has no entropy to seed it from.
#[verifier::external_body]
fn fresh_generator() -> Pcg64 {
    Pcg64::from_rng(thread_rng()).unwrap()
}

/// Shuffles `cards` in place by `rand::seq::SliceRandom::shuffle`, drawing
/// from `rng`. The shuffle only swaps entries of the slice, so the pile holds
/// the same cards afterwards, each as often as before; the order is left open.
#[verifier::external_body]
fn shuffle_cards(cards: &mut Vec<Card>, rng: &mut Pcg64)
    ensures
        final(cards)@.to_multiset() == old(cards)@.to_multiset(),
{
    cards.shuffle(rng);
}

/// The cattle cards among `cards`, in their order.
pub open spec fn cows_of(cards: Seq<Card>) -> Seq<Cow>
    decreases cards.len(),
{
    if cards.len() == 0 {
        Seq::empty()
    } else {
        let front = cows_of(cards.drop_last());
        match cards.last() {
            Card::CowCard(cow) => front.push(cow),
            Card::ObjectiveCard(_) => front,
        }
    }
}

/// The objective cards among `cards`, in their order.
pub open spec fn objectives_of(cards: Seq<Card>) -> Seq<Objective>
    decreases cards.len(),
{
    if cards.len() == 0 {
        Seq::empty()
    } else {
        let front = objectives_of(cards.drop_last());
        match cards.last() {
            Card::CowCard(_) => front,
            Card::ObjectiveCard(objective) => front.push(objective),
        }
    }
}

/// The sum of the points of `cows`.
pub open spec fn points_of(cows: Seq<Cow>) -> nat
    decreases cows.len(),
{
    if cows.len() == 0 {
        0
    } else {
        points_of(cows.drop_last()) + cows.last().spec_points() as nat
    }
}

/// Whether `card` is a cattle card of the breed `color`.
pub open spec fn is_cow_of(card: Card, color: CowColor) -> bool {
    card matches Card::CowCard(cow) && cow.spec_color() == color
}

/// How many cattle cards of the breed `color` are among `cards`.
pub open spec fn copies(cards: Seq<Card>, color: CowColor) -> nat
    decreases cards.len(),
{
    if cards.len() == 0 {
        0
    } else {
        copies(cards.drop_last(), color) + if is_cow_of(cards.last(), color) {
            1nat
        } else {
            0nat
        }
    }
}

/// The worth of the breeds below the place `upto` of which `cards` holds a
/// card: each such breed counts once, however many cards of it there are.
pub open spec fn worth_below(cards: Seq<Card>, upto: nat) -> nat
    decreases upto,
{
    if upto == 0 {
        0
    } else {
        let color = CowColor::at((upto - 1) as nat);
        worth_below(cards, (upto - 1) as nat) + if copies(cards, color) > 0 {
            color.worth()
        } else {
            0
        }
    }
}

/// What `cards` are worth as a hand: the worth of each breed among them,
/// counted once.
pub open spec fn worth_of(cards: Seq<Card>) -> nat {
    worth_below(cards, 9)
}

/// Whether `card` stands at `i` in `cards` and nowhere before.
pub open spec fn first_at(cards: Seq<Card>, card: Card, i: int) -> bool {
    &&& 0 <= i < cards.len()
    &&& cards[i] == card
    &&& forall|j: int| 0 <= j < i ==> cards[j] != card
}

/// The cattle cards of two runs of cards put together are those of the first
/// followed by those of the second.
pub proof fn lemma_cows_of_concat(a: Seq<Card>, b: Seq<Card>)
    ensures
        cows_of(a + b) == cows_of(a) + cows_of(b),
    decreases b.len(),
{
    if b.len() > 0 {
        assert((a + b).drop_last() =~= a + b.drop_last());
        lemma_cows_of_concat(a, b.drop_last());
    }
}

/// The same of objective cards.
pub proof fn lemma_objectives_of_concat(a: Seq<Card>, b: Seq<Card>)
    ensures
        objectives_of(a + b) == objectives_of(a) + objectives_of(b),
    decreases b.len(),
{
    if b.len() > 0 {
        assert((a + b).drop_last() =~= a + b.drop_last());
        lemma_objectives_of_concat(a, b.drop_last());
    }
}

/// The points of two runs of cattle cards add up.
pub proof fn lemma_points_of_concat(a: Seq<Cow>, b: Seq<Cow>)
    ensures
        points_of(a + b) == points_of(a) + points_of(b),
    decreases b.len(),
{
    if b.len() > 0 {
        assert((a + b).drop_last() =~= a + b.drop_last());
        lemma_points_of_concat(a, b.drop_last());
    }
}

/// A run of cards holds a card of a breed exactly where one of its entries
/// is such a card.
pub proof fn lemma_copies_positive(cards: Seq<Card>, color: CowColor)
    ensures
        copies(cards, color) > 0 <==> exists|i: int|
            0 <= i < cards.len() && is_cow_of(#[trigger] cards[i], color),
    decreases cards.len(),
{
    if cards.len() > 0 {
        let front = cards.drop_last();
        lemma_copies_positive(front, color);
        if copies(cards, color) > 0 && !is_cow_of(cards.last(), color) {
            let i = choose|i: int| 0 <= i < front.len() && is_cow_of(#[trigger] front[i], color);
            assert(is_cow_of(cards[i], color));
        }
        if exists|i: int| 0 <= i < cards.len() && is_cow_of(#[trigger] cards[i], color) {
            let i = choose|i: int| 0 <= i < cards.len() && is_cow_of(#[trigger] cards[i], color);
            if i < front.len() {
                assert(is_cow_of(front[i], color));
            }
        }
    }
}

/// The points of a run of cattle cards are at least those of any run it
/// starts with.
pub proof fn lemma_points_of_prefix(cows: Seq<Cow>, n: int)
    requires
        0 <= n <= cows.len(),
    ensures
        points_of(cows.take(n)) <= points_of(cows),
{
    assert(cows.take(n) + cows.skip(n) =~= cows);
    lemma_points_of_concat(cows.take(n), cows.skip(n));
}

/// The piles of a deck and its hand limit, as plain values. The last card of
/// the draw pile is its top.
pub struct DeckView {
    pub hand: Seq<Card>,
    pub draw: Seq<Card>,
    pub discard: Seq<Card>,
    pub hand_size: nat,
}

impl DeckView {
    /// The number of cards in the three piles together.
    pub open spec fn total(self) -> nat {
        self.hand.len() + self.draw.len() + self.discard.len()
    }

    /// All cards of the three piles, each as often as it is held.
    pub open spec fn cards(self) -> Multiset<Card> {
        self.hand.to_multiset().add(self.draw.to_multiset()).add(self.discard.to_multiset())
    }

    /// The deck after the top of the draw pile has moved to the hand.
    pub open spec fn draw_top(self) -> DeckView
        recommends
            self.draw.len() > 0,
    {
        DeckView {
            hand: self.hand.push(self.draw.last()),
            draw: self.draw.drop_last(),
            discard: self.discard,
            hand_size: self.hand_size,
        }
    }

    /// The deck after `n` cards have moved from the top of the draw pile to
    /// the hand, one after the other.
    pub open spec fn draw_many(self, n: nat) -> DeckView
        recommends
            n <= self.draw.len(),
        decreases n,
    {
        if n == 0 {
            self
        } else {
            self.draw_top().draw_many((n - 1) as nat)
        }
    }

    /// The deck without the card at `at` of the hand.
    pub open spec fn without(self, at: int) -> DeckView
        recommends
            0 <= at < self.hand.len(),
    {
        DeckView { hand: self.hand.remove(at), ..self }
    }

    /// The deck with `card` put on the discard pile.
    pub open spec fn with_discarded(self, card: Card) -> DeckView {
        DeckView { discard: self.discard.push(card), ..self }
    }

    /// Whether `self` can come from `before` by a reshuffle: the draw pile has
    /// become the discard pile, and the former discard pile, in some order,
    /// the draw pile.
    pub open spec fn reshuffle_of(self, before: DeckView) -> bool {
        &&& self.hand == before.hand
        &&& self.discard == before.draw
        &&& self.draw.to_multiset() == before.discard.to_multiset()
        &&& self.hand_size == before.hand_size
    }

    /// Whether `self` can come from `before` by drawing one card: from the
    /// draw pile as it is, or, where that is empty, after a reshuffle.
    pub open spec fn drawn_from(self, before: DeckView) -> bool {
        if before.draw.len() > 0 {
            self == before.draw_top()
        } else {
            before.discard.len() > 0 && exists|mid: DeckView|
                #[trigger] mid.reshuffle_of(before) && self == mid.draw_top()
        }
    }

    /// How many cards a refill of the hand draws: as many as the hand lacks,
    /// or all that the two piles hold where they hold fewer.
    pub open spec fn refill_count(self) -> nat {
        if self.hand.len() >= self.hand_size {
            0
        } else if self.hand_size - self.hand.len() <= self.draw.len() + self.discard.len() {
            (self.hand_size - self.hand.len()) as nat
        } else {
            self.draw.len() + self.discard.len()
        }
    }

    /// Whether `self` can come from `before` by refilling the hand: the cards
    /// come off the draw pile, and once that is used up, after one reshuffle,
    /// off the new draw pile.
    pub open spec fn refilled_from(self, before: DeckView) -> bool {
        let n = before.refill_count();
        if n <= before.draw.len() {
            self == before.draw_many(n)
        } else {
            exists|mid: DeckView|
                #[trigger] mid.reshuffle_of(before.draw_many(before.draw.len())) && self
                    == mid.draw_many((n - before.draw.len()) as nat)
        }
    }
}

/// What drawing `n` cards in a row does: the hand grows by the top `n` cards
/// of the draw pile, top first, and nothing else changes. Drawing once more
/// is drawing `n + 1` cards.
pub proof fn lemma_draw_many(deck: DeckView, n: nat)
    requires
        n <= deck.draw.len(),
    ensures
        deck.draw_many(n).hand == deck.hand + deck.draw.skip(deck.draw.len() - n).reverse(),
        deck.draw_many(n).draw == deck.draw.take(deck.draw.len() - n),
        deck.draw_many(n).discard == deck.discard,
        deck.draw_many(n).hand_size == deck.hand_size,
        n < deck.draw.len() ==> deck.draw_many(n).draw_top() == deck.draw_many(n + 1),
    decreases n,
{
    let len = deck.draw.len() as int;
    if n == 0 {
        if len > 0 {
            assert(deck.draw_many(1) == deck.draw_top().draw_many(0));
        }
    } else {
        let next = deck.draw_top();
        lemma_draw_many(next, (n - 1) as nat);
        assert(next.hand + next.draw.skip(len - 1 - (n - 1)).reverse() =~= deck.hand
            + deck.draw.skip(len - n).reverse());
    }
}

/// A move that shifts cards between the piles of a deck and neither adds
/// nor takes away any: an attempt to draw a card, a refill of the hand, a
/// reshuffle of the discard pile.
pub enum DeckMove {
    Draw,
    Refill,
    Reshuffle,
}

/// Whether the move `by` can lead from the deck `before` to the deck `after`.
/// An attempt to draw leaves the deck as it is where both piles are empty.
pub open spec fn moved(before: DeckView, by: DeckMove, after: DeckView) -> bool {
    match by {
        DeckMove::Draw => if before.draw.len() == 0 && before.discard.len() == 0 {
            after == before
        } else {
            after.drawn_from(before)
        },
        DeckMove::Refill => after.refilled_from(before),
        DeckMove::Reshuffle => after.reshuffle_of(before),
    }
}

/// Whether `states` are the decks that the moves `by` lead through, from the
/// first of them on, one move between each deck and the next.
pub open spec fn moved_through(states: Seq<DeckView>, by: Seq<DeckMove>) -> bool {
    &&& states.len() == by.len() + 1
    &&& forall|i: int| 0 <= i < by.len() ==> moved(states[i], #[trigger] by[i], states[i + 1])
}

/// Moving the top of the draw pile to the hand keeps the cards of the deck.
pub proof fn lemma_draw_top_keeps_cards(deck: DeckView)
    requires
        deck.draw.len() > 0,
    ensures
        deck.draw_top().total() == deck.total(),
        deck.draw_top().cards() == deck.cards(),
        deck.draw_top().hand_size == deck.hand_size,
{
    broadcast use vstd::seq_lib::group_to_multiset_ensures;

    let top = deck.draw.last();
    assert(deck.draw =~= deck.draw.drop_last().push(top));
}

/// Drawing several cards in a row keeps the cards of the deck.
pub proof fn lemma_draw_many_keeps_cards(deck: DeckView, n: nat)
    requires
        n <= deck.draw.len(),
    ensures
        deck.draw_many(n).total() == deck.total(),
        deck.draw_many(n).cards() == deck.cards(),
        deck.draw_many(n).hand_size == deck.hand_size,
    decreases n,
{
    if n > 0 {
        lemma_draw_top_keeps_cards(deck);
        lemma_draw_many_keeps_cards(deck.draw_top(), (n - 1) as nat);
    }
}

/// A reshuffle keeps the cards of the deck.
pub proof fn lemma_reshuffle_keeps_cards(before: DeckView, after: DeckView)
    requires
        after.reshuffle_of(before),
    ensures
        after.total() == before.total(),
        after.cards() == before.cards(),
        after.hand_size == before.hand_size,
{
    after.draw.to_multiset_ensures();
    before.discard.to_multiset_ensures();
}

/// Each of the moves keeps the cards of the deck: their number, and which
/// cards they are. The hand limit stays too.
pub proof fn lemma_move_keeps_cards(before: DeckView, by: DeckMove, after: DeckView)
    requires
        moved(before, by, after),
    ensures
        after.total() == before.total(),
        after.cards() == before.cards(),
        after.hand_size == before.hand_size,
{
    match by {
        DeckMove::Draw => {
            if before.draw.len() > 0 {
                lemma_draw_top_keeps_cards(before);
            } else if before.discard.len() > 0 {
                let mid = choose|mid: DeckView| #[trigger]
                    mid.reshuffle_of(before) && after == mid.draw_top();
                lemma_reshuffle_keeps_cards(before, mid);
                mid.draw.to_multiset_ensures();
                before.discard.to_multiset_ensures();
                lemma_draw_top_keeps_cards(mid);
            }
        },
        DeckMove::Refill => {
            let n = before.refill_count();
            if n <= before.draw.len() {
                lemma_draw_many_keeps_cards(before, n);
            } else {
                let base = before.draw_many(before.draw.len());
                let mid = choose|mid: DeckView| #[trigger]
                    mid.reshuffle_of(base) && after == mid.draw_many(
                        (n - before.draw.len()) as nat,
                    );
                lemma_draw_many_keeps_cards(before, before.draw.len());
                lemma_draw_many(before, before.draw.len());
                lemma_reshuffle_keeps_cards(base, mid);
                mid.draw.to_multiset_ensures();
                base.discard.to_multiset_ensures();
                lemma_draw_many_keeps_cards(mid, (n - before.draw.len()) as nat);
            }
        },
        DeckMove::Reshuffle => {
            lemma_reshuffle_keeps_cards(before, after);
        },
    }
}

/// Whatever moves are made, in whatever order and however many, the deck
/// holds the same cards at the end as at the beginning, and as many in its
/// three piles together.
pub proof fn lemma_moves_keep_cards(states: Seq<DeckView>, by: Seq<DeckMove>)
    requires
        moved_through(states, by),
    ensures
        states.last().total() == states[0].total(),
        states.last().cards() == states[0].cards(),
        states.last().hand_size == states[0].hand_size,
    decreases by.len(),
{
    if by.len() > 0 {
        let n = by.len() as int;
        lemma_move_keeps_cards(states[n - 1], by[n - 1], states[n]);
        assert(moved_through(states.drop_last(), by.drop_last()));
        lemma_moves_keep_cards(states.drop_last(), by.drop_last());
    }
}

/// Trashing a card takes exactly that card out of the deck: one card fewer.
pub proof fn lemma_without_takes_one(deck: DeckView, at: int)
    requires
        0 <= at < deck.hand.len(),
    ensures
        deck.without(at).total() == deck.total() - 1,
        deck.without(at).cards() == deck.cards().remove(deck.hand[at]),
{
    broadcast use vstd::seq_lib::group_to_multiset_ensures;

    deck.hand.to_multiset_ensures();
    deck.hand.remove_ensures(at);
    deck.hand.remove(at).to_multiset_ensures();
}

/// Putting a card on the discard pile adds exactly that card: one card more.
pub proof fn lemma_with_discarded_adds_one(deck: DeckView, card: Card)
    ensures
        deck.with_discarded(card).total() == deck.total() + 1,
        deck.with_discarded(card).cards() == deck.cards().insert(card),
{
    broadcast use vstd::seq_lib::group_to_multiset_ensures;

}

/// Playing a card moves it from the hand to the discard pile: the hand is
/// one card shorter, the discard pile one longer, and the deck holds the
/// same cards as before.
pub proof fn lemma_play_keeps_cards(deck: DeckView, at: int)
    requires
        0 <= at < deck.hand.len(),
    ensures
        deck.without(at).with_discarded(deck.hand[at]).total() == deck.total(),
        deck.without(at).with_discarded(deck.hand[at]).cards() == deck.cards(),
        deck.without(at).with_discarded(deck.hand[at]).hand.len() == deck.hand.len() - 1,
        deck.without(at).with_discarded(deck.hand[at]).discard.len() == deck.discard.len() + 1,
{
    lemma_without_takes_one(deck, at);
    lemma_with_discarded_adds_one(deck.without(at), deck.hand[at]);
    deck.hand.to_multiset_ensures();
}

/// A player's cards: the hand, the draw pile and the discard pile, with the
/// hand limit and the deck's own generator for shuffling.
#[derive(Eq, PartialEq, Debug)]
pub struct Deck {
    hand: Vec<Card>,
    draw: Vec<Card>,
    discard: Vec<Card>,
    hand_size: usize,
    rng: Pcg64,
}

impl View for Deck {
    type V = DeckView;

    closed spec fn view(&self) -> DeckView {
        DeckView {
            hand: self.hand@,
            draw: self.draw@,
            discard: self.discard@,
            hand_size: self.hand_size as nat,
        }
    }
}

fn copy_of(cards: &Vec<Card>) -> (copy: Vec<Card>)
    ensures
        copy@ == cards@,
{
    let mut copy: Vec<Card> = Vec::new();
    let mut i: usize = 0;
    while i < cards.len()
        invariant
            i <= cards.len(),
            copy@ == cards@.take(i as int),
        decreases cards.len() - i,
    {
        copy.push(cards[i]);
        i += 1;
    }
    assert(cards@.take(i as int) =~= cards@);
    copy
}

impl Clone for Deck {
    /// A second deck with the same piles and hand limit, and a generator in
    /// the same state.
    fn clone(&self) -> (copy: Deck)
        ensures
            copy@ == self@,
            copy.spec_generator() == self.spec_generator(),
    {
        Deck {
            hand: copy_of(&self.hand),
            draw: copy_of(&self.draw),
            discard: copy_of(&self.discard),
            hand_size: self.hand_size,
            rng: self.rng.clone(),
        }
    }
}

impl Deck {
    /// The generator that the deck shuffles with, in its present state. Only
    /// a shuffle moves it on.
    pub closed spec fn spec_generator(self) -> Pcg64 {
        self.rng
    }

    /// A deck with `draw` as its draw pile, in the given order, and nothing in
    /// hand or discarded.
    pub fn new_unshuffled(hand_size: usize, draw: Vec<Card>) -> (deck: Deck)
        ensures
            deck@ == (DeckView {
                hand: Seq::empty(),
                draw: draw@,
                discard: Seq::empty(),
                hand_size: hand_size as nat,
            }),
    {
        Deck { hand: Vec::new(), draw, discard: Vec::new(), hand_size, rng: fresh_generator() }
    }

    /// A deck put together from its three piles, its hand limit and the
    /// generator it is to shuffle with, as they were saved.
    pub fn restore(
        hand: Vec<Card>,
        draw: Vec<Card>,
        discard: Vec<Card>,
        hand_size: usize,
        rng: Pcg64,
    ) -> (deck: Deck)
        ensures
            deck@ == (DeckView {
                hand: hand@,
                draw: draw@,
                discard: discard@,
                hand_size: hand_size as nat,
            }),
            deck.spec_generator() == rng,
    {
        Deck { hand, draw, discard, hand_size, rng }
    }

    /// The generator that the deck shuffles with, in its present state.
    pub fn generator(&self) -> (r: &Pcg64)
        ensures
            *r == self.spec_generator(),
    {
        &self.rng
    }

    /// A deck with the cards of `pile` as its draw pile, shuffled.
    pub fn new(hand_size: usize, pile: Vec<Card>) -> (deck: Deck)
        ensures
            deck@.hand == Seq::<Card>::empty(),
            deck@.discard == Seq::<Card>::empty(),
            deck@.hand_size == hand_size,
            deck@.draw.to_multiset() == pile@.to_multiset(),
    {
        let mut deck = Deck::new_unshuffled(hand_size, pile);
        shuffle_cards(&mut deck.draw, &mut deck.rng);
        deck
    }

    /// Turns the discard pile into the draw pile, shuffled; the draw pile as
    /// it was becomes the discard pile.
    pub fn shuffleDiscard(&mut self)
        ensures
            final(self)@.reshuffle_of(old(self)@),
    {
        std::mem::swap(&mut self.draw, &mut self.discard);
        shuffle_cards(&mut self.draw, &mut self.rng);
    }

    /// Puts a card on the discard pile.
    pub fn addCard(&mut self, card: Card)
        ensures
            final(self)@ == old(self)@.with_discarded(card),
            final(self).spec_generator() == old(self).spec_generator(),
    {
        self.discard.push(card);
    }

    /// Moves the top of the draw pile to the hand. Where the draw pile is
    /// empty the discard pile is reshuffled into it first. Fails, and changes
    /// nothing, only where both piles are empty.
    pub fn drawCard(&mut self) -> (r: Result<(), DeckError>)
        ensures
            r is Err <==> old(self)@.draw.len() == 0 && old(self)@.discard.len() == 0,
            r matches Err(e) ==> e == DeckError::DeckEmpty && final(self)@ == old(self)@,
            r is Ok ==> final(self)@.drawn_from(old(self)@),
            old(self)@.draw.len() > 0 || r is Err ==> final(self).spec_generator() == old(
                self,
            ).spec_generator(),
    {
        if self.draw.len() == 0 && self.discard.len() > 0 {
            self.shuffleDiscard();
            proof {
                old(self)@.discard.to_multiset_ensures();
                self@.draw.to_multiset_ensures();
            }
        }
        let ghost mid = self@;
        match self.draw.pop() {
            Some(card) => {
                self.hand.push(card);
                Ok(())
            },
            None => Err(DeckError::DeckEmpty),
        }
    }
    /// Draws until the hand is at its limit or both piles are used up. Running
    /// out of cards is no failure: the hand then stays short.
    pub fn refillHand(&mut self)
        ensures
            final(self)@.refilled_from(old(self)@),
            final(self)@.hand.len() == old(self)@.hand.len() + old(self)@.refill_count(),
            final(self)@.total() == old(self)@.total(),
            old(self)@.hand.len() <= old(self)@.hand_size ==> final(self)@.hand.len() <= old(
                self,
            )@.hand_size,
    {
        let ghost start = self@;
        let ghost n = start.refill_count();
        let ghost base = start.draw_many(start.draw.len());
        let ghost mut k: nat = 0;
        let ghost mut shuffled = false;
        let ghost mut mid = start;
        let mut more = true;
        proof {
            lemma_draw_many(start, start.draw.len());
            start.discard.to_multiset_ensures();
        }
        while more && self.hand.len() < self.hand_size
            invariant
                start == old(self)@,
                n == start.refill_count(),
                base == start.draw_many(start.draw.len()),
                base.draw.len() == 0,
                base.discard == start.discard,
                base.hand.len() == start.hand.len() + start.draw.len(),
                self@.hand_size == start.hand_size,
                k <= n,
                self@.hand.len() == start.hand.len() + k,
                !shuffled ==> k <= start.draw.len() && self@ == start.draw_many(k),
                shuffled ==> {
                    &&& k > start.draw.len()
                    &&& mid.reshuffle_of(base)
                    &&& k - start.draw.len() <= mid.draw.len()
                    &&& mid.draw.len() == start.discard.len()
                    &&& self@ == mid.draw_many((k - start.draw.len()) as nat)
                },
                !more ==> k == n,
            decreases n - k + if more { 1int } else { 0int },
        {
            let ghost before = self@;
            proof {
                if shuffled {
                    lemma_draw_many(mid, (k - start.draw.len()) as nat);
                } else {
                    lemma_draw_many(start, k);
                }
            }
            match self.drawCard() {
                Ok(()) => {
                    proof {
                        if before.draw.len() > 0 {
                            k = k + 1;
                        } else {
                            let after = self@;
                            let turned = choose|turned: DeckView| #[trigger]
                                turned.reshuffle_of(before) && after == turned.draw_top();
                            turned.draw.to_multiset_ensures();
                            before.discard.to_multiset_ensures();
                            mid = turned;
                            shuffled = true;
                            k = k + 1;
                            assert(mid.draw_top().draw_many(0) == mid.draw_top());
                        }
                    }
                },
                Err(_) => {
                    more = false;
                },
            }
        }
        proof {
            if shuffled {
                lemma_draw_many(mid, (k - start.draw.len()) as nat);
            } else {
                lemma_draw_many(start, k);
            }
        }
    }
    /// The hand, first drawn first.
    pub fn hand(&self) -> (r: &Vec<Card>)
        ensures
            r@ == self@.hand,
    {
        &self.hand
    }

    /// The draw pile, its top last.
    pub fn draw(&self) -> (r: &Vec<Card>)
        ensures
            r@ == self@.draw,
    {
        &self.draw
    }

    /// The discard pile, last discarded last.
    pub fn discard(&self) -> (r: &Vec<Card>)
        ensures
            r@ == self@.discard,
    {
        &self.discard
    }

    /// The number of cards that a refill brings the hand up to.
    pub fn handSize(&self) -> (r: usize)
        ensures
            r == self@.hand_size,
    {
        self.hand_size
    }

    /// Removes from the hand the first card that is the same as `card`, for
    /// good. Fails, and changes nothing, where the hand holds no such card.
    pub fn trashCard(&mut self, card: Card) -> (r: Result<(), DeckError>)
        ensures
            r is Err <==> !old(self)@.hand.contains(card),
            r matches Err(e) ==> e == DeckError::CardNotInHand && final(self)@ == old(self)@,
            r is Ok ==> exists|at: int|
                #![trigger old(self)@.without(at)]
                first_at(old(self)@.hand, card, at) && final(self)@ == old(self)@.without(at),
            final(self).spec_generator() == old(self).spec_generator(),
    {
        let mut i: usize = 0;
        while i < self.hand.len()
            invariant
                i <= self.hand.len(),
                *self == *old(self),
                forall|j: int| 0 <= j < i ==> self.hand@[j] != card,
            decreases self.hand.len() - i,
        {
            if self.hand[i].sameAs(&card) {
                self.hand.remove(i);
                assert(self@ == old(self)@.without(i as int));
                return Ok(());
            }
            i += 1;
        }
        Err(DeckError::CardNotInHand)
    }

    /// Moves from the hand to the discard pile the first card that is the
    /// same as `card`. Fails, and changes nothing, where the hand holds no
    /// such card.
    pub fn playCard(&mut self, card: Card) -> (r: Result<(), DeckError>)
        ensures
            r is Err <==> !old(self)@.hand.contains(card),
            r matches Err(e) ==> e == DeckError::CardNotInHand && final(self)@ == old(self)@,
            r is Ok ==> exists|at: int|
                #![trigger old(self)@.without(at)]
                first_at(old(self)@.hand, card, at) && final(self)@ == old(self)@.without(
                    at,
                ).with_discarded(card),
            final(self).spec_generator() == old(self).spec_generator(),
    {
        match self.trashCard(card) {
            Ok(()) => {
                let ghost at = choose|at: int|
                    #![trigger old(self)@.without(at)]
                    first_at(old(self)@.hand, card, at) && self@ == old(self)@.without(at);
                self.discard.push(card);
                Ok(())
            },
            Err(e) => Err(e),
        }
    }

    fn deckCowCards(cards: &Vec<Card>) -> (cows: Vec<Cow>)
        ensures
            cows@ == cows_of(cards@),
    {
        let mut cows: Vec<Cow> = Vec::new();
        let mut i: usize = 0;
        while i < cards.len()
            invariant
                i <= cards.len(),
                cows@ == cows_of(cards@.take(i as int)),
            decreases cards.len() - i,
        {
            assert(cards@.take(i + 1).drop_last() =~= cards@.take(i as int));
            if let Card::CowCard(cow) = cards[i] {
                cows.push(cow);
            }
            i += 1;
        }
        assert(cards@.take(i as int) =~= cards@);
        cows
    }

    fn deckObjectiveCards(cards: &Vec<Card>) -> (objectives: Vec<Objective>)
        ensures
            objectives@ == objectives_of(cards@),
    {
        let mut objectives: Vec<Objective> = Vec::new();
        let mut i: usize = 0;
        while i < cards.len()
            invariant
                i <= cards.len(),
                objectives@ == objectives_of(cards@.take(i as int)),
            decreases cards.len() - i,
        {
            assert(cards@.take(i + 1).drop_last() =~= cards@.take(i as int));
            if let Card::ObjectiveCard(objective) = cards[i] {
                objectives.push(objective);
            }
            i += 1;
        }
        assert(cards@.take(i as int) =~= cards@);
        objectives
    }

    /// The cattle cards of the whole deck: those of the hand, then those of
    /// the draw pile, then those of the discard pile.
    pub fn cowCards(&self) -> (cows: Vec<Cow>)
        ensures
            cows@ == cows_of(self@.hand) + cows_of(self@.draw) + cows_of(self@.discard),
            cows@ == cows_of(self@.hand + self@.draw + self@.discard),
    {
        let mut cows = Deck::deckCowCards(&self.hand);
        let mut from_draw = Deck::deckCowCards(&self.draw);
        let mut from_discard = Deck::deckCowCards(&self.discard);
        cows.append(&mut from_draw);
        cows.append(&mut from_discard);
        proof {
            lemma_cows_of_concat(self@.hand, self@.draw);
            lemma_cows_of_concat(self@.hand + self@.draw, self@.discard);
        }
        cows
    }

    /// The objective cards of the whole deck: those of the hand, then those
    /// of the draw pile, then those of the discard pile.
    pub fn objectiveCards(&self) -> (objectives: Vec<Objective>)
        ensures
            objectives@ == objectives_of(self@.hand) + objectives_of(self@.draw) + objectives_of(
                self@.discard,
            ),
            objectives@ == objectives_of(self@.hand + self@.draw + self@.discard),
    {
        let mut objectives = Deck::deckObjectiveCards(&self.hand);
        let mut from_draw = Deck::deckObjectiveCards(&self.draw);
        let mut from_discard = Deck::deckObjectiveCards(&self.discard);
        objectives.append(&mut from_draw);
        objectives.append(&mut from_discard);
        proof {
            lemma_objectives_of_concat(self@.hand, self@.draw);
            lemma_objectives_of_concat(self@.hand + self@.draw, self@.discard);
        }
        objectives
    }
    /// What the hand is worth: the worth of each breed in it, counted once
    /// however many cards of the breed it holds. Nothing where the hand holds
    /// no cattle card.
    pub fn handValue(&self) -> (r: u32)
        ensures
            r == worth_of(self@.hand),
    {
        let mut held: [bool; 9] = [false;9];
        let mut i: usize = 0;
        while i < self.hand.len()
            invariant
                i <= self.hand.len(),
                forall|k: int|
                    0 <= k < 9 ==> (#[trigger] held@[k] <==> copies(
                        self.hand@.take(i as int),
                        CowColor::at(k as nat),
                    ) > 0),
            decreases self.hand.len() - i,
        {
            assert(self.hand@.take(i + 1).drop_last() =~= self.hand@.take(i as int));
            if let Card::CowCard(cow) = self.hand[i] {
                let at = cow.color.index();
                held[at] = true;
            }
            i += 1;
        }
        assert(self.hand@.take(i as int) =~= self.hand@);
        let mut total: u32 = 0;
        let mut k: usize = 0;
        while k < 9
            invariant
                k <= 9,
                total == worth_below(self.hand@, k as nat),
                total <= 5 * k,
                forall|k: int|
                    0 <= k < 9 ==> (#[trigger] held@[k] <==> copies(
                        self.hand@,
                        CowColor::at(k as nat),
                    ) > 0),
            decreases 9 - k,
        {
            if held[k] {
                total += CowColor::of_index(k).sale_value();
            }
            k += 1;
        }
        total
    }

    /// The first cattle card of the breed `color` in the hand, if there is one.
    pub fn cowInHand(&self, color: CowColor) -> (r: Option<Cow>)
        ensures
            r is Some <==> copies(self@.hand, color) > 0,
            r matches Some(cow) ==> cow.spec_color() == color && exists|i: int|
                #![trigger self@.hand[i]]
                {
                    &&& 0 <= i < self@.hand.len()
                    &&& self@.hand[i] == Card::CowCard(cow)
                    &&& forall|j: int| 0 <= j < i ==> !is_cow_of(#[trigger] self@.hand[j], color)
                },
    {
        let mut i: usize = 0;
        while i < self.hand.len()
            invariant
                i <= self.hand.len(),
                forall|j: int| 0 <= j < i ==> !is_cow_of(#[trigger] self.hand@[j], color),
            decreases self.hand.len() - i,
        {
            if let Card::CowCard(cow) = self.hand[i] {
                if cow.color == color {
                    proof {
                        lemma_copies_positive(self@.hand, color);
                    }
                    return Some(cow);
                }
            }
            i += 1;
        }
        proof {
            lemma_copies_positive(self@.hand, color);
        }
        None
    }

    /// The breeds of which the hand holds two cards or more, each once, in
    /// the ascending order of breeds.
    pub fn pairInHand(&self) -> (pairs: Vec<CowColor>)
        ensures
            forall|color: CowColor| pairs@.contains(color) <==> copies(self@.hand, color) >= 2,
            forall|i: int, j: int|
                0 <= i < j < pairs@.len() ==> (#[trigger] pairs@[i]).rank() < (
                #[trigger] pairs@[j]).rank(),
    {
        let mut tally: [u8; 9] = [0;9];
        let mut i: usize = 0;
        while i < self.hand.len()
            invariant
                i <= self.hand.len(),
                forall|k: int|
                    0 <= k < 9 ==> {
                        let held = copies(self.hand@.take(i as int), CowColor::at(k as nat));
                        #[trigger] tally@[k] == if held >= 2 {
                            2
                        } else {
                            held as int
                        }
                    },
            decreases self.hand.len() - i,
        {
            assert(self.hand@.take(i + 1).drop_last() =~= self.hand@.take(i as int));
            if let Card::CowCard(cow) = self.hand[i] {
                let at = cow.color.index();
                if tally[at] < 2 {
                    tally[at] = tally[at] + 1;
                }
            }
            i += 1;
        }
        assert(self.hand@.take(i as int) =~= self.hand@);
        let mut pairs: Vec<CowColor> = Vec::new();
        let mut k: usize = 0;
        while k < 9
            invariant
                k <= 9,
                forall|c: int|
                    0 <= c < 9 ==> (#[trigger] tally@[c] >= 2 <==> copies(
                        self.hand@,
                        CowColor::at(c as nat),
                    ) >= 2),
                forall|color: CowColor|
                    pairs@.contains(color) <==> color.rank() < k && copies(self.hand@, color) >= 2,
                forall|i: int, j: int|
                    0 <= i < j < pairs@.len() ==> (#[trigger] pairs@[i]).rank() < (
                    #[trigger] pairs@[j]).rank(),
            decreases 9 - k,
        {
            let ghost before = pairs@;
            if tally[k] >= 2 {
                let color = CowColor::of_index(k);
                pairs.push(color);
                assert(pairs@[pairs@.len() - 1] == color);
                assert forall|i: int, j: int| 0 <= i < j < pairs@.len() implies (
                #[trigger] pairs@[i]).rank() < (#[trigger] pairs@[j]).rank() by {
                    if j == pairs@.len() - 1 {
                        assert(before.contains(before[i]));
                    }
                }
            }
            k += 1;
            assert forall|color: CowColor| pairs@.contains(color) <==> color.rank() < k && copies(
                self.hand@,
                color,
            ) >= 2 by {
                if before.contains(color) {
                    let at = choose|at: int| 0 <= at < before.len() && before[at] == color;
                    assert(pairs@[at] == color);
                }
            }
        }
        pairs
    }

    /// The points of all cattle cards of the deck together. The sum has to fit
    /// the result.
    pub fn cowPoints(&self) -> (r: u32)
        requires
            points_of(cows_of(self@.hand + self@.draw + self@.discard)) <= u32::MAX,
        ensures
            r == points_of(cows_of(self@.hand + self@.draw + self@.discard)),
    {
        let cows = self.cowCards();
        let mut total: u32 = 0;
        let mut i: usize = 0;
        while i < cows.len()
            invariant
                i <= cows.len(),
                total == points_of(cows@.take(i as int)),
                points_of(cows@) <= u32::MAX,
            decreases cows.len() - i,
        {
            proof {
                assert(cows@.take(i + 1).drop_last() =~= cows@.take(i as int));
                lemma_points_of_prefix(cows@, i + 1);
            }
            total += cows[i].points;
            i += 1;
        }
        assert(cows@.take(i as int) =~= cows@);
        total
    }
}

} // verus!
