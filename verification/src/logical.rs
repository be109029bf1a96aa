//! Bounded combinators: lists of at most `LENGTH` items held in fixed slots.
//!
//! `And` is a bundle whose items are all carried out, in order; `XOr` offers
//! exactly one of its items; `Or` lists independent axes of decision; `NAnd`
//! lists items of which not all may be taken. All four share one layout: the
//! supplied items fill the slots from the front and the remaining slots are
//! empty.
use vstd::prelude::*;

verus! {

/// What can go wrong with a combinator.
#[derive(Copy, Clone, Debug, PartialEq, Eq, Structural)]
pub enum LogicalError {
    /// More items were supplied than the combinator has slots.
    TooManyItems,
    /// The combinator holds no item at the index.
    InvalidIndex,
}

/// The slots of a combinator with `n` slots that was built from `items`:
/// slot `i` holds `items[i]` while there are items, and is empty after that.
pub open spec fn slots_of<T>(items: Seq<T>, n: nat) -> Seq<Option<T>> {
    Seq::new(
        n,
        |i: int|
            if i < items.len() {
                Some(items[i])
            } else {
                None
            },
    )
}

/// The items that a run of slots holds, in slot order, empty slots left out.
pub open spec fn members_of<T>(slots: Seq<Option<T>>) -> Seq<T>
    decreases slots.len(),
{
    if slots.len() == 0 {
        Seq::empty()
    } else {
        let front = members_of(slots.drop_last());
        match slots.last() {
            Some(item) => front.push(item),
            None => front,
        }
    }
}

/// A combinator built from `items` holds exactly `items`.
pub proof fn lemma_members_of_slots<T>(items: Seq<T>, n: nat)
    requires
        items.len() <= n,
    ensures
        members_of(slots_of(items, n)) == items,
    decreases n,
{
    let slots = slots_of(items, n);
    if n > 0 && items.len() == n {
        let shorter = items.drop_last();
        assert(slots.drop_last() =~= slots_of(shorter, (n - 1) as nat));
        lemma_members_of_slots(shorter, (n - 1) as nat);
    } else if n > 0 {
        assert(slots.drop_last() =~= slots_of(items, (n - 1) as nat));
        lemma_members_of_slots(items, (n - 1) as nat);
    }
}

/// The items of the first slots are the first items of all slots.
pub proof fn lemma_members_prefix<T>(slots: Seq<Option<T>>, n: int)
    requires
        0 <= n <= slots.len(),
    ensures
        members_of(slots.take(n)).len() <= members_of(slots).len(),
        members_of(slots.take(n)) == members_of(slots).take(members_of(slots.take(n)).len() as int),
    decreases slots.len() - n,
{
    if n == slots.len() {
        assert(slots.take(n) =~= slots);
    } else {
        lemma_members_prefix(slots, n + 1);
        assert(slots.take(n + 1).drop_last() =~= slots.take(n));
        let shorter = members_of(slots.take(n));
        let longer = members_of(slots.take(n + 1));
    }
}

/// The item at `index` among the items that the slots hold, if there is one.
fn member_at<T: Copy, const LENGTH: usize>(slots: &[Option<T>; LENGTH], index: usize) -> (r:
    Option<T>)
    ensures
        r == if index < members_of(slots@).len() {
            Some(members_of(slots@)[index as int])
        } else {
            None
        },
{
    let mut seen: usize = 0;
    let mut i: usize = 0;
    while i < LENGTH
        invariant
            i <= LENGTH,
            slots@.len() == LENGTH,
            seen == members_of(slots@.take(i as int)).len(),
            seen <= i,
            seen <= index,
        decreases LENGTH - i,
    {
        proof {
            assert(slots@.take(i + 1).drop_last() =~= slots@.take(i as int));
            lemma_members_prefix(slots@, i + 1);
        }
        if let Some(item) = slots[i] {
            if seen == index {
                proof {
                    let upto = members_of(slots@.take(i + 1));
                    assert(upto[index as int] == item);
                }
                return Some(item);
            }
            seen += 1;
        }
        i += 1;
    }
    assert(slots@.take(i as int) =~= slots@);
    None
}

/// The number of items that the slots hold.
fn member_count<T: Copy, const LENGTH: usize>(slots: &[Option<T>; LENGTH]) -> (r: usize)
    ensures
        r == members_of(slots@).len(),
        r <= LENGTH,
{
    let mut seen: usize = 0;
    let mut i: usize = 0;
    while i < LENGTH
        invariant
            i <= LENGTH,
            slots@.len() == LENGTH,
            seen == members_of(slots@.take(i as int)).len(),
            seen <= i,
        decreases LENGTH - i,
    {
        assert(slots@.take(i + 1).drop_last() =~= slots@.take(i as int));
        if slots[i].is_some() {
            seen += 1;
        }
        i += 1;
    }
    assert(slots@.take(i as int) =~= slots@);
    seen
}

/// Fills `LENGTH` slots from `items`, front first.
fn filled<T: Copy, const LENGTH: usize>(items: &[T]) -> (slots: [Option<T>; LENGTH])
    requires
        items@.len() <= LENGTH,
    ensures
        slots@ == slots_of(items@, LENGTH as nat),
        members_of(slots@) == items@,
{
    let mut slots: [Option<T>; LENGTH] = [None;LENGTH];
    let mut i: usize = 0;
    while i < items.len()
        invariant
            i <= items@.len() <= LENGTH,
            slots@ == slots_of(items@.take(i as int), LENGTH as nat),
        decreases items@.len() - i,
    {
        slots[i] = Some(items[i]);
        i += 1;
    }
    proof {
        assert(items@.take(i as int) =~= items@);
        lemma_members_of_slots(items@, LENGTH as nat);
    }
    slots
}

/// Independent axes of decision: each item may be resolved on its own.
#[derive(Copy, Clone, Eq, PartialEq, Debug)]
pub struct Or<T, const LENGTH: usize> {
    pub items: [Option<T>; LENGTH],
}

impl<T: Copy, const LENGTH: usize> Or<T, LENGTH> {
    /// The items held, in slot order.
    pub open spec fn members(self) -> Seq<T> {
        members_of(self.items@)
    }

    /// Whether the items fill the slots from the front, with no empty slot
    /// before an item.
    pub open spec fn packed(self) -> bool {
        self.items@ == slots_of(self.members(), LENGTH as nat)
    }

    /// Builds the combinator from `items`, which fill the slots from the front.
    /// More items than slots are refused, and nothing is built.
    pub fn new(items: &[T]) -> (r: Result<Or<T, LENGTH>, LogicalError>)
        ensures
            items@.len() <= LENGTH <==> r is Ok,
            r matches Err(e) ==> e == LogicalError::TooManyItems,
            r matches Ok(built) ==> built.members() == items@ && built.packed(),
    {
        if items.len() > LENGTH {
            Err(LogicalError::TooManyItems)
        } else {
            Ok(Or { items: filled(items) })
        }
    }

    /// The number of items held.
    pub fn count(&self) -> (r: usize)
        ensures
            r == self.members().len(),
            r <= LENGTH,
    {
        member_count(&self.items)
    }

    /// The item at `index` among the items held, counted from 0. Fails where
    /// fewer items are held.
    pub fn pick(&self, index: usize) -> (r: Result<T, LogicalError>)
        ensures
            r == if index < self.members().len() {
                Ok::<T, LogicalError>(self.members()[index as int])
            } else {
                Err::<T, LogicalError>(LogicalError::InvalidIndex)
            },
    {
        match member_at(&self.items, index) {
            Some(item) => Ok(item),
            None => Err(LogicalError::InvalidIndex),
        }
    }

    /// The combinator with every slot empty.
    pub fn empty() -> (r: Or<T, LENGTH>)
        ensures
            r.members() == Seq::<T>::empty(),
            r.packed(),
    {
        let r = Or::<T, LENGTH> { items: [None;LENGTH] };
        proof {
            assert(r.items@ =~= slots_of(Seq::<T>::empty(), LENGTH as nat));
            lemma_members_of_slots(Seq::<T>::empty(), LENGTH as nat);
        }
        r
    }
}

/// Alternatives: resolving it means choosing exactly one item.
#[derive(Copy, Clone, Eq, PartialEq, Debug)]
pub struct XOr<T, const LENGTH: usize> {
    pub items: [Option<T>; LENGTH],
}

impl<T: Copy, const LENGTH: usize> XOr<T, LENGTH> {
    /// The items held, in slot order.
    pub open spec fn members(self) -> Seq<T> {
        members_of(self.items@)
    }

    /// Whether the items fill the slots from the front, with no empty slot
    /// before an item.
    pub open spec fn packed(self) -> bool {
        self.items@ == slots_of(self.members(), LENGTH as nat)
    }

    /// Builds the combinator from `items`, which fill the slots from the front.
    /// More items than slots are refused, and nothing is built.
    pub fn new(items: &[T]) -> (r: Result<XOr<T, LENGTH>, LogicalError>)
        ensures
            items@.len() <= LENGTH <==> r is Ok,
            r matches Err(e) ==> e == LogicalError::TooManyItems,
            r matches Ok(built) ==> built.members() == items@ && built.packed(),
    {
        if items.len() > LENGTH {
            Err(LogicalError::TooManyItems)
        } else {
            Ok(XOr { items: filled(items) })
        }
    }

    /// The number of items held.
    pub fn count(&self) -> (r: usize)
        ensures
            r == self.members().len(),
            r <= LENGTH,
    {
        member_count(&self.items)
    }

    /// The item at `index` among the items held, counted from 0. Fails where
    /// fewer items are held.
    pub fn pick(&self, index: usize) -> (r: Result<T, LogicalError>)
        ensures
            r == if index < self.members().len() {
                Ok::<T, LogicalError>(self.members()[index as int])
            } else {
                Err::<T, LogicalError>(LogicalError::InvalidIndex)
            },
    {
        match member_at(&self.items, index) {
            Some(item) => Ok(item),
            None => Err(LogicalError::InvalidIndex),
        }
    }

    /// The combinator with every slot empty.
    pub fn empty() -> (r: XOr<T, LENGTH>)
        ensures
            r.members() == Seq::<T>::empty(),
            r.packed(),
    {
        let r = XOr::<T, LENGTH> { items: [None;LENGTH] };
        proof {
            assert(r.items@ =~= slots_of(Seq::<T>::empty(), LENGTH as nat));
            lemma_members_of_slots(Seq::<T>::empty(), LENGTH as nat);
        }
        r
    }
}

/// A bundle: all items are carried out together, in the listed order.
#[derive(Copy, Clone, Eq, PartialEq, Debug)]
pub struct And<T, const LENGTH: usize> {
    pub items: [Option<T>; LENGTH],
}

impl<T: Copy, const LENGTH: usize> And<T, LENGTH> {
    /// The items held, in slot order.
    pub open spec fn members(self) -> Seq<T> {
        members_of(self.items@)
    }

    /// Whether the items fill the slots from the front, with no empty slot
    /// before an item.
    pub open spec fn packed(self) -> bool {
        self.items@ == slots_of(self.members(), LENGTH as nat)
    }

    /// Builds the combinator from `items`, which fill the slots from the front.
    /// More items than slots are refused, and nothing is built.
    pub fn new(items: &[T]) -> (r: Result<And<T, LENGTH>, LogicalError>)
        ensures
            items@.len() <= LENGTH <==> r is Ok,
            r matches Err(e) ==> e == LogicalError::TooManyItems,
            r matches Ok(built) ==> built.members() == items@ && built.packed(),
    {
        if items.len() > LENGTH {
            Err(LogicalError::TooManyItems)
        } else {
            Ok(And { items: filled(items) })
        }
    }

    /// The number of items held.
    pub fn count(&self) -> (r: usize)
        ensures
            r == self.members().len(),
            r <= LENGTH,
    {
        member_count(&self.items)
    }

    /// The item at `index` among the items held, counted from 0. Fails where
    /// fewer items are held.
    pub fn pick(&self, index: usize) -> (r: Result<T, LogicalError>)
        ensures
            r == if index < self.members().len() {
                Ok::<T, LogicalError>(self.members()[index as int])
            } else {
                Err::<T, LogicalError>(LogicalError::InvalidIndex)
            },
    {
        match member_at(&self.items, index) {
            Some(item) => Ok(item),
            None => Err(LogicalError::InvalidIndex),
        }
    }

    /// The combinator with every slot empty.
    pub fn empty() -> (r: And<T, LENGTH>)
        ensures
            r.members() == Seq::<T>::empty(),
            r.packed(),
    {
        let r = And::<T, LENGTH> { items: [None;LENGTH] };
        proof {
            assert(r.items@ =~= slots_of(Seq::<T>::empty(), LENGTH as nat));
            lemma_members_of_slots(Seq::<T>::empty(), LENGTH as nat);
        }
        r
    }
}

/// Items of which at most all but one may be taken together.
#[derive(Copy, Clone, Eq, PartialEq, Debug)]
pub struct NAnd<T, const LENGTH: usize> {
    pub items: [Option<T>; LENGTH],
}

impl<T: Copy, const LENGTH: usize> NAnd<T, LENGTH> {
    /// The items held, in slot order.
    pub open spec fn members(self) -> Seq<T> {
        members_of(self.items@)
    }

    /// Whether the items fill the slots from the front, with no empty slot
    /// before an item.
    pub open spec fn packed(self) -> bool {
        self.items@ == slots_of(self.members(), LENGTH as nat)
    }

    /// Builds the combinator from `items`, which fill the slots from the front.
    /// More items than slots are refused, and nothing is built.
    pub fn new(items: &[T]) -> (r: Result<NAnd<T, LENGTH>, LogicalError>)
        ensures
            items@.len() <= LENGTH <==> r is Ok,
            r matches Err(e) ==> e == LogicalError::TooManyItems,
            r matches Ok(built) ==> built.members() == items@ && built.packed(),
    {
        if items.len() > LENGTH {
            Err(LogicalError::TooManyItems)
        } else {
            Ok(NAnd { items: filled(items) })
        }
    }

    /// The number of items held.
    pub fn count(&self) -> (r: usize)
        ensures
            r == self.members().len(),
            r <= LENGTH,
    {
        member_count(&self.items)
    }

    /// The item at `index` among the items held, counted from 0. Fails where
    /// fewer items are held.
    pub fn pick(&self, index: usize) -> (r: Result<T, LogicalError>)
        ensures
            r == if index < self.members().len() {
                Ok::<T, LogicalError>(self.members()[index as int])
            } else {
                Err::<T, LogicalError>(LogicalError::InvalidIndex)
            },
    {
        match member_at(&self.items, index) {
            Some(item) => Ok(item),
            None => Err(LogicalError::InvalidIndex),
        }
    }

    /// The combinator with every slot empty.
    pub fn empty() -> (r: NAnd<T, LENGTH>)
        ensures
            r.members() == Seq::<T>::empty(),
            r.packed(),
    {
        let r = NAnd::<T, LENGTH> { items: [None;LENGTH] };
        proof {
            assert(r.items@ =~= slots_of(Seq::<T>::empty(), LENGTH as nat));
            lemma_members_of_slots(Seq::<T>::empty(), LENGTH as nat);
        }
        r
    }
}

} // verus!
