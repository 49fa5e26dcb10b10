//! A vending machine: a stock table and a coin ledger, and the same machine
//! held in a type that says what state it is in.

use vstd::prelude::*;
use std::marker::PhantomData;
use crate::vending::coins::{InCoins, fits, trade_succeeds, traded_change, traded_rest};
use crate::vending::stock::{
    Levels, Product, ProductKey, Stock, all_empty, all_full, lists, restocked, turned_away,
    within_capacity,
};
use crate::vending::states::{CanAccept, Empty, Full, Seal};

verus! {

/// What a sale hands out: the product and the change.
pub type Purchase = (Product, InCoins);

/// Whether a machine with these slots and this till sells `what` for the
/// coins `money`: it has more than one unit of it on hand, and the payment
/// can be settled. The last unit of a product is never sold.
pub open spec fn sells(
    slots: Map<ProductKey, Levels>,
    till: Seq<nat>,
    what: ProductKey,
    money: Seq<nat>,
) -> bool {
    &&& slots.contains_key(what)
    &&& slots[what].0 > 1
    &&& trade_succeeds(till, money, what.1 as nat)
}

/// The slots after one unit of `what` has left.
pub open spec fn sold(slots: Map<ProductKey, Levels>, what: ProductKey) -> Map<
    ProductKey,
    Levels,
> {
    slots.insert(what, ((slots[what].0 - 1) as u8, slots[what].1))
}

/// A stock table and the coins in the till.
pub struct VendingMachine {
    stored: Stock,
    has: InCoins,
}

impl VendingMachine {
    /// The levels of each product.
    pub closed spec fn slots(&self) -> Map<ProductKey, Levels> {
        self.stored@
    }

    /// The coins in the till.
    pub closed spec fn till(&self) -> Seq<nat> {
        self.has@
    }

    /// Whether the machine is sound: its table is, and no product is stocked
    /// beyond what fits.
    pub closed spec fn wf(&self) -> bool {
        &&& self.stored.wf()
        &&& within_capacity(self.stored@)
    }

    /// A machine with the given table and till, unless the table stocks a
    /// product beyond what fits.
    pub fn new(stored: Stock, has: InCoins) -> (r: Option<VendingMachine>)
        requires
            stored.wf(),
        ensures
            r.is_some() == within_capacity(stored@),
            r matches Some(m) ==> m.wf() && m.slots() == stored@ && m.till() == has@,
    {
        if stored.is_within_capacity() {
            Some(VendingMachine { stored, has })
        } else {
            None
        }
    }

    /// The coins in the till.
    pub fn coins(&self) -> (r: InCoins)
        ensures
            r@ == self.till(),
    {
        self.has
    }

    /// The levels of a product, where the machine has a slot for it.
    pub fn levels(&self, what: &Product) -> (r: Option<Levels>)
        requires
            self.wf(),
        ensures
            r == (if self.slots().contains_key(what@) {
                Some(self.slots()[what@])
            } else {
                None
            }),
    {
        self.stored.get(what)
    }

    /// Whether nothing is on hand of any product.
    pub fn is_empty(&self) -> (r: bool)
        requires
            self.wf(),
        ensures
            r == all_empty(self.slots()),
    {
        self.stored.is_empty()
    }

    /// Whether every product is stocked to what fits.
    pub fn is_full(&self) -> (r: bool)
        requires
            self.wf(),
        ensures
            r == all_full(self.slots()),
    {
        self.stored.is_full()
    }

    /// Brings in what `new` has on hand, slot by slot and never beyond what
    /// fits. The products of `new` for which the machine has no slot change
    /// nothing and are handed back.
    pub fn stock(&mut self, new: Stock) -> (r: Vec<Product>)
        requires
            old(self).wf(),
            new.wf(),
        ensures
            final(self).wf(),
            final(self).slots() == restocked(old(self).slots(), new@),
            final(self).till() == old(self).till(),
            lists(r@, turned_away(old(self).slots(), new@)),
    {
        self.stored.restock(new)
    }

    /// Sells one unit of `what` for the coins `money`, where `sells` allows
    /// it: the unit leaves its slot, the payment is settled into the till,
    /// and the product comes back with the change. Otherwise the machine
    /// stays as it was.
    pub fn purchase(&mut self, what: Product, money: InCoins) -> (r: Option<Purchase>)
        requires
            old(self).wf(),
            fits(old(self).till(), money@),
        ensures
            final(self).wf(),
            r.is_some() == sells(old(self).slots(), old(self).till(), what@, money@),
            match r {
                Some((given, change)) => {
                    &&& given@ == what@
                    &&& change@ == traded_change(old(self).till(), money@, what.price as nat)
                    &&& final(self).till() == traded_rest(
                        old(self).till(),
                        money@,
                        what.price as nat,
                    )
                    &&& final(self).slots() == sold(old(self).slots(), what@)
                },
                None => {
                    &&& final(self).slots() == old(self).slots()
                    &&& final(self).till() == old(self).till()
                },
            },
    {
        match self.stored.get(&what) {
            Some((on_hand, _)) => {
                if on_hand > 1 {
                    match self.has.trade(&money, what.price) {
                        Some((rest, change)) => {
                            self.has = rest;
                            self.stored.update(&what, on_hand - 1);
                            Some((what, change))
                        },
                        None => None,
                    }
                } else {
                    None
                }
            },
            None => None,
        }
    }
}

/// A vending machine held in the state `S`.
pub struct SafeVendingMachine<S: Seal>(VendingMachine, PhantomData<S>);

/// What restocking gives: a machine that can accept more, or a full one.
pub enum Stocked {
    CanAccept(SafeVendingMachine<CanAccept>),
    Full(SafeVendingMachine<Full>),
}

/// What a purchase leaves: an empty machine, or one that holds something.
pub enum Purchased {
    Empty(SafeVendingMachine<Empty>),
    CanAccept(SafeVendingMachine<CanAccept>),
}

impl<S: Seal> SafeVendingMachine<S> {
    /// The levels of each product.
    pub closed spec fn slots(&self) -> Map<ProductKey, Levels> {
        self.0.slots()
    }

    /// The coins in the till.
    pub closed spec fn till(&self) -> Seq<nat> {
        self.0.till()
    }

    /// Whether the machine is sound and its slots are as the state says.
    pub closed spec fn wf(&self) -> bool {
        &&& self.0.wf()
        &&& S::admits(self.0.slots())
    }

    /// What holds of the slots of a sound machine in state `S`.
    pub proof fn lemma_state(&self)
        requires
            self.wf(),
        ensures
            S::admits(self.slots()),
            within_capacity(self.slots()),
    {
    }

    /// The machine itself, to look at.
    pub fn machine(&self) -> (r: &VendingMachine)
        requires
            self.wf(),
        ensures
            r.wf(),
            r.slots() == self.slots(),
            r.till() == self.till(),
    {
        &self.0
    }
}

/// The machine `m` held in the state that its slots call for after a
/// restock: full where every slot is, able to accept otherwise.
fn stocked(m: VendingMachine) -> (r: Stocked)
    requires
        m.wf(),
    ensures
        match r {
            Stocked::Full(f) => all_full(m.slots()) && f.wf() && f.slots() == m.slots() && f.till()
                == m.till(),
            Stocked::CanAccept(c) => !all_full(m.slots()) && c.wf() && c.slots() == m.slots()
                && c.till() == m.till(),
        },
{
    if m.is_full() {
        Stocked::Full(SafeVendingMachine(m, PhantomData))
    } else {
        Stocked::CanAccept(SafeVendingMachine(m, PhantomData))
    }
}

/// The machine `m` held in the state that its slots call for after a
/// purchase: empty where every slot is, able to accept otherwise.
fn purchased(m: VendingMachine) -> (r: Purchased)
    requires
        m.wf(),
    ensures
        match r {
            Purchased::Empty(e) => all_empty(m.slots()) && e.wf() && e.slots() == m.slots()
                && e.till() == m.till(),
            Purchased::CanAccept(c) => !all_empty(m.slots()) && c.wf() && c.slots() == m.slots()
                && c.till() == m.till(),
        },
{
    if m.is_empty() {
        Purchased::Empty(SafeVendingMachine(m, PhantomData))
    } else {
        Purchased::CanAccept(SafeVendingMachine(m, PhantomData))
    }
}

impl SafeVendingMachine<Empty> {
    /// An empty machine with the given slots and till. There is none where
    /// the table has something on hand.
    pub fn new(stored: Stock, has: InCoins) -> (r: Option<SafeVendingMachine<Empty>>)
        requires
            stored.wf(),
        ensures
            r.is_some() == all_empty(stored@),
            r matches Some(m) ==> m.wf() && m.slots() == stored@ && m.till() == has@,
    {
        if stored.is_empty() {
            match VendingMachine::new(stored, has) {
                Some(m) => Some(SafeVendingMachine(m, PhantomData)),
                None => None,
            }
        } else {
            None
        }
    }

    /// Restocks the machine and holds it in the state that its slots then
    /// call for. The products of `goods` that have no slot are handed back.
    pub fn stock(self, goods: Stock) -> (r: (Stocked, Vec<Product>))
        requires
            self.wf(),
            goods.wf(),
        ensures
            stocked_as(r.0, restocked(self.slots(), goods@), self.till()),
            lists(r.1@, turned_away(self.slots(), goods@)),
    {
        let mut m = self.0;
        let rejected = m.stock(goods);
        (stocked(m), rejected)
    }
}

impl SafeVendingMachine<CanAccept> {
    /// Restocks the machine and holds it in the state that its slots then
    /// call for. The products of `goods` that have no slot are handed back.
    pub fn stock(self, goods: Stock) -> (r: (Stocked, Vec<Product>))
        requires
            self.wf(),
            goods.wf(),
        ensures
            stocked_as(r.0, restocked(self.slots(), goods@), self.till()),
            lists(r.1@, turned_away(self.slots(), goods@)),
    {
        let mut m = self.0;
        let rejected = m.stock(goods);
        (stocked(m), rejected)
    }

    /// Sells one unit of `what` for the coins `money` where `sells` allows
    /// it, and holds the machine in the state that its slots then call for.
    pub fn purchase(self, what: Product, money: InCoins) -> (r: (Option<Purchase>, Purchased))
        requires
            self.wf(),
            fits(self.till(), money@),
        ensures
            r.0.is_some() == sells(self.slots(), self.till(), what@, money@),
            match r.0 {
                Some((given, change)) => {
                    &&& given@ == what@
                    &&& change@ == traded_change(self.till(), money@, what.price as nat)
                    &&& purchased_as(
                        r.1,
                        sold(self.slots(), what@),
                        traded_rest(self.till(), money@, what.price as nat),
                    )
                },
                None => purchased_as(r.1, self.slots(), self.till()),
            },
    {
        let mut m = self.0;
        let result = m.purchase(what, money);
        (result, purchased(m))
    }
}

impl SafeVendingMachine<Full> {
    /// Sells one unit of `what` for the coins `money` where `sells` allows
    /// it, and holds the machine in the state that its slots then call for.
    pub fn purchase(self, what: Product, money: InCoins) -> (r: (Option<Purchase>, Purchased))
        requires
            self.wf(),
            fits(self.till(), money@),
        ensures
            r.0.is_some() == sells(self.slots(), self.till(), what@, money@),
            match r.0 {
                Some((given, change)) => {
                    &&& given@ == what@
                    &&& change@ == traded_change(self.till(), money@, what.price as nat)
                    &&& purchased_as(
                        r.1,
                        sold(self.slots(), what@),
                        traded_rest(self.till(), money@, what.price as nat),
                    )
                },
                None => purchased_as(r.1, self.slots(), self.till()),
            },
    {
        let mut m = self.0;
        let result = m.purchase(what, money);
        (result, purchased(m))
    }
}

/// Whether `r` is a sound machine with these slots and this till, held as
/// full exactly where every slot is full.
pub open spec fn stocked_as(r: Stocked, slots: Map<ProductKey, Levels>, till: Seq<nat>) -> bool {
    match r {
        Stocked::Full(m) => all_full(slots) && m.wf() && m.slots() == slots && m.till() == till,
        Stocked::CanAccept(m) => !all_full(slots) && m.wf() && m.slots() == slots && m.till()
            == till,
    }
}

/// Whether `r` is a sound machine with these slots and this till, held as
/// empty exactly where every slot is empty.
pub open spec fn purchased_as(r: Purchased, slots: Map<ProductKey, Levels>, till: Seq<nat>) -> bool {
    match r {
        Purchased::Empty(m) => all_empty(slots) && m.wf() && m.slots() == slots && m.till() == till,
        Purchased::CanAccept(m) => !all_empty(slots) && m.wf() && m.slots() == slots && m.till()
            == till,
    }
}

/// Whether some slot can hold at least one unit.
pub open spec fn has_room_for_goods(slots: Map<ProductKey, Levels>) -> bool {
    exists|k: ProductKey| slots.contains_key(k) && (#[trigger] slots[k]).1 > 0
}

/// Of slots of which one can hold something, exactly one holds: they are
/// all empty, they are all full, or they are neither.
pub proof fn lemma_one_occupancy(slots: Map<ProductKey, Levels>)
    requires
        has_room_for_goods(slots),
    ensures
        !(all_empty(slots) && all_full(slots)),
        (all_empty(slots) && !all_full(slots)) || (!all_empty(slots) && all_full(slots)) || (
        !all_empty(slots) && !all_full(slots)),
{
    let k = choose|k: ProductKey| slots.contains_key(k) && (#[trigger] slots[k]).1 > 0;
    if all_empty(slots) {
        assert(slots[k].0 == 0);
    }
}

/// After a restock that left something on hand, the state of the machine
/// says exactly how its slots are: full, or neither full nor empty.
pub proof fn lemma_stocked_state(r: Stocked, slots: Map<ProductKey, Levels>, till: Seq<nat>)
    requires
        stocked_as(r, slots, till),
        !all_empty(slots),
    ensures
        r is Full <==> all_full(slots),
        r is CanAccept <==> !all_empty(slots) && !all_full(slots),
{
}

/// After a purchase that left room in some slot, the state of the machine
/// says exactly how its slots are: empty, or neither empty nor full.
pub proof fn lemma_purchased_state(r: Purchased, slots: Map<ProductKey, Levels>, till: Seq<nat>)
    requires
        purchased_as(r, slots, till),
        !all_full(slots),
    ensures
        r is Empty <==> all_empty(slots),
        r is CanAccept <==> !all_empty(slots) && !all_full(slots),
{
}

/// A sale leaves slots that are neither all empty nor all full: the slot
/// sold from keeps a unit and has room for one.
pub proof fn lemma_sale_leaves_room(slots: Map<ProductKey, Levels>, what: ProductKey)
    requires
        within_capacity(slots),
        slots.contains_key(what),
        slots[what].0 > 1,
    ensures
        within_capacity(sold(slots, what)),
        !all_empty(sold(slots, what)),
        !all_full(sold(slots, what)),
{
    let after = sold(slots, what);
    assert(after.contains_key(what));
    assert(after[what].0 == slots[what].0 - 1);
    assert(slots[what].0 <= slots[what].1);
}

} // verus!
