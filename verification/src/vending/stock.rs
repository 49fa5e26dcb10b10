//! Products and the table of what a machine holds of each.

use vstd::prelude::*;

verus! {

/// What identifies a product in contracts: its name and its price.
pub type ProductKey = (Seq<char>, u32);

/// The levels of one product: what is on hand, then what fits.
pub type Levels = (u8, u8);

/// Something a machine sells, known by its name and its price.
#[derive(Debug)]
pub struct Product {
    pub name: String,
    pub price: u32,
}

impl View for Product {
    type V = ProductKey;

    open spec fn view(&self) -> ProductKey {
        (self.name@, self.price)
    }
}

impl Clone for Product {
    fn clone(&self) -> (r: Self)
        ensures
            r@ == self@,
    {
        Product { name: self.name.clone(), price: self.price }
    }
}

impl Product {
    /// A product with the given name and price.
    pub fn new(name: &str, price: u32) -> (r: Product)
        ensures
            r@ == (name@, price),
    {
        Product { name: name.to_owned(), price }
    }

    /// Whether two products are the same: same name, same price.
    pub fn same(&self, other: &Product) -> (r: bool)
        ensures
            r == (self@ == other@),
    {
        self.price == other.price && self.name == other.name
    }
}

/// Whether nothing is on hand of any product.
pub open spec fn all_empty(slots: Map<ProductKey, Levels>) -> bool {
    forall|k: ProductKey| slots.contains_key(k) ==> (#[trigger] slots[k]).0 == 0
}

/// Whether every product is stocked to what fits.
pub open spec fn all_full(slots: Map<ProductKey, Levels>) -> bool {
    forall|k: ProductKey| slots.contains_key(k) ==> (#[trigger] slots[k]).0 == slots[k].1
}

/// Whether no product is stocked beyond what fits.
pub open spec fn within_capacity(slots: Map<ProductKey, Levels>) -> bool {
    forall|k: ProductKey| slots.contains_key(k) ==> (#[trigger] slots[k]).0 <= slots[k].1
}

/// What is on hand after `added` more units come to a slot with `levels`:
/// the sum, cut off at what fits.
pub open spec fn topped_up(levels: Levels, added: u8) -> Levels {
    if levels.0 + added <= levels.1 {
        ((levels.0 + added) as u8, levels.1)
    } else {
        (levels.1, levels.1)
    }
}

/// The table after a restock: every product keeps its slot, and those that
/// `additions` names are topped up by what it brings on hand.
pub open spec fn restocked(
    slots: Map<ProductKey, Levels>,
    additions: Map<ProductKey, Levels>,
) -> Map<ProductKey, Levels> {
    Map::new(
        |k: ProductKey| slots.contains_key(k),
        |k: ProductKey|
            if additions.contains_key(k) {
                topped_up(slots[k], additions[k].0)
            } else {
                slots[k]
            },
    )
}

/// The products of `additions` for which the table has no slot.
pub open spec fn turned_away(
    slots: Map<ProductKey, Levels>,
    additions: Map<ProductKey, Levels>,
) -> Set<ProductKey> {
    additions.dom().difference(slots.dom())
}

/// Whether `list` names each product of `keys` once, and no other.
pub open spec fn lists(list: Seq<Product>, keys: Set<ProductKey>) -> bool {
    &&& forall|i: int| 0 <= i < list.len() ==> keys.contains(#[trigger] list[i]@)
    &&& forall|k: ProductKey|
        keys.contains(k) ==> exists|i: int| 0 <= i < list.len() && #[trigger] list[i]@ == k
    &&& forall|i: int, j: int| 0 <= i < j < list.len() ==> list[i]@ != list[j]@
}

/// A table from products to their levels. No product has two slots.
pub struct Stock {
    products: Vec<Product>,
    levels: Vec<Levels>,
}

spec fn holds_at(products: Seq<Product>, k: ProductKey, i: int) -> bool {
    0 <= i < products.len() && products[i]@ == k
}

spec fn distinct(products: Seq<Product>) -> bool {
    forall|i: int, j: int| 0 <= i < j < products.len() ==> products[i]@ != products[j]@
}

spec fn slot_of(products: Seq<Product>, k: ProductKey) -> int {
    choose|i: int| holds_at(products, k, i)
}

spec fn table(products: Seq<Product>, levels: Seq<Levels>) -> Map<ProductKey, Levels> {
    Map::new(
        |k: ProductKey| exists|i: int| holds_at(products, k, i),
        |k: ProductKey| levels[slot_of(products, k)],
    )
}

proof fn lemma_table_at(products: Seq<Product>, levels: Seq<Levels>, i: int)
    requires
        distinct(products),
        0 <= i < products.len(),
    ensures
        table(products, levels).contains_key(products[i]@),
        table(products, levels)[products[i]@] == levels[i],
{
    let k = products[i]@;
    assert(holds_at(products, k, i));
    let j = slot_of(products, k);
    assert(holds_at(products, k, j));
    if j < i {
        assert(products[j]@ != products[i]@);
    } else if i < j {
        assert(products[i]@ != products[j]@);
    }
}

proof fn lemma_table_absent(products: Seq<Product>, levels: Seq<Levels>, k: ProductKey)
    requires
        forall|i: int| 0 <= i < products.len() ==> products[i]@ != k,
    ensures
        !table(products, levels).contains_key(k),
{
    assert forall|i: int| !holds_at(products, k, i) by {}
}

spec fn named_from(products: Seq<Product>, k: ProductKey, from: int) -> bool {
    exists|j: int| from <= j && holds_at(products, k, j)
}

proof fn lemma_table_is(products: Seq<Product>, levels: Seq<Levels>, m: Map<ProductKey, Levels>)
    requires
        distinct(products),
        forall|i: int|
            0 <= i < products.len() ==> m.contains_key(#[trigger] products[i]@) && m[products[i]@]
                == levels[i],
        forall|k: ProductKey| m.contains_key(k) ==> exists|i: int| holds_at(products, k, i),
    ensures
        table(products, levels) =~= m,
{
    let t = table(products, levels);
    assert forall|k: ProductKey| t.contains_key(k) implies m.contains_key(k) && t[k] == m[k] by {
        let i = slot_of(products, k);
        assert(holds_at(products, k, i));
        assert(m.contains_key(products[i]@));
    }
}

impl View for Stock {
    type V = Map<ProductKey, Levels>;

    closed spec fn view(&self) -> Map<ProductKey, Levels> {
        table(self.products@, self.levels@)
    }
}

impl Stock {
    /// Whether the table is sound: one slot for each product in it.
    pub closed spec fn wf(&self) -> bool {
        &&& self.products.len() == self.levels.len()
        &&& distinct(self.products@)
    }

    /// A table without products.
    pub fn new() -> (r: Stock)
        ensures
            r.wf(),
            r@ == Map::<ProductKey, Levels>::empty(),
    {
        let r = Stock { products: Vec::new(), levels: Vec::new() };
        assert(r@ =~= Map::<ProductKey, Levels>::empty()) by {
            assert forall|k: ProductKey| !r@.contains_key(k) by {
                lemma_table_absent(r.products@, r.levels@, k);
            }
        }
        r
    }

    fn find(&self, what: &Product) -> (r: Option<usize>)
        requires
            self.wf(),
        ensures
            match r {
                Some(i) => holds_at(self.products@, what@, i as int) && self@.contains_key(what@)
                    && self@[what@] == self.levels[i as int],
                None => !self@.contains_key(what@),
            },
    {
        let mut i: usize = 0;
        while i < self.products.len()
            invariant
                i <= self.products.len(),
                self.wf(),
                forall|j: int| 0 <= j < i ==> self.products[j]@ != what@,
            decreases self.products.len() - i,
        {
            if self.products[i].same(what) {
                proof {
                    lemma_table_at(self.products@, self.levels@, i as int);
                }
                return Some(i);
            }
            i = i + 1;
        }
        proof {
            lemma_table_absent(self.products@, self.levels@, what@);
        }
        None
    }

    /// Gives a product its slot with the given levels, in place of the slot
    /// it had, whose levels are returned.
    pub fn insert(&mut self, what: Product, on_hand: u8, capacity: u8) -> (r: Option<Levels>)
        requires
            old(self).wf(),
        ensures
            final(self).wf(),
            final(self)@ == old(self)@.insert(what@, (on_hand, capacity)),
            r == (if old(self)@.contains_key(what@) {
                Some(old(self)@[what@])
            } else {
                None
            }),
    {
        let ghost before = *self;
        let ghost after = before@.insert(what@, (on_hand, capacity));
        match self.find(&what) {
            Some(i) => {
                let had = self.levels[i];
                self.levels.set(i, (on_hand, capacity));
                proof {
                    assert forall|j: int| 0 <= j < self.products.len() implies after.contains_key(
                        #[trigger] self.products[j]@,
                    ) && after[self.products[j]@] == self.levels[j] by {
                        lemma_table_at(before.products@, before.levels@, j);
                    }
                    lemma_table_is(self.products@, self.levels@, after);
                }
                Some(had)
            },
            None => {
                let ghost key = what@;
                self.products.push(what);
                self.levels.push((on_hand, capacity));
                proof {
                    let n = before.products.len() as int;
                    assert forall|i: int, j: int|
                        0 <= i < j < self.products.len() implies self.products[i]@
                        != self.products[j]@ by {
                        if j == n {
                            lemma_table_at(before.products@, before.levels@, i);
                        }
                    }
                    assert forall|j: int| 0 <= j < self.products.len() implies after.contains_key(
                        #[trigger] self.products[j]@,
                    ) && after[self.products[j]@] == self.levels[j] by {
                        if j < n {
                            lemma_table_at(before.products@, before.levels@, j);
                        }
                    }
                    assert forall|k: ProductKey| after.contains_key(k) implies exists|i: int|
                        holds_at(self.products@, k, i) by {
                        if k == key {
                            assert(holds_at(self.products@, k, n));
                        } else {
                            let i = slot_of(before.products@, k);
                            assert(holds_at(before.products@, k, i));
                            assert(holds_at(self.products@, k, i));
                        }
                    }
                    lemma_table_is(self.products@, self.levels@, after);
                }
                None
            },
        }
    }

    /// Sets what is on hand of a product that has a slot, and says whether
    /// it has one. What fits stays as it is.
    pub fn update(&mut self, what: &Product, on_hand: u8) -> (r: bool)
        requires
            old(self).wf(),
        ensures
            final(self).wf(),
            r == old(self)@.contains_key(what@),
            r ==> final(self)@ == old(self)@.insert(what@, (on_hand, old(self)@[what@].1)),
            !r ==> final(self)@ == old(self)@,
    {
        let ghost before = *self;
        match self.find(what) {
            Some(i) => {
                let had = self.levels[i];
                self.levels.set(i, (on_hand, had.1));
                proof {
                    let after = before@.insert(what@, (on_hand, had.1));
                    assert forall|j: int| 0 <= j < self.products.len() implies after.contains_key(
                        #[trigger] self.products[j]@,
                    ) && after[self.products[j]@] == self.levels[j] by {
                        lemma_table_at(before.products@, before.levels@, j);
                    }
                    lemma_table_is(self.products@, self.levels@, after);
                }
                true
            },
            None => false,
        }
    }

    /// Whether nothing is on hand of any product.
    pub fn is_empty(&self) -> (r: bool)
        requires
            self.wf(),
        ensures
            r == all_empty(self@),
    {
        let mut i: usize = 0;
        while i < self.levels.len()
            invariant
                i <= self.levels.len(),
                self.wf(),
                forall|j: int| 0 <= j < i ==> (#[trigger] self.levels[j]).0 == 0,
            decreases self.levels.len() - i,
        {
            if self.levels[i].0 != 0 {
                proof {
                    lemma_table_at(self.products@, self.levels@, i as int);
                }
                return false;
            }
            i = i + 1;
        }
        proof {
            assert forall|k: ProductKey| self@.contains_key(k) implies (#[trigger] self@[k]).0
                == 0 by {
                let j = slot_of(self.products@, k);
                assert(holds_at(self.products@, k, j));
            }
        }
        true
    }

    /// Whether every product is stocked to what fits.
    pub fn is_full(&self) -> (r: bool)
        requires
            self.wf(),
        ensures
            r == all_full(self@),
    {
        let mut i: usize = 0;
        while i < self.levels.len()
            invariant
                i <= self.levels.len(),
                self.wf(),
                forall|j: int| 0 <= j < i ==> (#[trigger] self.levels[j]).0 == self.levels[j].1,
            decreases self.levels.len() - i,
        {
            if self.levels[i].0 != self.levels[i].1 {
                proof {
                    lemma_table_at(self.products@, self.levels@, i as int);
                }
                return false;
            }
            i = i + 1;
        }
        proof {
            assert forall|k: ProductKey| self@.contains_key(k) implies (#[trigger] self@[k]).0
                == self@[k].1 by {
                let j = slot_of(self.products@, k);
                assert(holds_at(self.products@, k, j));
            }
        }
        true
    }

    /// Whether no product is stocked beyond what fits.
    pub fn is_within_capacity(&self) -> (r: bool)
        requires
            self.wf(),
        ensures
            r == within_capacity(self@),
    {
        let mut i: usize = 0;
        while i < self.levels.len()
            invariant
                i <= self.levels.len(),
                self.wf(),
                forall|j: int| 0 <= j < i ==> (#[trigger] self.levels[j]).0 <= self.levels[j].1,
            decreases self.levels.len() - i,
        {
            if self.levels[i].0 > self.levels[i].1 {
                proof {
                    lemma_table_at(self.products@, self.levels@, i as int);
                }
                return false;
            }
            i = i + 1;
        }
        proof {
            assert forall|k: ProductKey| self@.contains_key(k) implies (#[trigger] self@[k]).0
                <= self@[k].1 by {
                let j = slot_of(self.products@, k);
                assert(holds_at(self.products@, k, j));
            }
        }
        true
    }

    /// Brings in what `additions` has on hand: each of its products that
    /// has a slot here is topped up, never beyond what fits. Those without
    /// a slot change nothing and are handed back.
    pub fn restock(&mut self, additions: Stock) -> (r: Vec<Product>)
        requires
            old(self).wf(),
            additions.wf(),
        ensures
            final(self).wf(),
            final(self)@ == restocked(old(self)@, additions@),
            lists(r@, turned_away(old(self)@, additions@)),
    {
        let ghost before = *self;
        let ghost adds = additions;
        let ghost total = additions.products.len() as int;
        let mut additions = additions;
        let mut rejected: Vec<Product> = Vec::new();
        while additions.products.len() > 0
            invariant
                self.wf(),
                before.wf(),
                adds.wf(),
                total == adds.products.len(),
                additions.products.len() == additions.levels.len(),
                additions.products.len() <= total,
                additions.products@ == adds.products@.take(additions.products.len() as int),
                additions.levels@ == adds.levels@.take(additions.levels.len() as int),
                self.products@ == before.products@,
                forall|i: int, j: int|
                    0 <= i < self.products.len() && additions.products.len() <= j < total
                        && adds.products[j]@ == self.products[i]@ ==> #[trigger] self.levels[i]
                        == topped_up(before.levels[i], (#[trigger] adds.levels[j]).0),
                forall|i: int|
                    0 <= i < self.products.len() && (forall|j: int|
                        additions.products.len() <= j < total ==> (#[trigger] adds.products[j])@
                            != self.products[i]@) ==> #[trigger] self.levels[i] == before.levels[i],
                forall|i: int|
                    0 <= i < rejected.len() ==> named_from(
                        adds.products@,
                        #[trigger] rejected[i]@,
                        additions.products.len() as int,
                    ),
                forall|i: int| 0 <= i < rejected.len() ==> !before@.contains_key(#[trigger] rejected[i]@),
                forall|j: int|
                    additions.products.len() <= j < total && !before@.contains_key(
                        adds.products[j]@,
                    ) ==> exists|i: int| 0 <= i < rejected.len() && #[trigger] rejected[i]@
                        == adds.products[j]@,
                forall|i: int, j: int| 0 <= i < j < rejected.len() ==> rejected[i]@ != rejected[j]@,
            decreases additions.products.len(),
        {
            let ghost n = additions.products.len() - 1;
            let ghost levels_before = self.levels@;
            let ghost rejected_before = rejected@;
            let what = additions.products.pop().unwrap();
            let brought = additions.levels.pop().unwrap();
            assert(what@ == adds.products[n]@);
            assert(brought == adds.levels[n]);
            match self.find(&what) {
                Some(i) => {
                    let had = self.levels[i];
                    let sum: u16 = had.0 as u16 + brought.0 as u16;
                    let now: Levels = if sum <= had.1 as u16 {
                        (sum as u8, had.1)
                    } else {
                        (had.1, had.1)
                    };
                    self.levels.set(i, now);
                    proof {
                        assert forall|i2: int, j: int|
                            0 <= i2 < self.products.len() && n <= j < total && adds.products[j]@
                                == self.products[i2]@ implies #[trigger] self.levels[i2]
                            == topped_up(before.levels[i2], (#[trigger] adds.levels[j]).0) by {
                            if j == n {
                                // the product popped has one slot here: `i`
                                if i2 != i {
                                    if i2 < i {
                                        assert(self.products[i2]@ != self.products[i as int]@);
                                    } else {
                                        assert(self.products[i as int]@ != self.products[i2]@);
                                    }
                                }
                                // nothing that came before it named the same product
                                assert forall|j2: int| n < j2 < total implies (
                                #[trigger] adds.products[j2])@ != self.products[i2]@ by {
                                    assert(adds.products[n]@ != adds.products[j2]@);
                                }
                                assert(levels_before[i2] == before.levels[i2]);
                            } else {
                                assert(adds.products[n]@ != adds.products[j]@);
                                if i2 < i {
                                    assert(self.products[i2]@ != self.products[i as int]@);
                                } else if i < i2 {
                                    assert(self.products[i as int]@ != self.products[i2]@);
                                }
                                assert(levels_before[i2] == topped_up(
                                    before.levels[i2],
                                    adds.levels[j].0,
                                ));
                            }
                        }
                        assert forall|i2: int|
                            0 <= i2 < self.products.len() && (forall|j: int|
                                n <= j < total ==> (#[trigger] adds.products[j])@
                                    != self.products[i2]@) implies #[trigger] self.levels[i2]
                            == before.levels[i2] by {
                            assert(adds.products[n]@ != self.products[i2]@);
                            assert(i2 != i);
                            assert(levels_before[i2] == before.levels[i2]);
                        }
                        assert forall|r: int| 0 <= r < rejected.len() implies named_from(
                            adds.products@,
                            #[trigger] rejected[r]@,
                            n,
                        ) by {
                            assert(named_from(adds.products@, rejected[r]@, n + 1));
                            let j = choose|j: int|
                                n + 1 <= j && holds_at(adds.products@, rejected[r]@, j);
                            assert(n <= j && holds_at(adds.products@, rejected[r]@, j));
                        }
                        lemma_table_at(before.products@, before.levels@, i as int);
                    }
                },
                None => {
                    rejected.push(what);
                    proof {
                        let last = rejected.len() - 1;
                        assert(rejected[last]@ == adds.products[n]@);
                        assert(holds_at(adds.products@, rejected[last]@, n));
                        assert forall|r: int| 0 <= r < rejected.len() implies named_from(
                            adds.products@,
                            #[trigger] rejected[r]@,
                            n,
                        ) by {
                            if r < last {
                                assert(rejected[r] == rejected_before[r]);
                                assert(named_from(adds.products@, rejected_before[r]@, n + 1));
                                let j = choose|j: int|
                                    n + 1 <= j && holds_at(adds.products@, rejected_before[r]@, j);
                                assert(n <= j && holds_at(adds.products@, rejected[r]@, j));
                            }
                        }
                        assert forall|j: int|
                            n <= j < total && !before@.contains_key(
                                adds.products[j]@,
                            ) implies exists|r: int| 0 <= r < rejected.len() && #[trigger] rejected[r]@
                            == adds.products[j]@ by {
                            if j == n {
                                assert(rejected[last]@ == adds.products[j]@);
                            } else {
                                let r = choose|r: int|
                                    0 <= r < rejected_before.len() && #[trigger] rejected_before[r]@
                                        == adds.products[j]@;
                                assert(rejected[r]@ == adds.products[j]@);
                            }
                        }
                        assert forall|a: int, b: int|
                            0 <= a < b < rejected.len() implies rejected[a]@ != rejected[b]@ by {
                            if b == last {
                                assert(rejected[a] == rejected_before[a]);
                                assert(named_from(adds.products@, rejected_before[a]@, n + 1));
                                let j = choose|j: int|
                                    n + 1 <= j && holds_at(adds.products@, rejected_before[a]@, j);
                                assert(adds.products[n]@ != adds.products[j]@);
                            } else {
                                assert(rejected_before[a]@ != rejected_before[b]@);
                            }
                        }
                        assert forall|i2: int, j: int|
                            0 <= i2 < self.products.len() && n <= j < total && adds.products[j]@
                                == self.products[i2]@ implies #[trigger] self.levels[i2]
                            == topped_up(before.levels[i2], (#[trigger] adds.levels[j]).0) by {
                            if j == n {
                                lemma_table_at(before.products@, before.levels@, i2);
                            }
                        }
                        assert forall|i2: int|
                            0 <= i2 < self.products.len() && (forall|j: int|
                                n <= j < total ==> (#[trigger] adds.products[j])@
                                    != self.products[i2]@) implies #[trigger] self.levels[i2]
                            == before.levels[i2] by {
                            assert forall|j: int| n + 1 <= j < total implies (
                            #[trigger] adds.products[j])@ != self.products[i2]@ by {}
                        }
                    }
                },
            }
        }
        proof {
            let goal = restocked(before@, adds@);
            assert forall|i: int| 0 <= i < self.products.len() implies goal.contains_key(
                #[trigger] self.products[i]@,
            ) && goal[self.products[i]@] == self.levels[i] by {
                let k = self.products[i]@;
                lemma_table_at(before.products@, before.levels@, i);
                if adds@.contains_key(k) {
                    let j = slot_of(adds.products@, k);
                    assert(holds_at(adds.products@, k, j));
                    lemma_table_at(adds.products@, adds.levels@, j);
                    assert(self.levels[i] == topped_up(before.levels[i], adds.levels[j].0));
                } else {
                    assert forall|j: int| 0 <= j < total implies (#[trigger] adds.products[j])@
                        != k by {
                        if adds.products[j]@ == k {
                            lemma_table_at(adds.products@, adds.levels@, j);
                        }
                    }
                }
            }
            assert forall|k: ProductKey| goal.contains_key(k) implies exists|i: int|
                holds_at(self.products@, k, i) by {
                let i = slot_of(before.products@, k);
                assert(holds_at(before.products@, k, i));
                assert(holds_at(self.products@, k, i));
            }
            lemma_table_is(self.products@, self.levels@, goal);
            let away = turned_away(before@, adds@);
            assert forall|i: int| 0 <= i < rejected.len() implies away.contains(
                #[trigger] rejected[i]@,
            ) by {
                assert(named_from(adds.products@, rejected[i]@, 0));
                let j = choose|j: int| 0 <= j && holds_at(adds.products@, rejected[i]@, j);
                lemma_table_at(adds.products@, adds.levels@, j);
            }
            assert forall|k: ProductKey| away.contains(k) implies exists|i: int|
                0 <= i < rejected.len() && #[trigger] rejected[i]@ == k by {
                let j = slot_of(adds.products@, k);
                assert(holds_at(adds.products@, k, j));
            }
        }
        rejected
    }

    /// The levels of a product, where the table has a slot for it.
    pub fn get(&self, what: &Product) -> (r: Option<Levels>)
        requires
            self.wf(),
        ensures
            r == (if self@.contains_key(what@) {
                Some(self@[what@])
            } else {
                None
            }),
    {
        match self.find(what) {
            Some(i) => Some(self.levels[i]),
            None => None,
        }
    }
}

} // verus!
