//! Coin ledgers over a fixed, descending set of denominations.

use vstd::prelude::*;

verus! {

/// The face values of the coins, largest first.
pub const COINS: [u32; 6] = [50, 20, 10, 5, 2, 1];

/// The face value of the denomination at position `i`.
pub open spec fn face(i: int) -> nat {
    if i == 0 {
        50
    } else if i == 1 {
        20
    } else if i == 2 {
        10
    } else if i == 3 {
        5
    } else if i == 4 {
        2
    } else {
        1
    }
}

/// The value of the coins counted in the first `n` positions of `counts`.
pub open spec fn value_upto(counts: Seq<nat>, n: nat) -> nat
    decreases n,
{
    if n == 0 {
        0
    } else {
        value_upto(counts, (n - 1) as nat) + face(n - 1) * counts[n - 1]
    }
}

/// The value of a whole ledger: each count times its face value, summed.
pub open spec fn value_of(counts: Seq<nat>) -> nat {
    value_upto(counts, 6)
}

/// What is left of `sum` once each of the first `n` denominations has taken
/// as many coins as fit into what the ones before it left.
pub open spec fn left_after(sum: nat, n: nat) -> nat
    decreases n,
{
    if n == 0 {
        sum
    } else {
        left_after(sum, (n - 1) as nat) % face(n - 1)
    }
}

/// The largest-first decomposition of `sum` with no limit on the coins.
pub open spec fn greedy(sum: nat) -> Seq<nat> {
    Seq::new(6, |i: int| left_after(sum, i as nat) / face(i))
}

/// How many coins of one denomination go towards `owed` when `have` of them
/// are at hand: as many as fit, and no more than there are.
pub open spec fn take(have: nat, owed: nat, face: nat) -> nat {
    if have <= owed / face {
        have
    } else {
        owed / face
    }
}

/// What is still owed of `sum` once each of the first `n` denominations of
/// `have` has given what `take` allows, largest first.
pub open spec fn owed_after(have: Seq<nat>, sum: nat, n: nat) -> nat
    decreases n,
{
    if n == 0 {
        sum
    } else {
        let owed = owed_after(have, sum, (n - 1) as nat);
        (owed - take(have[n - 1], owed, face(n - 1)) * face(n - 1)) as nat
    }
}

/// The coins that the single largest-first pass picks out of `have` for `sum`.
pub open spec fn change_from(have: Seq<nat>, sum: nat) -> Seq<nat> {
    Seq::new(6, |i: int| take(have[i], owed_after(have, sum, i as nat), face(i)))
}

/// Whether the single largest-first pass over `have` pays `sum` exactly.
pub open spec fn can_pay(have: Seq<nat>, sum: nat) -> bool {
    owed_after(have, sum, 6) == 0
}

/// Two ledgers put together, count by count.
pub open spec fn pooled(a: Seq<nat>, b: Seq<nat>) -> Seq<nat> {
    Seq::new(6, |i: int| a[i] + b[i])
}

/// A ledger with the coins of `b` taken out, count by count.
pub open spec fn without(a: Seq<nat>, b: Seq<nat>) -> Seq<nat> {
    Seq::new(6, |i: int| (a[i] - b[i]) as nat)
}

/// Whether every count of `b` is covered by the count of `a` in its place.
pub open spec fn covers(a: Seq<nat>, b: Seq<nat>) -> bool {
    forall|i: int| 0 <= i < 6 ==> b[i] <= a[i]
}

/// Whether the counts of two ledgers can be added without leaving `u32`.
pub open spec fn fits(a: Seq<nat>, b: Seq<nat>) -> bool {
    forall|i: int| 0 <= i < 6 ==> a[i] + b[i] <= u32::MAX
}

/// Whether a payment of `price` with the coins `theirs` into the ledger `mine`
/// can be settled: the coins are worth the price, and the pool of both can
/// give the change.
pub open spec fn trade_succeeds(mine: Seq<nat>, theirs: Seq<nat>, price: nat) -> bool {
    &&& value_of(theirs) >= price
    &&& can_pay(pooled(mine, theirs), (value_of(theirs) - price) as nat)
}

/// The change that a settled payment gives back.
pub open spec fn traded_change(mine: Seq<nat>, theirs: Seq<nat>, price: nat) -> Seq<nat> {
    change_from(pooled(mine, theirs), (value_of(theirs) - price) as nat)
}

/// The ledger that a settled payment leaves behind.
pub open spec fn traded_rest(mine: Seq<nat>, theirs: Seq<nat>, price: nat) -> Seq<nat> {
    without(pooled(mine, theirs), traded_change(mine, theirs, price))
}

/// A count of coins for each denomination of `COINS`, position by position.
#[derive(Clone, Copy, Debug, PartialEq, Eq)]
pub struct InCoins(pub [u32; 6]);

impl View for InCoins {
    type V = Seq<nat>;

    open spec fn view(&self) -> Seq<nat> {
        Seq::new(6, |i: int| self.0[i] as nat)
    }
}

impl InCoins {
    /// Decomposes `sum` largest denomination first, with no limit on the
    /// coins: at each denomination the quotient is taken and the remainder
    /// goes on to the next.
    pub fn money(sum: u32) -> (r: Self)
        ensures
            r@ == greedy(sum as nat),
            value_of(r@) == sum,
    {
        let mut coins: [u32; 6] = [0, 0, 0, 0, 0, 0];
        let mut left: u32 = sum;
        let mut i: usize = 0;
        while i < 6
            invariant
                i <= 6,
                left == left_after(sum as nat, i as nat),
                forall|j: int| 0 <= j < i ==> coins[j] == left_after(sum as nat, j as nat) / face(j),
            decreases 6 - i,
        {
            let d: u32 = COINS[i];
            assert(d == face(i as int));
            coins[i] = left / d;
            left = left % d;
            i = i + 1;
        }
        let r = InCoins(coins);
        proof {
            assert(r@ =~= greedy(sum as nat));
            lemma_greedy_value(sum as nat);
        }
        r
    }

    /// Picks coins out of this ledger that add up to `sum`, in one pass from
    /// the largest denomination to the smallest: each gives as many coins as
    /// fit into what is still owed, and no more than the ledger holds. The
    /// pass never goes back on a choice, so a sum that only another choice
    /// of coins would reach is reported as `None`.
    pub fn coins_for_sum(&self, sum: u64) -> (r: Option<InCoins>)
        ensures
            r.is_some() == can_pay(self@, sum as nat),
            r matches Some(picked) ==> {
                &&& picked@ == change_from(self@, sum as nat)
                &&& value_of(picked@) == sum
                &&& covers(self@, picked@)
            },
    {
        let mut coins: [u32; 6] = [0, 0, 0, 0, 0, 0];
        let mut owed: u64 = sum;
        let mut i: usize = 0;
        while i < 6
            invariant
                i <= 6,
                owed == owed_after(self@, sum as nat, i as nat),
                forall|j: int|
                    0 <= j < i ==> coins[j] == take(
                        self@[j],
                        owed_after(self@, sum as nat, j as nat),
                        face(j),
                    ),
            decreases 6 - i,
        {
            let d: u64 = COINS[i] as u64;
            assert(d == face(i as int));
            let fit: u64 = owed / d;
            let have: u32 = self.0[i];
            let n: u32 = if have as u64 <= fit {
                have
            } else {
                fit as u32
            };
            assert(n == take(self@[i as int], owed as nat, face(i as int)));
            assert(n * d <= owed) by (nonlinear_arith)
                requires
                    n <= owed / d,
                    d > 0,
            ;
            coins[i] = n;
            owed = owed - (n as u64) * d;
            i = i + 1;
        }
        if owed == 0 {
            let r = InCoins(coins);
            proof {
                assert(r@ =~= change_from(self@, sum as nat));
                lemma_change_exact(self@, sum as nat);
                lemma_change_within(self@, sum as nat);
            }
            Some(r)
        } else {
            None
        }
    }

    /// The two ledgers put together: each count is the sum of the two.
    pub fn combine(&self, other: &InCoins) -> (r: InCoins)
        requires
            fits(self@, other@),
        ensures
            r@ == pooled(self@, other@),
    {
        let mut coins: [u32; 6] = [0, 0, 0, 0, 0, 0];
        let mut i: usize = 0;
        while i < 6
            invariant
                i <= 6,
                fits(self@, other@),
                forall|j: int| 0 <= j < i ==> coins[j] == self@[j] + other@[j],
            decreases 6 - i,
        {
            assert(self@[i as int] + other@[i as int] <= u32::MAX);
            coins[i] = self.0[i] + other.0[i];
            i = i + 1;
        }
        let r = InCoins(coins);
        assert(r@ =~= pooled(self@, other@));
        r
    }

    /// This ledger with the coins of `other` taken out of it.
    pub fn subtract(&self, other: &InCoins) -> (r: InCoins)
        requires
            covers(self@, other@),
        ensures
            r@ == without(self@, other@),
    {
        let mut coins: [u32; 6] = [0, 0, 0, 0, 0, 0];
        let mut i: usize = 0;
        while i < 6
            invariant
                i <= 6,
                covers(self@, other@),
                forall|j: int| 0 <= j < i ==> coins[j] == self@[j] - other@[j],
            decreases 6 - i,
        {
            assert(other@[i as int] <= self@[i as int]);
            coins[i] = self.0[i] - other.0[i];
            i = i + 1;
        }
        let r = InCoins(coins);
        assert(r@ =~= without(self@, other@));
        r
    }

    /// Whether `other` can be added to this ledger count by count.
    pub fn can_combine(&self, other: &InCoins) -> (r: bool)
        ensures
            r == fits(self@, other@),
    {
        let mut i: usize = 0;
        while i < 6
            invariant
                i <= 6,
                forall|j: int| 0 <= j < i ==> self@[j] + other@[j] <= u32::MAX,
            decreases 6 - i,
        {
            if self.0[i] > u32::MAX - other.0[i] {
                assert(self@[i as int] + other@[i as int] > u32::MAX);
                return false;
            }
            i = i + 1;
        }
        true
    }

    /// Settles a payment of `price` made with the coins of `other` into this
    /// ledger. The two ledgers are pooled, the change owed is picked out of
    /// the pool by `coins_for_sum`, and what stays is the new ledger. The
    /// result is the new ledger and the change, in that order; there is none
    /// where `other` is worth less than `price` or the pool cannot give the
    /// change.
    pub fn trade(&self, other: &InCoins, price: u32) -> (r: Option<(InCoins, InCoins)>)
        requires
            fits(self@, other@),
        ensures
            r.is_some() == trade_succeeds(self@, other@, price as nat),
            r matches Some((rest, change)) ==> {
                &&& change@ == traded_change(self@, other@, price as nat)
                &&& rest@ == traded_rest(self@, other@, price as nat)
                &&& value_of(change@) + price == value_of(other@)
                &&& value_of(rest@) == value_of(self@) + price
                &&& covers(pooled(self@, other@), change@)
                &&& covers(pooled(self@, other@), rest@)
            },
    {
        let paid: u64 = other.total();
        if paid < price as u64 {
            return None;
        }
        let owed: u64 = paid - price as u64;
        let coins_got = self.combine(other);
        match coins_got.coins_for_sum(owed) {
            Some(change) => {
                let rest = coins_got.subtract(&change);
                proof {
                    lemma_trade_conserves(self@, other@, price as nat);
                    lemma_trade_within_pool(self@, other@, price as nat);
                }
                Some((rest, change))
            },
            None => None,
        }
    }

    /// The face value of all the coins together.
    pub fn total(&self) -> (r: u64)
        ensures
            r == value_of(self@),
    {
        let mut acc: u64 = 0;
        let mut i: usize = 0;
        while i < 6
            invariant
                i <= 6,
                acc == value_upto(self@, i as nat),
                acc <= 214_748_364_750 * i,
            decreases 6 - i,
        {
            let d: u64 = COINS[i] as u64;
            let c: u64 = self.0[i] as u64;
            assert(d == face(i as int) && d <= 50);
            assert(d * c <= 214_748_364_750) by (nonlinear_arith)
                requires
                    d <= 50,
                    c <= 0xffff_ffff,
            ;
            acc = acc + d * c;
            i = i + 1;
        }
        acc
    }
}

/// The denominations are positive and descend, down to the coin of one.
pub proof fn lemma_faces_descend()
    ensures
        forall|i: int| 0 <= i < 6 ==> face(i) > 0,
        forall|i: int, j: int| 0 <= i < j < 6 ==> face(i) > face(j),
        face(5) == 1,
        forall|i: int| 0 <= i < 6 ==> COINS[i] == face(i),
{
}

proof fn lemma_greedy_upto(sum: nat, n: nat)
    requires
        n <= 6,
    ensures
        value_upto(greedy(sum), n) + left_after(sum, n) == sum,
    decreases n,
{
    if n > 0 {
        let m = (n - 1) as nat;
        lemma_greedy_upto(sum, m);
        let left = left_after(sum, m);
        let f = face(m as int);
        assert(greedy(sum)[m as int] == left / f);
        assert(f * (left / f) + left % f == left) by (nonlinear_arith)
            requires
                f > 0,
        ;
    }
}

/// The largest-first decomposition of a sum is worth exactly that sum.
pub proof fn lemma_greedy_value(sum: nat)
    ensures
        value_of(greedy(sum)) == sum,
{
    lemma_greedy_upto(sum, 6);
    assert(left_after(sum, 6) == left_after(sum, 5) % 1);
}

proof fn lemma_change_upto(have: Seq<nat>, sum: nat, n: nat)
    requires
        n <= 6,
    ensures
        value_upto(change_from(have, sum), n) + owed_after(have, sum, n) == sum,
    decreases n,
{
    if n > 0 {
        let m = (n - 1) as nat;
        lemma_change_upto(have, sum, m);
        let owed = owed_after(have, sum, m);
        let f = face(m as int);
        let t = take(have[m as int], owed, f);
        assert(change_from(have, sum)[m as int] == t);
        assert(t * f <= owed) by (nonlinear_arith)
            requires
                t <= owed / f,
                f > 0,
        ;
        assert(f * t == t * f) by (nonlinear_arith);
    }
}

/// The coins picked for a sum never exceed that sum in value, and what they
/// fall short by is what the pass still owes at its end.
pub proof fn lemma_change_value(have: Seq<nat>, sum: nat)
    ensures
        value_of(change_from(have, sum)) + owed_after(have, sum, 6) == sum,
{
    lemma_change_upto(have, sum, 6);
}

/// Where the pass pays a sum, the coins it picked are worth exactly that sum.
pub proof fn lemma_change_exact(have: Seq<nat>, sum: nat)
    requires
        can_pay(have, sum),
    ensures
        value_of(change_from(have, sum)) == sum,
{
    lemma_change_value(have, sum);
}

/// The pass picks no more coins of a denomination than the ledger holds.
pub proof fn lemma_change_within(have: Seq<nat>, sum: nat)
    ensures
        covers(have, change_from(have, sum)),
{
}

proof fn lemma_enough_upto(have: Seq<nat>, sum: nat, n: nat)
    requires
        n <= 6,
        covers(have, greedy(sum)),
    ensures
        owed_after(have, sum, n) == left_after(sum, n),
    decreases n,
{
    if n > 0 {
        let m = (n - 1) as nat;
        lemma_enough_upto(have, sum, m);
        let left = left_after(sum, m);
        let f = face(m as int);
        assert(greedy(sum)[m as int] == left / f);
        assert(take(have[m as int], left, f) == left / f);
        assert(left - (left / f) * f == left % f) by (nonlinear_arith)
            requires
                f > 0,
        ;
    }
}

/// A ledger that holds the coins of the unlimited decomposition of a sum
/// pays that sum, and with exactly those coins.
pub proof fn lemma_enough_coins_pay_greedily(have: Seq<nat>, sum: nat)
    requires
        covers(have, greedy(sum)),
    ensures
        can_pay(have, sum),
        change_from(have, sum) == greedy(sum),
{
    lemma_enough_upto(have, sum, 6);
    assert(left_after(sum, 6) == left_after(sum, 5) % 1);
    assert forall|i: int| 0 <= i < 6 implies change_from(have, sum)[i] == greedy(sum)[i] by {
        lemma_enough_upto(have, sum, i as nat);
    }
    assert(change_from(have, sum) =~= greedy(sum));
}

proof fn lemma_pooled_upto(a: Seq<nat>, b: Seq<nat>, n: nat)
    requires
        n <= 6,
    ensures
        value_upto(pooled(a, b), n) == value_upto(a, n) + value_upto(b, n),
    decreases n,
{
    if n > 0 {
        let m = (n - 1) as nat;
        lemma_pooled_upto(a, b, m);
        let f = face(m as int);
        let x = a[m as int];
        let y = b[m as int];
        assert(f * (x + y) == f * x + f * y) by (nonlinear_arith);
    }
}

/// Two ledgers put together are worth what the two are worth.
pub proof fn lemma_pooled_value(a: Seq<nat>, b: Seq<nat>)
    ensures
        value_of(pooled(a, b)) == value_of(a) + value_of(b),
{
    lemma_pooled_upto(a, b, 6);
}

proof fn lemma_without_upto(a: Seq<nat>, b: Seq<nat>, n: nat)
    requires
        n <= 6,
        covers(a, b),
    ensures
        value_upto(without(a, b), n) + value_upto(b, n) == value_upto(a, n),
    decreases n,
{
    if n > 0 {
        let m = (n - 1) as nat;
        lemma_without_upto(a, b, m);
        let f = face(m as int);
        let x = a[m as int];
        let y = b[m as int];
        assert(y <= x);
        assert(f * (x - y) + f * y == f * x) by (nonlinear_arith);
    }
}

/// Taking coins out of a ledger lowers its value by what they are worth.
pub proof fn lemma_without_value(a: Seq<nat>, b: Seq<nat>)
    requires
        covers(a, b),
    ensures
        value_of(without(a, b)) + value_of(b) == value_of(a),
{
    lemma_without_upto(a, b, 6);
}

/// A settled payment moves coins and makes none: the new ledger and the
/// change together are worth what the old ledger and the inserted coins were,
/// the change is worth the inserted coins less the price, and the ledger has
/// grown by the price.
pub proof fn lemma_trade_conserves(mine: Seq<nat>, theirs: Seq<nat>, price: nat)
    requires
        trade_succeeds(mine, theirs, price),
    ensures
        value_of(mine) + value_of(theirs) == value_of(traded_rest(mine, theirs, price)) + value_of(
            traded_change(mine, theirs, price),
        ),
        value_of(traded_change(mine, theirs, price)) + price == value_of(theirs),
        value_of(traded_rest(mine, theirs, price)) == value_of(mine) + price,
        price == 0 ==> value_of(mine) + value_of(theirs) == value_of(
            traded_rest(mine, theirs, price),
        ) + value_of(traded_change(mine, theirs, price)) + price,
{
    let pool = pooled(mine, theirs);
    let owed = (value_of(theirs) - price) as nat;
    lemma_pooled_value(mine, theirs);
    lemma_change_exact(pool, owed);
    lemma_change_within(pool, owed);
    lemma_without_value(pool, change_from(pool, owed));
}

/// A settled payment hands out and keeps only coins that were in the pool of
/// the old ledger and the inserted coins.
pub proof fn lemma_trade_within_pool(mine: Seq<nat>, theirs: Seq<nat>, price: nat)
    requires
        trade_succeeds(mine, theirs, price),
    ensures
        covers(pooled(mine, theirs), traded_change(mine, theirs, price)),
        covers(pooled(mine, theirs), traded_rest(mine, theirs, price)),
{
    lemma_change_within(pooled(mine, theirs), (value_of(theirs) - price) as nat);
}

} // verus!
