use vstd::prelude::*;

verus! {

/// A bag as a mathematical value: what is left to draw, and what a refill holds.
pub struct BagView<T> {
    pub pool: Seq<T>,
    pub full: Seq<T>,
}

impl<T> BagView<T> {
    pub open spec fn wf(self) -> bool {
        self.pool.len() > 0 && self.full.len() > 0
    }

    /// One draw with the random number `roll`: the value at `roll` modulo the
    /// size of the pool leaves it, and an emptied pool is refilled.
    pub open spec fn draw(self, roll: int) -> (T, BagView<T>) {
        let i = roll % (self.pool.len() as int);
        let rest = self.pool.remove(i);
        (self.pool[i], BagView { pool: if rest.len() == 0 { self.full } else { rest }, full: self.full })
    }

    /// Successive draws, one for each random number of `rolls`.
    pub open spec fn draw_all(self, rolls: Seq<usize>) -> (Seq<T>, BagView<T>)
        decreases rolls.len(),
    {
        if rolls.len() == 0 {
            (Seq::empty(), self)
        } else {
            let (v, next) = self.draw(rolls[0] as int);
            let (rest, last) = next.draw_all(rolls.drop_first());
            (seq![v] + rest, last)
        }
    }
}

/// Three successive draws, spelled out.
pub proof fn lemma_draw_three<T>(b: BagView<T>, rolls: Seq<usize>)
    requires
        rolls.len() == 3,
    ensures
        ({
            let (v0, b1) = b.draw(rolls[0] as int);
            let (v1, b2) = b1.draw(rolls[1] as int);
            let (v2, b3) = b2.draw(rolls[2] as int);
            b.draw_all(rolls) == (seq![v0, v1, v2], b3)
        }),
{
    reveal_with_fuel(BagView::draw_all, 4);
    let r1 = rolls.drop_first();
    let r2 = r1.drop_first();
    let r3 = r2.drop_first();
    assert(r3 =~= Seq::<usize>::empty());
    let (v0, b1) = b.draw(rolls[0] as int);
    let (v1, b2) = b1.draw(rolls[1] as int);
    let (v2, b3) = b2.draw(rolls[2] as int);
    assert(b2.draw_all(r2) == (seq![v2], b3));
    assert(b1.draw_all(r1).0 =~= seq![v1, v2]);
    assert(b.draw_all(rolls).0 =~= seq![v0, v1, v2]);
}

proof fn lemma_draw_out_pool<T>(b: BagView<T>, rolls: Seq<usize>)
    requires
        b.pool.len() > 0,
        rolls.len() == b.pool.len(),
    ensures
        b.draw_all(rolls).0.to_multiset() == b.pool.to_multiset(),
        b.draw_all(rolls).1 == (BagView { pool: b.full, full: b.full }),
    decreases rolls.len(),
{
    broadcast use vstd::seq_lib::group_to_multiset_ensures, vstd::multiset::group_multiset_axioms;

    let i = rolls[0] as int % (b.pool.len() as int);
    let v = b.pool[i];
    let rest = b.pool.remove(i);
    let next = b.draw(rolls[0] as int).1;
    let tail = next.draw_all(rolls.drop_first());
    assert(rest.to_multiset() == b.pool.to_multiset().remove(v));
    if rest.len() == 0 {
        assert(rolls.drop_first().len() == 0);
        assert(b.draw_all(rolls).0 =~= seq![v]);
        assert(b.pool =~= seq![v]);
        assert(seq![v].to_multiset() =~= Seq::<T>::empty().push(v).to_multiset());
    } else {
        lemma_draw_out_pool(next, rolls.drop_first());
        assert(b.draw_all(rolls).0 =~= seq![v] + tail.0);
        vstd::seq_lib::lemma_multiset_commutative(seq![v], tail.0);
        assert(seq![v].to_multiset() =~= Seq::<T>::empty().push(v).to_multiset());
        assert(b.pool.to_multiset() =~= rest.to_multiset().insert(v));
    }
}

/// A freshly filled bag hands out each of its values exactly once in as many
/// draws as it holds values, whatever the random numbers, and is full again
/// afterwards, so that the next draw starts a new complete cycle.
pub proof fn lemma_bag_cycle<T>(b: BagView<T>, rolls: Seq<usize>)
    requires
        b.wf(),
        b.pool == b.full,
        rolls.len() == b.full.len(),
    ensures
        b.draw_all(rolls).0.to_multiset() == b.full.to_multiset(),
        b.draw_all(rolls).1 == b,
{
    lemma_draw_out_pool(b, rolls);
}

/// Draws values without replacement from a pool, refilling it once it is empty.
pub struct Bag<T> {
    pool: Vec<T>,
    full: Vec<T>,
}

impl<T> View for Bag<T> {
    type V = BagView<T>;

    closed spec fn view(&self) -> BagView<T> {
        BagView { pool: self.pool@, full: self.full@ }
    }
}

fn copy_all<T: Copy>(v: &Vec<T>) -> (r: Vec<T>)
    ensures
        r@ == v@,
{
    let mut r: Vec<T> = Vec::new();
    for k in 0..v.len()
        invariant
            r@ == v@.subrange(0, k as int),
    {
        r.push(v[k]);
    }
    assert(r@ =~= v@);
    r
}

impl<T: Copy> Bag<T> {
    /// A full bag of the values of `full`.
    pub fn new(full: Vec<T>) -> (r: Bag<T>)
        requires
            full.len() > 0,
        ensures
            r@ == (BagView { pool: full@, full: full@ }),
            r@.wf(),
    {
        let pool = copy_all(&full);
        Bag { pool, full }
    }

    /// Number of values left before the next refill.
    pub fn remaining(&self) -> (n: usize)
        ensures
            n == self@.pool.len(),
    {
        self.pool.len()
    }

    /// Takes out the value at `roll` modulo the size of the pool; refills the
    /// pool when that was its last value.
    pub fn draw(&mut self, roll: usize) -> (v: T)
        requires
            old(self)@.wf(),
        ensures
            (v, final(self)@) == old(self)@.draw(roll as int),
            final(self)@.wf(),
    {
        let i = roll % self.pool.len();
        let v = self.pool.remove(i);
        if self.pool.len() == 0 {
            self.pool = copy_all(&self.full);
        }
        v
    }
}

} // verus!
