use vstd::prelude::*;

use crate::command::{Command, Reply};
use crate::order::{Order, Side, Trade};

verus! {

/// Whether some order of `s` carries identifier `id`.
pub open spec fn has_id(s: Seq<Order>, id: u64) -> bool {
    exists|i: int| 0 <= i < s.len() && s[i].id == id
}

/// Identifiers are unique and every resting order has open quantity.
pub open spec fn resting_ok(s: Seq<Order>) -> bool {
    &&& forall|i: int, j: int| 0 <= i < j < s.len() ==> s[i].id != s[j].id
    &&& forall|i: int| 0 <= i < s.len() ==> s[i].quantity > 0
}

/// An incoming order can trade with a resting one: opposite sides and the
/// prices meet.
pub open spec fn crosses(incoming: Order, resting: Order) -> bool {
    match incoming.side {
        Side::Buy => resting.side == Side::Sell && resting.price <= incoming.price,
        Side::Sell => resting.side == Side::Buy && resting.price >= incoming.price,
    }
}

/// The trade of `q` units between an incoming order and a resting one, at the
/// resting order's price.
pub open spec fn trade_between(incoming: Order, resting: Order, q: u64) -> Trade {
    match incoming.side {
        Side::Buy => Trade { buy_id: incoming.id, sell_id: resting.id, price: resting.price, quantity: q },
        Side::Sell => Trade { buy_id: resting.id, sell_id: incoming.id, price: resting.price, quantity: q },
    }
}

pub open spec fn min_u64(a: u64, b: u64) -> u64 {
    if a <= b { a } else { b }
}

/// The state of a sweep through the resting orders: what stays in the book,
/// the trades so far, and the incoming quantity still open.
pub struct Sweep {
    pub kept: Seq<Order>,
    pub trades: Seq<Trade>,
    pub left: u64,
}

/// One resting order met by the sweep.
pub open spec fn sweep_step(st: Sweep, incoming: Order, r: Order) -> Sweep {
    if st.left > 0 && crosses(incoming, r) {
        let q = min_u64(st.left, r.quantity);
        Sweep {
            kept: if q < r.quantity { st.kept.push(Order { quantity: (r.quantity - q) as u64, ..r }) } else { st.kept },
            trades: st.trades.push(trade_between(incoming, r, q)),
            left: (st.left - q) as u64,
        }
    } else {
        Sweep { kept: st.kept.push(r), trades: st.trades, left: st.left }
    }
}

/// The incoming order swept through the resting orders in arrival order
/// (time priority).
pub open spec fn sweep(resting: Seq<Order>, incoming: Order) -> Sweep
    decreases resting.len(),
{
    if resting.len() == 0 {
        Sweep { kept: seq![], trades: seq![], left: incoming.quantity }
    } else {
        sweep_step(sweep(resting.drop_last(), incoming), incoming, resting.last())
    }
}

/// An order is taken only if it has quantity and its identifier is not in use.
pub open spec fn accepts(resting: Seq<Order>, incoming: Order) -> bool {
    incoming.quantity > 0 && !has_id(resting, incoming.id)
}

/// The resting orders after `incoming` was added.
pub open spec fn book_after_add(resting: Seq<Order>, incoming: Order) -> Seq<Order> {
    if !accepts(resting, incoming) {
        resting
    } else {
        let st = sweep(resting, incoming);
        if st.left > 0 {
            st.kept.push(Order { quantity: st.left, ..incoming })
        } else {
            st.kept
        }
    }
}

/// The trades produced by adding `incoming`, in the order they occurred.
pub open spec fn trades_of_add(resting: Seq<Order>, incoming: Order) -> Seq<Trade> {
    if !accepts(resting, incoming) {
        seq![]
    } else {
        sweep(resting, incoming).trades
    }
}

/// What a sweep keeps is drawn from the resting orders: identifiers stay
/// unique and quantities stay open, and the open incoming quantity only falls.
pub proof fn lemma_sweep_keeps_resting(resting: Seq<Order>, incoming: Order)
    requires
        resting_ok(resting),
    ensures
        sweep(resting, incoming).left <= incoming.quantity,
        resting_ok(sweep(resting, incoming).kept),
        forall|k: int| 0 <= k < sweep(resting, incoming).kept.len()
            ==> has_id(resting, #[trigger] sweep(resting, incoming).kept[k].id),
    decreases resting.len(),
{
    if resting.len() > 0 {
        let prev = resting.drop_last();
        let r = resting.last();
        assert forall|i: int, j: int| 0 <= i < j < prev.len() implies prev[i].id != prev[j].id by {
            assert(prev[i] == resting[i] && prev[j] == resting[j]);
        }
        assert forall|i: int| 0 <= i < prev.len() implies prev[i].quantity > 0 by {
            assert(prev[i] == resting[i]);
        }
        lemma_sweep_keeps_resting(prev, incoming);
        let st = sweep(prev, incoming);
        let nx = sweep(resting, incoming);
        assert forall|k: int| 0 <= k < st.kept.len() implies #[trigger] st.kept[k].id != r.id by {
            let j = choose|j: int| 0 <= j < prev.len() && prev[j].id == st.kept[k].id;
            assert(prev[j] == resting[j]);
            assert(resting[j].id != resting[resting.len() - 1].id);
        }
        assert forall|k: int| 0 <= k < nx.kept.len() implies has_id(resting, #[trigger] nx.kept[k].id) by {
            if k < st.kept.len() {
                assert(nx.kept[k] == st.kept[k]);
                let j = choose|j: int| 0 <= j < prev.len() && prev[j].id == st.kept[k].id;
                assert(prev[j] == resting[j]);
            } else {
                assert(nx.kept[k].id == resting[resting.len() - 1].id);
            }
        }
        assert forall|i: int, j: int| 0 <= i < j < nx.kept.len() implies nx.kept[i].id != nx.kept[j].id by {
            if j < st.kept.len() {
                assert(nx.kept[i] == st.kept[i] && nx.kept[j] == st.kept[j]);
            } else {
                assert(nx.kept[i] == st.kept[i]);
            }
        }
        assert forall|i: int| 0 <= i < nx.kept.len() implies nx.kept[i].quantity > 0 by {
            if i < st.kept.len() {
                assert(nx.kept[i] == st.kept[i]);
            }
        }
    }
}

/// The book after an add is again well formed.
pub proof fn lemma_add_keeps_resting_ok(resting: Seq<Order>, incoming: Order)
    requires
        resting_ok(resting),
    ensures
        resting_ok(book_after_add(resting, incoming)),
{
    if accepts(resting, incoming) {
        lemma_sweep_keeps_resting(resting, incoming);
        let st = sweep(resting, incoming);
        if st.left > 0 {
            let nb = book_after_add(resting, incoming);
            assert forall|k: int| 0 <= k < st.kept.len() implies #[trigger] st.kept[k].id != incoming.id by {
                assert(has_id(resting, st.kept[k].id));
            }
            assert forall|i: int, j: int| 0 <= i < j < nb.len() implies nb[i].id != nb[j].id by {
                assert(nb[i] == st.kept[i]);
                if j < st.kept.len() {
                    assert(nb[j] == st.kept[j]);
                }
            }
            assert forall|i: int| 0 <= i < nb.len() implies nb[i].quantity > 0 by {
                if i < st.kept.len() {
                    assert(nb[i] == st.kept[i]);
                }
            }
        }
    }
}

fn crosses_exec(incoming: &Order, resting: &Order) -> (r: bool)
    ensures
        r == crosses(*incoming, *resting),
{
    match incoming.side {
        Side::Buy => match resting.side {
            Side::Sell => resting.price <= incoming.price,
            Side::Buy => false,
        },
        Side::Sell => match resting.side {
            Side::Buy => resting.price >= incoming.price,
            Side::Sell => false,
        },
    }
}

fn trade_exec(incoming: &Order, resting: &Order, q: u64) -> (r: Trade)
    ensures
        r == trade_between(*incoming, *resting, q),
{
    match incoming.side {
        Side::Buy => Trade { buy_id: incoming.id, sell_id: resting.id, price: resting.price, quantity: q },
        Side::Sell => Trade { buy_id: resting.id, sell_id: incoming.id, price: resting.price, quantity: q },
    }
}

/// `after` is `before` with the order of identifier `id` taken out, and `r`
/// says whether there was one.
pub open spec fn cancelled(before: Seq<Order>, after: Seq<Order>, id: u64, r: bool) -> bool {
    &&& r == has_id(before, id)
    &&& !has_id(after, id)
    &&& r ==> exists|i: int| 0 <= i < before.len() && before[i].id == id && after == before.remove(i)
    &&& !r ==> after == before
}

/// An order that crosses no resting order makes no trade and rests with its
/// whole quantity, behind the orders already there.
pub proof fn lemma_uncrossed_order_rests(resting: Seq<Order>, incoming: Order)
    requires
        accepts(resting, incoming),
        forall|i: int| 0 <= i < resting.len() ==> !crosses(incoming, #[trigger] resting[i]),
    ensures
        trades_of_add(resting, incoming) == Seq::<Trade>::empty(),
        book_after_add(resting, incoming) == resting.push(incoming),
{
    lemma_uncrossed_sweep(resting, incoming);
    assert(Order { quantity: incoming.quantity, ..incoming } == incoming);
}

proof fn lemma_uncrossed_sweep(resting: Seq<Order>, incoming: Order)
    requires
        forall|i: int| 0 <= i < resting.len() ==> !crosses(incoming, #[trigger] resting[i]),
    ensures
        sweep(resting, incoming).kept == resting,
        sweep(resting, incoming).trades == Seq::<Trade>::empty(),
        sweep(resting, incoming).left == incoming.quantity,
    decreases resting.len(),
{
    if resting.len() == 0 {
        assert(sweep(resting, incoming).kept =~= resting);
    } else {
        let prev = resting.drop_last();
        assert forall|i: int| 0 <= i < prev.len() implies !crosses(incoming, #[trigger] prev[i]) by {
            assert(prev[i] == resting[i]);
        }
        lemma_uncrossed_sweep(prev, incoming);
        assert(!crosses(incoming, resting[resting.len() - 1]));
        assert(sweep(resting, incoming).kept =~= resting);
    }
}

/// The trades of a sweep over a prefix of the resting orders begin the
/// trades of the sweep over all of them.
proof fn lemma_sweep_trades_grow(resting: Seq<Order>, incoming: Order, k: int)
    requires
        0 <= k <= resting.len(),
    ensures
        sweep(resting.take(k), incoming).trades.len() <= sweep(resting, incoming).trades.len(),
        forall|t: int| 0 <= t < sweep(resting.take(k), incoming).trades.len()
            ==> sweep(resting.take(k), incoming).trades[t] == #[trigger] sweep(resting, incoming).trades[t],
    decreases resting.len(),
{
    if k == resting.len() {
        assert(resting.take(k) =~= resting);
    } else {
        let prev = resting.drop_last();
        assert(prev.take(k) =~= resting.take(k));
        lemma_sweep_trades_grow(prev, incoming, k);
    }
}

/// An order that crosses some resting order trades: its first trade is with
/// the earliest resting order it crosses, at that order's price, for as much
/// as both have open.
pub proof fn lemma_crossing_order_trades(resting: Seq<Order>, incoming: Order, j: int)
    requires
        accepts(resting, incoming),
        0 <= j < resting.len(),
        crosses(incoming, resting[j]),
        forall|i: int| 0 <= i < j ==> !crosses(incoming, #[trigger] resting[i]),
    ensures
        trades_of_add(resting, incoming).len() > 0,
        trades_of_add(resting, incoming)[0]
            == trade_between(incoming, resting[j], min_u64(incoming.quantity, resting[j].quantity)),
{
    let pre = resting.take(j);
    assert forall|i: int| 0 <= i < pre.len() implies !crosses(incoming, #[trigger] pre[i]) by {
        assert(pre[i] == resting[i]);
    }
    lemma_uncrossed_sweep(pre, incoming);
    assert(resting.take(j + 1).drop_last() =~= pre);
    assert(resting.take(j + 1).last() == resting[j]);
    lemma_sweep_trades_grow(resting, incoming, j + 1);
    assert(sweep(resting.take(j + 1), incoming).trades.len() == 1);
}

/// Total quantity of a sequence of trades.
pub open spec fn traded(ts: Seq<Trade>) -> int
    decreases ts.len(),
{
    if ts.len() == 0 {
        0
    } else {
        traded(ts.drop_last()) + ts.last().quantity
    }
}

/// A trade of `incoming` names it on its own side and is priced within its
/// limit.
pub open spec fn within_limit(incoming: Order, t: Trade) -> bool {
    match incoming.side {
        Side::Buy => t.buy_id == incoming.id && t.price <= incoming.price,
        Side::Sell => t.sell_id == incoming.id && t.price >= incoming.price,
    }
}

proof fn lemma_sweep_accounts(resting: Seq<Order>, incoming: Order)
    ensures
        traded(sweep(resting, incoming).trades) + sweep(resting, incoming).left == incoming.quantity,
        forall|k: int| 0 <= k < sweep(resting, incoming).trades.len()
            ==> within_limit(incoming, #[trigger] sweep(resting, incoming).trades[k]),
    decreases resting.len(),
{
    if resting.len() > 0 {
        let prev = resting.drop_last();
        lemma_sweep_accounts(prev, incoming);
        let st = sweep(prev, incoming);
        let nx = sweep(resting, incoming);
        if nx.trades.len() > st.trades.len() {
            assert(nx.trades.drop_last() =~= st.trades);
        } else {
            assert(nx.trades =~= st.trades);
        }
        assert forall|k: int| 0 <= k < nx.trades.len() implies within_limit(incoming, #[trigger] nx.trades[k]) by {
            if k < st.trades.len() {
                assert(nx.trades[k] == st.trades[k]);
            }
        }
    }
}

/// Adding an order accounts for all of its quantity: what it traded plus
/// what rests of it is what it came with, and every trade is priced within
/// its limit.
pub proof fn lemma_add_accounts_quantity(resting: Seq<Order>, incoming: Order)
    requires
        accepts(resting, incoming),
    ensures
        traded(trades_of_add(resting, incoming)) + sweep(resting, incoming).left == incoming.quantity,
        sweep(resting, incoming).left > 0 ==> book_after_add(resting, incoming).last()
            == (Order { quantity: sweep(resting, incoming).left, ..incoming }),
        forall|k: int| 0 <= k < trades_of_add(resting, incoming).len()
            ==> within_limit(incoming, #[trigger] trades_of_add(resting, incoming)[k]),
{
    lemma_sweep_accounts(resting, incoming);
}

/// Cancelling every order answers whether the book held any, and leaves no
/// order to be found under any identifier.
pub proof fn lemma_cancel_all_clears(before: Seq<Order>, after: Seq<Order>, r: Reply, id: u64)
    requires
        applied(before, Command::CancelAll, after, r),
    ensures
        r == Reply::Done(before.len() > 0),
        !has_id(after, id),
{
}

/// The single-threaded order book: resting orders in arrival order.
#[derive(Debug)]
pub struct OrderBook {
    orders: Vec<Order>,
}

impl OrderBook {
    pub closed spec fn view(&self) -> Seq<Order> {
        self.orders@
    }

    #[verifier::type_invariant]
    spec fn wf(&self) -> bool {
        resting_ok(self.orders@)
    }

    pub fn new() -> (r: OrderBook)
        ensures
            r@ == Seq::<Order>::empty(),
    {
        OrderBook { orders: Vec::new() }
    }

    /// Number of resting orders.
    pub fn len(&self) -> (r: usize)
        ensures
            r == self@.len(),
    {
        self.orders.len()
    }

    pub fn is_empty(&self) -> (r: bool)
        ensures
            r == (self@.len() == 0),
    {
        self.orders.len() == 0
    }

    fn position_of(&self, id: u64) -> (r: Option<usize>)
        ensures
            match r {
                Some(i) => i < self@.len() && self@[i as int].id == id,
                None => !has_id(self@, id),
            },
    {
        let mut i: usize = 0;
        while i < self.orders.len()
            invariant
                i <= self.orders@.len(),
                forall|k: int| 0 <= k < i ==> self.orders@[k].id != id,
            decreases self.orders@.len() - i,
        {
            if self.orders[i].id == id {
                return Some(i);
            }
            i = i + 1;
        }
        None
    }

    /// The resting order with identifier `id`, if any.
    pub fn get_order_by_id(&self, id: u64) -> (r: Option<Order>)
        ensures
            r is None <==> !has_id(self@, id),
            r matches Some(o) ==> o.id == id && o.quantity > 0 && self@.contains(o),
            resting_ok(self@),
    {
        proof {
            use_type_invariant(self);
        }
        match self.position_of(id) {
            Some(i) => {
                let o = self.orders[i];
                assert(self@[i as int] == o);
                Some(o)
            },
            None => None,
        }
    }

    /// Matches `incoming` against the resting orders in arrival order, each
    /// trade at the resting order's price, and rests what is left of it.
    /// An order without quantity, or whose identifier is in use, is ignored.
    pub fn add_order(&mut self, incoming: Order) -> (r: Vec<Trade>)
        ensures
            final(self)@ == book_after_add(old(self)@, incoming),
            r@ == trades_of_add(old(self)@, incoming),
    {
        proof {
            use_type_invariant(&*self);
        }
        if incoming.quantity == 0 {
            return Vec::new();
        }
        match self.position_of(incoming.id) {
            Some(_) => {
                return Vec::new();
            },
            None => {},
        }
        let ghost start = self.orders@;
        let n = self.orders.len();
        let mut kept: Vec<Order> = Vec::new();
        let mut trades: Vec<Trade> = Vec::new();
        let mut left: u64 = incoming.quantity;
        let mut i: usize = 0;
        assert(start.take(0) =~= Seq::<Order>::empty());
        while i < n
            invariant
                n == start.len(),
                self.orders@ == start,
                resting_ok(start),
                i <= n,
                kept@ == sweep(start.take(i as int), incoming).kept,
                trades@ == sweep(start.take(i as int), incoming).trades,
                left == sweep(start.take(i as int), incoming).left,
            decreases n - i,
        {
            let r = self.orders[i];
            assert(start.take(i + 1).drop_last() =~= start.take(i as int));
            assert(start.take(i + 1).last() == r);
            if left > 0 && crosses_exec(&incoming, &r) {
                let q: u64 = if left <= r.quantity { left } else { r.quantity };
                if q < r.quantity {
                    kept.push(Order { quantity: r.quantity - q, ..r });
                }
                trades.push(trade_exec(&incoming, &r, q));
                left = left - q;
            } else {
                kept.push(r);
            }
            i = i + 1;
        }
        assert(start.take(n as int) =~= start);
        if left > 0 {
            kept.push(Order { quantity: left, ..incoming });
        }
        proof {
            lemma_add_keeps_resting_ok(start, incoming);
        }
        self.orders = kept;
        trades
    }

    /// Removes the resting order with identifier `id`; true iff there was one.
    pub fn cancel_order(&mut self, id: u64) -> (r: bool)
        ensures
            cancelled(old(self)@, final(self)@, id, r),
    {
        proof {
            use_type_invariant(&*self);
        }
        match self.position_of(id) {
            Some(i) => {
                let ghost before = self.orders@;
                let mut v: Vec<Order> = Vec::new();
                std::mem::swap(&mut v, &mut self.orders);
                v.remove(i);
                assert(v@ == before.remove(i as int));
                assert forall|a: int, b: int| 0 <= a < b < v@.len() implies v@[a].id != v@[b].id by {
                    if a >= i { assert(v@[a] == before[a + 1]); }
                    if b >= i { assert(v@[b] == before[b + 1]); }
                }
                assert forall|a: int| 0 <= a < v@.len() implies v@[a].quantity > 0 by {
                    if a >= i { assert(v@[a] == before[a + 1]); }
                }
                assert forall|k: int| 0 <= k < v@.len() implies v@[k].id != id by {
                    if k < i { assert(before[k].id != before[i as int].id); }
                    else { assert(before[k + 1].id != before[i as int].id); }
                }
                self.orders = v;
                true
            },
            None => false,
        }
    }

    /// Removes every resting order; true iff the book was not empty.
    pub fn cancel_all_orders(&mut self) -> (r: bool)
        ensures
            r == (old(self)@.len() > 0),
            final(self)@ == Seq::<Order>::empty(),
    {
        proof {
            use_type_invariant(&*self);
        }
        let had = self.orders.len() > 0;
        self.orders = Vec::new();
        had
    }

    /// Runs one mutation on the book and gives back its reply.
    pub fn apply(&mut self, command: Command) -> (r: Reply)
        ensures
            applied(old(self)@, command, final(self)@, r),
    {
        match command {
            Command::AddOrder(o) => Reply::Trades(self.add_order(o)),
            Command::CancelOrder(id) => Reply::Done(self.cancel_order(id)),
            Command::CancelAll => Reply::Done(self.cancel_all_orders()),
        }
    }
}

/// What running `command` on the resting orders `before` leaves, `after`, and
/// replies, `r`.
pub open spec fn applied(before: Seq<Order>, command: Command, after: Seq<Order>, r: Reply) -> bool {
    match command {
        Command::AddOrder(o) => {
            &&& after == book_after_add(before, o)
            &&& r matches Reply::Trades(t) && t@ == trades_of_add(before, o)
        },
        Command::CancelOrder(id) => r matches Reply::Done(b) && cancelled(before, after, id, b),
        Command::CancelAll => {
            &&& r == Reply::Done(before.len() > 0)
            &&& after == Seq::<Order>::empty()
        },
    }
}

} // verus!
