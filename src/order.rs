use vstd::prelude::*;

verus! {

/// Which side of the book an order rests on.
#[derive(Clone, Copy, Debug, PartialEq, Eq, Structural)]
pub enum Side {
    Buy,
    Sell,
}

/// A limit order: identifier, side, limit price and open quantity.
#[derive(Clone, Copy, Debug, PartialEq, Eq, Structural)]
pub struct Order {
    pub id: u64,
    pub side: Side,
    pub price: u64,
    pub quantity: u64,
}

/// An execution between a buy order and a sell order.
#[derive(Clone, Copy, Debug, PartialEq, Eq, Structural)]
pub struct Trade {
    pub buy_id: u64,
    pub sell_id: u64,
    pub price: u64,
    pub quantity: u64,
}

impl Order {
    pub fn new(id: u64, side: Side, price: u64, quantity: u64) -> (r: Order)
        ensures
            r == (Order { id, side, price, quantity }),
    {
        Order { id, side, price, quantity }
    }

    pub fn buy(id: u64, price: u64, quantity: u64) -> (r: Order)
        ensures
            r == (Order { id, side: Side::Buy, price, quantity }),
    {
        Order { id, side: Side::Buy, price, quantity }
    }

    pub fn sell(id: u64, price: u64, quantity: u64) -> (r: Order)
        ensures
            r == (Order { id, side: Side::Sell, price, quantity }),
    {
        Order { id, side: Side::Sell, price, quantity }
    }
}

} // verus!
