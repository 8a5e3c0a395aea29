use vstd::prelude::*;
use crate::entropy::{random_bool, random_in_range, random_u128};
use crate::record::{now_timestamp, BookOrder};
use crate::text::{dec_of, fmt_u128};

verus! {

/// The price lattice the synthetic load generator draws from: one of a
/// hundred evenly spaced fixed-point prices.
pub open spec fn bench_price(k: int) -> int {
    (419337 + 162 * k) * 100_000_000_000
}

/// The quantity lattice the synthetic load generator draws from.
pub open spec fn bench_quantity(k: int) -> int {
    (187 + 4 * k) * 1_000_000_000
}

/// What holds of every synthetic order, whatever the random source
/// returned: price and quantity sit on their lattices, the small
/// numeric fields sit in their documented ranges, and the identity
/// strings are decimal renderings of random numbers.
pub open spec fn rand_order_shape(o: BookOrder) -> bool {
    &&& exists|k: int| 0 <= k <= 99 && o.price == #[trigger] bench_price(k)
    &&& exists|k: int| 0 <= k <= 99 && o.quantity == #[trigger] bench_quantity(k)
    &&& 1 <= o.trigger_price <= 10_000
    &&& 1 <= o.leverage <= 10
    &&& 1 <= o.expiration <= 10_000
    &&& exists|h: nat| o.hash@ == dec_of(h)
    &&& exists|m: nat| o.maker@ == dec_of(m)
    &&& exists|f: nat| o.flags@ == dec_of(f)
}

/// One synthetic order for load generation: random draws pinned to the
/// benchmark lattices, stamped with the wall clock.
pub fn generate_rand_order() -> (order: BookOrder)
    ensures
        rand_order_shape(order),
{
    let min_price: u128 = 41_933_700_000_000_000 / 100_000_000_000;
    let max_price: u128 = 43_537_800_000_000_000 / 100_000_000_000;
    let price_step = (max_price - min_price) / 99;
    let price_draw = random_in_range(0, 99);
    proof {
        assert(price_step * price_draw <= 162 * 99) by (nonlinear_arith)
            requires
                price_step == 162,
                price_draw <= 99,
        ;
    }
    let price = (min_price + price_step * price_draw) * 100_000_000_000;

    let min_quantity: u128 = 187_000_000_000 / 1_000_000_000;
    let max_quantity: u128 = 617_000_000_000 / 1_000_000_000;
    let quantity_step = (max_quantity - min_quantity) / 99;
    let quantity_draw = random_in_range(0, 99);
    proof {
        assert(quantity_step * quantity_draw <= 4 * 99) by (nonlinear_arith)
            requires
                quantity_step == 4,
                quantity_draw <= 99,
        ;
    }
    let quantity = (min_quantity + quantity_step * quantity_draw) * 1_000_000_000;
    let hash_value = random_u128();
    let maker_value = random_u128();
    let flags_value = random_u128();
    let order = BookOrder {
        is_buy: random_bool(),
        reduce_only: random_bool(),
        quantity,
        price,
        timestamp: now_timestamp(),
        trigger_price: random_in_range(1, 10_000),
        leverage: random_in_range(1, 10),
        expiration: random_in_range(1, 10_000),
        hash: fmt_u128(hash_value),
        salt: random_u128(),
        maker: fmt_u128(maker_value),
        flags: fmt_u128(flags_value),
    };
    proof {
        assert(order.price == bench_price(price_draw as int));
        assert(order.quantity == bench_quantity(quantity_draw as int));
        assert(order.hash@ == dec_of(hash_value as nat));
        assert(order.maker@ == dec_of(maker_value as nat));
        assert(order.flags@ == dec_of(flags_value as nat));
    }
    order
}

/// A batch of synthetic orders, one lattice draw each.
pub fn generate_rand_orders(size: usize) -> (orders: Vec<BookOrder>)
    ensures
        orders@.len() == size as nat,
        forall|i: int| 0 <= i < orders@.len() ==> rand_order_shape(#[trigger] orders@[i]),
{
    let mut orders = Vec::with_capacity(size);
    for i in 0..size
        invariant
            orders@.len() == i as nat,
            forall|j: int| 0 <= j < orders@.len() ==> rand_order_shape(#[trigger] orders@[j]),
    {
        let order = generate_rand_order();
        orders.push(order);
    }
    orders
}

} // verus!
