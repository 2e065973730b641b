//! The cart-to-order mathematics of checkout: resolving cart entries against
//! the catalog and summing the prices of the entries that resolve.

use vstd::prelude::*;

use crate::domain::ProductV;
use crate::keyed::{has_key, lookup};

verus! {

/// The catalog price of one cart entry: a dropped (absent) id contributes
/// zero instead of failing the checkout.
pub open spec fn price_of(products: Seq<ProductV>, pid: u64) -> int {
    match lookup(products, pid) {
        Some(p) => p.price as int,
        None => 0,
    }
}

/// The checkout total: the sum of catalog prices over every cart entry, per
/// occurrence, at the moment the catalog is read.
pub open spec fn cart_total(cart: Seq<u64>, products: Seq<ProductV>) -> int
    decreases cart.len(),
{
    if cart.len() == 0 {
        0
    } else {
        price_of(products, cart[0]) + cart_total(cart.drop_first(), products)
    }
}

/// The catalog rows the cart's entries resolve to, per occurrence, entries
/// without a row silently skipped.
pub open spec fn resolve(cart: Seq<u64>, products: Seq<ProductV>) -> Seq<ProductV>
    decreases cart.len(),
{
    if cart.len() == 0 {
        Seq::empty()
    } else {
        match lookup(products, cart[0]) {
            Some(p) => seq![p] + resolve(cart.drop_first(), products),
            None => resolve(cart.drop_first(), products),
        }
    }
}

/// One more cart entry adds exactly its catalog price to the total.
pub proof fn lemma_cart_total_push(cart: Seq<u64>, products: Seq<ProductV>, pid: u64)
    ensures
        cart_total(cart.push(pid), products) == cart_total(cart, products) + price_of(
            products,
            pid,
        ),
    decreases cart.len(),
{
    let cp = cart.push(pid);
    if cart.len() == 0 {
        assert(cp[0] == pid);
        assert(cp.drop_first() =~= Seq::<u64>::empty());
        assert(cart_total(cp.drop_first(), products) == 0);
        assert(cart_total(cart, products) == 0);
    } else {
        assert(cp[0] == cart[0]);
        assert(cp.drop_first() =~= cart.drop_first().push(pid));
        lemma_cart_total_push(cart.drop_first(), products, pid);
    }
}

/// The total is non-negative and bounded by the cart's length times the
/// largest possible price.
pub proof fn lemma_cart_total_bounds(cart: Seq<u64>, products: Seq<ProductV>)
    ensures
        0 <= cart_total(cart, products) <= cart.len() * (u64::MAX as int),
    decreases cart.len(),
{
    if cart.len() > 0 {
        lemma_cart_total_bounds(cart.drop_first(), products);
        assert(0 <= price_of(products, cart[0]) <= u64::MAX as int);
    }
}

/// One more cart entry appends exactly its catalog row, or nothing where the
/// id has none.
pub proof fn lemma_resolve_push(cart: Seq<u64>, products: Seq<ProductV>, pid: u64)
    ensures
        resolve(cart.push(pid), products) == (match lookup(products, pid) {
            Some(p) => resolve(cart, products).push(p),
            None => resolve(cart, products),
        }),
    decreases cart.len(),
{
    let cp = cart.push(pid);
    if cart.len() == 0 {
        assert(cp[0] == pid);
        assert(cp.drop_first() =~= Seq::<u64>::empty());
        assert(resolve(cp.drop_first(), products) == Seq::<ProductV>::empty());
        assert(resolve(cart, products) == Seq::<ProductV>::empty());
        match lookup(products, pid) {
            Some(p) => {
                assert(resolve(cp, products) == seq![p] + resolve(cp.drop_first(), products));
                assert(resolve(cp, products) =~= resolve(cart, products).push(p));
            },
            None => {},
        }
    } else {
        assert(cp[0] == cart[0]);
        assert(cp.drop_first() =~= cart.drop_first().push(pid));
        lemma_resolve_push(cart.drop_first(), products, pid);
        match lookup(products, cart[0]) {
            Some(q) => {
                match lookup(products, pid) {
                    Some(p) => {
                        assert(resolve(cp, products) =~= resolve(cart, products).push(p));
                    },
                    None => {},
                }
            },
            None => {},
        }
    }
}

} // verus!
