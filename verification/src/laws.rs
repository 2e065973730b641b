//! Laws of the library, stated once over the store model and proved for all
//! inputs. Each relates operations whose own contracts are stated with the
//! same spec functions.

use vstd::prelude::*;

use crate::cart::{cart_total, lemma_cart_total_push, resolve};
use crate::domain::ProductV;
use crate::keyed::{
    has_key, keys_below, lemma_keys_below_absent, lemma_lookup_absent, lemma_lookup_push,
    lemma_remove_key_idempotent, lookup, remove_key,
};
use crate::store::{frames_orders, frames_products, StoreV};

verus! {

/// A row inserted under a fresh id — as every insert assigns one, above all
/// keys the table holds — is fetched back by that id exactly as inserted.
pub proof fn inserted_product_is_fetched(products: Seq<ProductV>, p: ProductV)
    requires
        keys_below(products, p.id),
    ensures
        lookup(products.push(p), p.id) == Some(p),
{
    lemma_keys_below_absent(products, p.id);
    lemma_lookup_push(products, p, p.id);
}

/// Removing a product id from a cart is idempotent on the cart: a second
/// removal of the same id changes nothing, whatever the cart held.
pub proof fn cart_removal_idempotent(cart: Seq<u64>, pid: u64)
    ensures
        remove_key(remove_key(cart, pid), pid) == remove_key(cart, pid),
{
    lemma_remove_key_idempotent(cart, pid);
}

/// A removed id is gone from the cart entirely, and every other entry's
/// lookups stand as before.
pub proof fn cart_removal_is_complete(cart: Seq<u64>, pid: u64)
    ensures
        !has_key(remove_key(cart, pid), pid),
        forall|other: u64| other != pid ==> #[trigger] lookup(remove_key(cart, pid), other)
            == lookup(cart, other),
{
    crate::keyed::lemma_remove_key_props(cart, pid);
}

/// A cart entry whose product was dropped from the catalog contributes
/// zero to the checkout total instead of failing the checkout.
pub proof fn dropped_product_contributes_zero(
    cart: Seq<u64>,
    products: Seq<ProductV>,
    pid: u64,
)
    requires
        !has_key(products, pid),
    ensures
        cart_total(cart.push(pid), products) == cart_total(cart, products),
{
    lemma_lookup_absent(products, pid);
    lemma_cart_total_push(cart, products, pid);
}

/// An empty cart checks out to a total of zero and resolves to no rows, for
/// any catalog.
pub proof fn empty_cart_totals_zero(products: Seq<ProductV>)
    ensures
        cart_total(Seq::<u64>::empty(), products) == 0,
        resolve(Seq::<u64>::empty(), products) == Seq::<ProductV>::empty(),
{
}

/// Recorded orders are immutable snapshots: any operation that frames as a
/// product-table mutation — create, update or delete of a product — leaves
/// every existing order, its line-item list and its total included, exactly
/// as it was recorded.
pub proof fn product_mutation_preserves_orders(pre: StoreV, post: StoreV, i: int)
    requires
        frames_products(pre, post),
        0 <= i < pre.orders.len(),
    ensures
        post.orders.len() == pre.orders.len(),
        post.orders[i] == pre.orders[i],
{
}

/// Checkout holds no mutual exclusion and never clears the cart, so a second
/// checkout over the store it leaves behind — `mid` frames as an order-table
/// append off `pre`, which is exactly what a successful checkout ensures —
/// records a second order with the same line items and the same total, under
/// a fresh id: a double-booking, not a failure.
pub proof fn checkout_twice_double_books(pre: StoreV, mid: StoreV, uid: u64)
    requires
        frames_orders(pre, mid),
        mid.next_order_id == pre.next_order_id + 1,
    ensures
        crate::user::checkout_order(mid, uid).products == crate::user::checkout_order(
            pre,
            uid,
        ).products,
        crate::user::checkout_order(mid, uid).total == crate::user::checkout_order(pre, uid).total,
        crate::user::checkout_order(mid, uid).id != crate::user::checkout_order(pre, uid).id,
{
}

} // verus!
