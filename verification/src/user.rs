//! The user facade: authenticated self-service. Account view, update and
//! delete, cart mutation, the checkout workflow, and the scoped reads for a
//! user's own products and orders.
//!
//! Mutating self-scoped operations (account update, checkout) resolve the
//! acting principal from request-scoped identity metadata, never from the
//! request payload; the scoped reads take the id from the payload.

use vstd::prelude::*;

use crate::cart::{cart_total, lemma_cart_total_bounds, resolve};
use crate::domain::{
    summarize_user, user_summary_of, Order, OrderV, Product, ServiceError, UserAccountSummary,
    UserV,
};
use crate::ident::{id_view, principal_of, resolve_principal, valid_identity};
use crate::keyed::{has_key, lookup, remove_key, replace_key, views};
use crate::store::{
    frames_orders, frames_users, orders_of_user, with_cart, with_credentials, Store, StoreV,
};

verus! {

/// The cart a user id holds, or the empty cart where the id has no row.
pub open spec fn cart_of(users: Seq<UserV>, uid: u64) -> Seq<u64> {
    match lookup(users, uid) {
        Some(u) => u.cart,
        None => Seq::empty(),
    }
}

/// The order one checkout records for `uid` against the store state `s`: a
/// snapshot of the cart as its line items, the sum of the prices of the
/// entries that still resolve as its total, and the `Pending` status.
pub open spec fn checkout_order(s: StoreV, uid: u64) -> OrderV {
    OrderV {
        id: s.next_order_id,
        user_id: uid,
        products: (lookup(s.users, uid)->0).cart,
        total: cart_total((lookup(s.users, uid)->0).cart, s.products) as u128,
        status: "Pending"@,
    }
}

/// Fetch the calling principal's own account, scoped by the resolved
/// identity. Hands back the summary, never the credential.
pub fn get_my_account(store: &Store, identity: Option<&[u8]>) -> (r: Result<
    UserAccountSummary,
    ServiceError,
>)
    ensures
        r is Ok <==> valid_identity(id_view(identity)) && has_key(
            store@.users,
            principal_of(id_view(identity)),
        ),
        match r {
            Ok(s) => {
                &&& s@ == user_summary_of(lookup(store@.users, principal_of(id_view(identity)))->0)
            },
            Err(e) => {
                &&& (e is Unauthenticated <==> !valid_identity(id_view(identity)))
                &&& (e is NotFound <==> valid_identity(id_view(identity)) && !has_key(
                    store@.users,
                    principal_of(id_view(identity)),
                ))
            },
        },
{
    let uid = match resolve_principal(identity) {
        Ok(uid) => uid,
        Err(e) => {
            return Err(e);
        },
    };
    match store.select_user(uid) {
        Some(u) => Ok(summarize_user(&u)),
        None => Err(ServiceError::NotFound),
    }
}

/// Replace the calling principal's own credentials; the row is chosen by the
/// resolved identity, never by a payload id. Hands back the post-mutation
/// summary.
pub fn update_my_account(
    store: &mut Store,
    identity: Option<&[u8]>,
    username: String,
    password: String,
    email: String,
) -> (r: Result<UserAccountSummary, ServiceError>)
    requires
        old(store)@.wf(),
    ensures
        final(store)@.wf(),
        frames_users(old(store)@, final(store)@),
        final(store)@.next_user_id == old(store)@.next_user_id,
        r is Ok <==> valid_identity(id_view(identity)) && has_key(
            old(store)@.users,
            principal_of(id_view(identity)),
        ),
        match r {
            Ok(s) => {
                &&& s@ == user_summary_of(
                    with_credentials(
                        lookup(old(store)@.users, principal_of(id_view(identity)))->0,
                        username@,
                        password@,
                        email@,
                    ),
                )
                &&& final(store)@.users == replace_key(
                    old(store)@.users,
                    principal_of(id_view(identity)),
                    with_credentials(
                        lookup(old(store)@.users, principal_of(id_view(identity)))->0,
                        username@,
                        password@,
                        email@,
                    ),
                )
            },
            Err(e) => {
                &&& final(store)@.users == old(store)@.users
                &&& (e is Unauthenticated <==> !valid_identity(id_view(identity)))
                &&& (e is NotFound <==> valid_identity(id_view(identity)) && !has_key(
                    old(store)@.users,
                    principal_of(id_view(identity)),
                ))
            },
        },
{
    let uid = match resolve_principal(identity) {
        Ok(uid) => uid,
        Err(e) => {
            return Err(e);
        },
    };
    match store.update_user_credentials(uid, username, password, email) {
        Some(u) => Ok(summarize_user(&u)),
        None => Err(ServiceError::NotFound),
    }
}

/// Delete a user account by id and hand back the deleted row's summary.
pub fn delete_my_account(store: &mut Store, user_id: u64) -> (r: Result<
    UserAccountSummary,
    ServiceError,
>)
    requires
        old(store)@.wf(),
    ensures
        final(store)@.wf(),
        frames_users(old(store)@, final(store)@),
        final(store)@.next_user_id == old(store)@.next_user_id,
        match r {
            Ok(s) => {
                &&& has_key(old(store)@.users, user_id)
                &&& s@ == user_summary_of(lookup(old(store)@.users, user_id)->0)
                &&& final(store)@.users == remove_key(old(store)@.users, user_id)
            },
            Err(e) => {
                &&& e is NotFound
                &&& !has_key(old(store)@.users, user_id)
                &&& final(store)@.users == old(store)@.users
            },
        },
{
    match store.delete_user(user_id) {
        Some(u) => {
            proof {
                crate::keyed::lemma_lookup_props(old(store)@.users, user_id);
            }
            Ok(summarize_user(&u))
        },
        None => {
            proof {
                crate::keyed::lemma_remove_key_absent(old(store)@.users, user_id);
            }
            Err(ServiceError::NotFound)
        },
    }
}

/// Add one product to a user's cart: the product must exist in the catalog
/// (`NotFound` otherwise), and the append allows duplicates, which act like
/// quantity. Hands back the product.
pub fn add_to_cart(store: &mut Store, user_id: u64, product_id: u64) -> (r: Result<
    Product,
    ServiceError,
>)
    requires
        old(store)@.wf(),
    ensures
        final(store)@.wf(),
        frames_users(old(store)@, final(store)@),
        final(store)@.next_user_id == old(store)@.next_user_id,
        match r {
            Ok(p) => {
                &&& has_key(old(store)@.products, product_id)
                &&& lookup(old(store)@.products, product_id) == Some(p@)
                &&& has_key(old(store)@.users, user_id)
                &&& final(store)@.users == replace_key(
                    old(store)@.users,
                    user_id,
                    with_cart(
                        lookup(old(store)@.users, user_id)->0,
                        (lookup(old(store)@.users, user_id)->0).cart.push(product_id),
                    ),
                )
            },
            Err(e) => {
                &&& e is NotFound
                &&& !(has_key(old(store)@.products, product_id) && has_key(
                    old(store)@.users,
                    user_id,
                ))
                &&& final(store)@.users == old(store)@.users
            },
        },
{
    let p = match store.select_product(product_id) {
        Some(p) => p,
        None => {
            return Err(ServiceError::NotFound);
        },
    };
    if store.push_cart(user_id, product_id) {
        Ok(p)
    } else {
        Err(ServiceError::NotFound)
    }
}

/// Remove every occurrence of one product id from a user's cart, then hand
/// back the product. The removal stands on its own: the call fails
/// `NotFound` when the product id no longer exists in the catalog,
/// independently of whether the removal changed anything, and consistently
/// whatever the cart holds.
pub fn remove_from_cart(store: &mut Store, user_id: u64, product_id: u64) -> (r: Result<
    Product,
    ServiceError,
>)
    requires
        old(store)@.wf(),
    ensures
        final(store)@.wf(),
        frames_users(old(store)@, final(store)@),
        final(store)@.next_user_id == old(store)@.next_user_id,
        has_key(old(store)@.users, user_id) ==> final(store)@.users == replace_key(
            old(store)@.users,
            user_id,
            with_cart(
                lookup(old(store)@.users, user_id)->0,
                remove_key((lookup(old(store)@.users, user_id)->0).cart, product_id),
            ),
        ),
        !has_key(old(store)@.users, user_id) ==> final(store)@.users == old(store)@.users,
        match r {
            Ok(p) => {
                &&& has_key(old(store)@.users, user_id)
                &&& has_key(old(store)@.products, product_id)
                &&& lookup(old(store)@.products, product_id) == Some(p@)
            },
            Err(e) => {
                &&& e is NotFound
                &&& (!has_key(old(store)@.users, user_id) || !has_key(
                    old(store)@.products,
                    product_id,
                ))
            },
        },
{
    if !store.remove_cart_all(user_id, product_id) {
        return Err(ServiceError::NotFound);
    }
    match store.select_product(product_id) {
        Some(p) => Ok(p),
        None => Err(ServiceError::NotFound),
    }
}

/// The checkout workflow. The principal is resolved from identity metadata;
/// the user's cart is read, resolved against the catalog, and summed; an
/// order with status `Pending`, the cart snapshot as its line items, and the
/// computed total is recorded and handed back.
///
/// Cart entries whose product was deleted contribute zero to the total
/// rather than failing the checkout. The cart is not cleared: the steps hold
/// no mutual exclusion against other calls, so two checkouts over the same
/// unchanged cart both succeed and record two orders with the same line
/// items and total, under distinct ids.
pub fn checkout(store: &mut Store, identity: Option<&[u8]>) -> (r: Result<Order, ServiceError>)
    requires
        old(store)@.wf(),
        old(store)@.next_order_id < u64::MAX,
    ensures
        final(store)@.wf(),
        frames_orders(old(store)@, final(store)@),
        r is Ok <==> valid_identity(id_view(identity)) && has_key(
            old(store)@.users,
            principal_of(id_view(identity)),
        ),
        match r {
            Ok(o) => {
                &&& o@ == checkout_order(old(store)@, principal_of(id_view(identity)))
                &&& final(store)@.orders == old(store)@.orders.push(o@)
                &&& final(store)@.next_order_id == old(store)@.next_order_id + 1
            },
            Err(e) => {
                &&& final(store)@ == old(store)@
                &&& (e is Unauthenticated <==> !valid_identity(id_view(identity)))
                &&& (e is NotFound <==> valid_identity(id_view(identity)) && !has_key(
                    old(store)@.users,
                    principal_of(id_view(identity)),
                ))
            },
        },
{
    let uid = match resolve_principal(identity) {
        Ok(uid) => uid,
        Err(e) => {
            return Err(e);
        },
    };
    let user = match store.select_user(uid) {
        Some(u) => u,
        None => {
            return Err(ServiceError::NotFound);
        },
    };
    let total = store.total_of_cart(&user.cart);
    proof {
        lemma_cart_total_bounds(user.cart@, store@.products);
    }
    let status = "Pending".to_owned();
    let o = store.insert_order(uid, user.cart, total, status);
    Ok(o)
}

/// The products a user's cart currently resolves to, per occurrence, taken
/// from the payload-supplied user id. A user with an empty cart — or an
/// absent user row — yields an empty list, never a failure.
pub fn get_my_products(store: &Store, user_id: u64) -> (r: Vec<Product>)
    ensures
        views(r@) == resolve(cart_of(store@.users, user_id), store@.products),
{
    match store.select_user(user_id) {
        Some(u) => store.resolve_cart(&u.cart),
        None => {
            let empty: Vec<Product> = Vec::new();
            proof {
                crate::keyed::lemma_lookup_absent(store@.users, user_id);
                assert(cart_of(store@.users, user_id) =~= Seq::<u64>::empty());
                assert(resolve(cart_of(store@.users, user_id), store@.products)
                    == Seq::<crate::domain::ProductV>::empty());
                assert(views(empty@) =~= Seq::<crate::domain::ProductV>::empty());
            }
            empty
        },
    }
}

/// The orders a user owns, in insertion order, taken from the
/// payload-supplied user id.
pub fn get_my_orders(store: &Store, user_id: u64) -> (r: Vec<Order>)
    ensures
        views(r@) == orders_of_user(store@.orders, user_id),
{
    store.select_orders_by_user(user_id)
}

} // verus!
