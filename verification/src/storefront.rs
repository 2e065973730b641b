//! The storefront facade: read-only, unauthenticated access to the product
//! catalog, and self-registration. No authorization check: any caller may
//! invoke any operation here.

use vstd::prelude::*;

use crate::domain::{
    summarize_user, user_summary_of, Product, ServiceError, UserAccountSummary, UserV,
};
use crate::keyed::{has_key, lookup, views};
use crate::store::{frames_users, Store};

verus! {

/// List the whole catalog.
pub fn list_products(store: &Store) -> (r: Vec<Product>)
    ensures
        views(r@) == store@.products,
{
    store.select_products()
}

/// Fetch one product by id. An absent id is reported `NotFound`, distinctly
/// from any internal failure.
pub fn get_product(store: &Store, product_id: u64) -> (r: Result<Product, ServiceError>)
    ensures
        match r {
            Ok(p) => has_key(store@.products, product_id) && lookup(store@.products, product_id)
                == Some(p@),
            Err(e) => e is NotFound && !has_key(store@.products, product_id),
        },
{
    match store.select_product(product_id) {
        Some(p) => Ok(p),
        None => Err(ServiceError::NotFound),
    }
}

/// Register a user account with an empty cart and an empty order list,
/// timestamped now by the facade. Hands back the account summary, never the
/// credential.
pub fn register_user(
    store: &mut Store,
    username: String,
    password: String,
    email: String,
    now: u64,
) -> (r: UserAccountSummary)
    requires
        old(store)@.wf(),
        old(store)@.next_user_id < u64::MAX,
    ensures
        final(store)@.wf(),
        frames_users(old(store)@, final(store)@),
        final(store)@.users == old(store)@.users.push(
            UserV {
                id: old(store)@.next_user_id,
                username: username@,
                password: password@,
                email: email@,
                created_at: now,
                cart: Seq::<u64>::empty(),
                orders: Seq::<u64>::empty(),
            },
        ),
        final(store)@.next_user_id == old(store)@.next_user_id + 1,
        r@ == user_summary_of(final(store)@.users.last()),
{
    let u = store.insert_user(username, password, email, now);
    summarize_user(&u)
}

} // verus!
