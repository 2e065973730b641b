//! The admin facade: privileged, full CRUD over the four entity families,
//! and the cross-entity reads by user. The one self-scoped operation here —
//! updating the acting admin's own account — resolves its principal from
//! identity metadata, never from the payload.

use vstd::prelude::*;

use crate::cart::resolve;
use crate::domain::{
    admin_summary_of, summarize_admin, summarize_user, user_summary_of, AdminAccountSummary,
    AdminSummaryV, AdminV, Order, OrderV, Product, ProductV, ServiceError, UserAccountSummary,
    UserSummaryV, UserV,
};
use crate::ident::{id_view, principal_of, resolve_principal, valid_identity};
use crate::keyed::{
    has_key, lemma_lookup_props, lemma_remove_key_absent, lemma_views_push, lookup, remove_key,
    replace_key, views,
};
use crate::store::{
    admin_with_credentials, frames_admins, frames_orders, frames_products, frames_users,
    orders_of_user, with_credentials, Store,
};
use crate::user::cart_of;

verus! {

/// The caller-visible summaries of the admin rows, in table order.
pub open spec fn admin_summaries(s: Seq<AdminV>) -> Seq<AdminSummaryV> {
    s.map_values(|a: AdminV| admin_summary_of(a))
}

/// The caller-visible summaries of the user rows, in table order.
pub open spec fn user_summaries(s: Seq<UserV>) -> Seq<UserSummaryV> {
    s.map_values(|u: UserV| user_summary_of(u))
}

/// List the whole catalog.
pub fn get_products(store: &Store) -> (r: Vec<Product>)
    ensures
        views(r@) == store@.products,
{
    store.select_products()
}

/// Fetch one product by id; an absent id is `NotFound`.
pub fn get_product(store: &Store, product_id: u64) -> (r: Result<Product, ServiceError>)
    ensures
        match r {
            Ok(p) => has_key(store@.products, product_id) && lookup(store@.products, product_id)
                == Some(p@),
            Err(e) => e is NotFound && !has_key(store@.products, product_id),
        },
{
    match store.select_product(product_id) {
        Some(p) => Ok(p),
        None => Err(ServiceError::NotFound),
    }
}

/// Create a product, timestamped now by the facade, and hand back the row.
pub fn create_product(
    store: &mut Store,
    name: String,
    description: String,
    price: u64,
    now: u64,
) -> (p: Product)
    requires
        old(store)@.wf(),
        old(store)@.next_product_id < u64::MAX,
    ensures
        final(store)@.wf(),
        frames_products(old(store)@, final(store)@),
        p@ == (ProductV {
            id: old(store)@.next_product_id,
            name: name@,
            description: description@,
            price: price,
            created_at: now,
        }),
        final(store)@.products == old(store)@.products.push(p@),
        final(store)@.next_product_id == old(store)@.next_product_id + 1,
{
    store.insert_product(name, description, price, now)
}

/// Replace a product's caller-supplied fields (full replace; the creation
/// timestamp stays) and hand back the post-mutation row.
pub fn update_product(
    store: &mut Store,
    product_id: u64,
    name: String,
    description: String,
    price: u64,
) -> (r: Result<Product, ServiceError>)
    requires
        old(store)@.wf(),
    ensures
        final(store)@.wf(),
        frames_products(old(store)@, final(store)@),
        final(store)@.next_product_id == old(store)@.next_product_id,
        match r {
            Ok(p) => {
                &&& has_key(old(store)@.products, product_id)
                &&& p@ == (ProductV {
                    id: product_id,
                    name: name@,
                    description: description@,
                    price: price,
                    created_at: (lookup(old(store)@.products, product_id)->0).created_at,
                })
                &&& final(store)@.products == replace_key(old(store)@.products, product_id, p@)
            },
            Err(e) => {
                &&& e is NotFound
                &&& !has_key(old(store)@.products, product_id)
                &&& final(store)@.products == old(store)@.products
            },
        },
{
    match store.update_product(product_id, name, description, price) {
        Some(p) => Ok(p),
        None => Err(ServiceError::NotFound),
    }
}

/// Delete a product by id and hand back the deleted row. Recorded orders are
/// immutable snapshots: the order table — every line-item list and total in
/// it — is untouched.
pub fn delete_product(store: &mut Store, product_id: u64) -> (r: Result<Product, ServiceError>)
    requires
        old(store)@.wf(),
    ensures
        final(store)@.wf(),
        frames_products(old(store)@, final(store)@),
        final(store)@.orders == old(store)@.orders,
        final(store)@.next_product_id == old(store)@.next_product_id,
        final(store)@.products == remove_key(old(store)@.products, product_id),
        match r {
            Ok(p) => has_key(old(store)@.products, product_id) && lookup(
                old(store)@.products,
                product_id,
            ) == Some(p@),
            Err(e) => e is NotFound && !has_key(old(store)@.products, product_id),
        },
{
    match store.delete_product(product_id) {
        Some(p) => {
            proof {
                lemma_lookup_props(old(store)@.products, product_id);
            }
            Ok(p)
        },
        None => Err(ServiceError::NotFound),
    }
}

/// List every order.
pub fn get_orders(store: &Store) -> (r: Vec<Order>)
    ensures
        views(r@) == store@.orders,
{
    store.select_orders()
}

/// Fetch one order by id; an absent id is `NotFound`.
pub fn get_order(store: &Store, order_id: u64) -> (r: Result<Order, ServiceError>)
    ensures
        match r {
            Ok(o) => has_key(store@.orders, order_id) && lookup(store@.orders, order_id) == Some(
                o@,
            ),
            Err(e) => e is NotFound && !has_key(store@.orders, order_id),
        },
{
    match store.select_order(order_id) {
        Some(o) => Ok(o),
        None => Err(ServiceError::NotFound),
    }
}

/// Rewrite an order wholesale — ownership, line items, total and status —
/// without recomputation: a deliberate administrative override, not a
/// checkout re-run. Hands back the post-mutation row.
pub fn update_order(
    store: &mut Store,
    order_id: u64,
    user_id: u64,
    products: Vec<u64>,
    total: u128,
    status: String,
) -> (r: Result<Order, ServiceError>)
    requires
        old(store)@.wf(),
    ensures
        final(store)@.wf(),
        frames_orders(old(store)@, final(store)@),
        final(store)@.next_order_id == old(store)@.next_order_id,
        match r {
            Ok(o) => {
                &&& has_key(old(store)@.orders, order_id)
                &&& o@ == (OrderV {
                    id: order_id,
                    user_id: user_id,
                    products: products@,
                    total: total,
                    status: status@,
                })
                &&& final(store)@.orders == replace_key(old(store)@.orders, order_id, o@)
            },
            Err(e) => {
                &&& e is NotFound
                &&& !has_key(old(store)@.orders, order_id)
                &&& final(store)@.orders == old(store)@.orders
            },
        },
{
    match store.update_order(order_id, user_id, products, total, status) {
        Some(o) => Ok(o),
        None => Err(ServiceError::NotFound),
    }
}

/// Delete an order by id and hand back the deleted row.
pub fn delete_order(store: &mut Store, order_id: u64) -> (r: Result<Order, ServiceError>)
    requires
        old(store)@.wf(),
    ensures
        final(store)@.wf(),
        frames_orders(old(store)@, final(store)@),
        final(store)@.next_order_id == old(store)@.next_order_id,
        final(store)@.orders == remove_key(old(store)@.orders, order_id),
        match r {
            Ok(o) => has_key(old(store)@.orders, order_id) && lookup(
                old(store)@.orders,
                order_id,
            ) == Some(o@),
            Err(e) => e is NotFound && !has_key(old(store)@.orders, order_id),
        },
{
    match store.delete_order(order_id) {
        Some(o) => {
            proof {
                lemma_lookup_props(old(store)@.orders, order_id);
            }
            Ok(o)
        },
        None => Err(ServiceError::NotFound),
    }
}

/// List every admin account, as summaries without the credential.
pub fn get_admin_accounts(store: &Store) -> (r: Vec<AdminAccountSummary>)
    ensures
        views(r@) == admin_summaries(store@.admins),
{
    let rows = store.select_admins();
    let n = rows.len();
    let mut out: Vec<AdminAccountSummary> = Vec::new();
    let mut i: usize = 0;
    while i < n
        invariant
            i <= n,
            n == rows@.len(),
            views(rows@) == store@.admins,
            views(out@) == admin_summaries(store@.admins.take(i as int)),
        decreases n - i,
    {
        let ghost prev = out@;
        out.push(summarize_admin(&rows[i]));
        proof {
            lemma_views_push(prev, out@[out@.len() - 1]);
            assert(out@ =~= prev.push(out@[out@.len() - 1]));
            assert(views(out@) =~= admin_summaries(store@.admins.take(i + 1 as int)));
        }
        i = i + 1;
    }
    proof {
        assert(store@.admins.take(n as int) =~= store@.admins);
    }
    out
}

/// Fetch one admin account by id, as a summary; an absent id is `NotFound`.
pub fn get_admin_account(store: &Store, admin_id: u64) -> (r: Result<
    AdminAccountSummary,
    ServiceError,
>)
    ensures
        match r {
            Ok(s) => has_key(store@.admins, admin_id) && s@ == admin_summary_of(
                lookup(store@.admins, admin_id)->0,
            ),
            Err(e) => e is NotFound && !has_key(store@.admins, admin_id),
        },
{
    match store.select_admin(admin_id) {
        Some(a) => Ok(summarize_admin(&a)),
        None => Err(ServiceError::NotFound),
    }
}

/// Create an admin account, timestamped now by the facade, and hand back its
/// summary.
pub fn create_admin_account(
    store: &mut Store,
    username: String,
    password: String,
    email: String,
    now: u64,
) -> (r: AdminAccountSummary)
    requires
        old(store)@.wf(),
        old(store)@.next_admin_id < u64::MAX,
    ensures
        final(store)@.wf(),
        frames_admins(old(store)@, final(store)@),
        final(store)@.admins == old(store)@.admins.push(
            AdminV {
                id: old(store)@.next_admin_id,
                username: username@,
                password: password@,
                email: email@,
                created_at: now,
            },
        ),
        final(store)@.next_admin_id == old(store)@.next_admin_id + 1,
        r@ == admin_summary_of(final(store)@.admins.last()),
{
    let a = store.insert_admin(username, password, email, now);
    summarize_admin(&a)
}

/// Replace the acting admin's own credentials. The row is chosen by the
/// identity metadata, never by the payload, so an admin can update only
/// their own record even though the operation is exposed on this facade.
pub fn update_admin_account(
    store: &mut Store,
    identity: Option<&[u8]>,
    username: String,
    password: String,
    email: String,
) -> (r: Result<AdminAccountSummary, ServiceError>)
    requires
        old(store)@.wf(),
    ensures
        final(store)@.wf(),
        frames_admins(old(store)@, final(store)@),
        final(store)@.next_admin_id == old(store)@.next_admin_id,
        r is Ok <==> valid_identity(id_view(identity)) && has_key(
            old(store)@.admins,
            principal_of(id_view(identity)),
        ),
        match r {
            Ok(s) => {
                &&& s@ == admin_summary_of(
                    admin_with_credentials(
                        lookup(old(store)@.admins, principal_of(id_view(identity)))->0,
                        username@,
                        password@,
                        email@,
                    ),
                )
                &&& final(store)@.admins == replace_key(
                    old(store)@.admins,
                    principal_of(id_view(identity)),
                    admin_with_credentials(
                        lookup(old(store)@.admins, principal_of(id_view(identity)))->0,
                        username@,
                        password@,
                        email@,
                    ),
                )
            },
            Err(e) => {
                &&& final(store)@.admins == old(store)@.admins
                &&& (e is Unauthenticated <==> !valid_identity(id_view(identity)))
                &&& (e is NotFound <==> valid_identity(id_view(identity)) && !has_key(
                    old(store)@.admins,
                    principal_of(id_view(identity)),
                ))
            },
        },
{
    let aid = match resolve_principal(identity) {
        Ok(aid) => aid,
        Err(e) => {
            return Err(e);
        },
    };
    match store.update_admin(aid, username, password, email) {
        Some(a) => Ok(summarize_admin(&a)),
        None => Err(ServiceError::NotFound),
    }
}

/// Delete an admin account by id — unscoped: any admin id may be deleted —
/// and hand back the deleted row's summary.
pub fn delete_admin_account(store: &mut Store, admin_id: u64) -> (r: Result<
    AdminAccountSummary,
    ServiceError,
>)
    requires
        old(store)@.wf(),
    ensures
        final(store)@.wf(),
        frames_admins(old(store)@, final(store)@),
        final(store)@.next_admin_id == old(store)@.next_admin_id,
        match r {
            Ok(s) => {
                &&& has_key(old(store)@.admins, admin_id)
                &&& s@ == admin_summary_of(lookup(old(store)@.admins, admin_id)->0)
                &&& final(store)@.admins == remove_key(old(store)@.admins, admin_id)
            },
            Err(e) => {
                &&& e is NotFound
                &&& !has_key(old(store)@.admins, admin_id)
                &&& final(store)@.admins == old(store)@.admins
            },
        },
{
    match store.delete_admin(admin_id) {
        Some(a) => {
            proof {
                lemma_lookup_props(old(store)@.admins, admin_id);
            }
            Ok(summarize_admin(&a))
        },
        None => {
            proof {
                lemma_remove_key_absent(old(store)@.admins, admin_id);
            }
            Err(ServiceError::NotFound)
        },
    }
}

/// List every user account, as summaries without the credential.
pub fn get_user_accounts(store: &Store) -> (r: Vec<UserAccountSummary>)
    ensures
        views(r@) == user_summaries(store@.users),
{
    let rows = store.select_users();
    let n = rows.len();
    let mut out: Vec<UserAccountSummary> = Vec::new();
    let mut i: usize = 0;
    while i < n
        invariant
            i <= n,
            n == rows@.len(),
            views(rows@) == store@.users,
            views(out@) == user_summaries(store@.users.take(i as int)),
        decreases n - i,
    {
        let ghost prev = out@;
        out.push(summarize_user(&rows[i]));
        proof {
            lemma_views_push(prev, out@[out@.len() - 1]);
            assert(out@ =~= prev.push(out@[out@.len() - 1]));
            assert(views(out@) =~= user_summaries(store@.users.take(i + 1 as int)));
        }
        i = i + 1;
    }
    proof {
        assert(store@.users.take(n as int) =~= store@.users);
    }
    out
}

/// Fetch one user account by id, as a summary; an absent id is `NotFound`.
pub fn get_user_account(store: &Store, user_id: u64) -> (r: Result<
    UserAccountSummary,
    ServiceError,
>)
    ensures
        match r {
            Ok(s) => has_key(store@.users, user_id) && s@ == user_summary_of(
                lookup(store@.users, user_id)->0,
            ),
            Err(e) => e is NotFound && !has_key(store@.users, user_id),
        },
{
    match store.select_user(user_id) {
        Some(u) => Ok(summarize_user(&u)),
        None => Err(ServiceError::NotFound),
    }
}

/// Create a user account with an empty cart and an empty order list,
/// timestamped now by the facade, and hand back its summary.
pub fn create_user_account(
    store: &mut Store,
    username: String,
    password: String,
    email: String,
    now: u64,
) -> (r: UserAccountSummary)
    requires
        old(store)@.wf(),
        old(store)@.next_user_id < u64::MAX,
    ensures
        final(store)@.wf(),
        frames_users(old(store)@, final(store)@),
        final(store)@.users == old(store)@.users.push(
            UserV {
                id: old(store)@.next_user_id,
                username: username@,
                password: password@,
                email: email@,
                created_at: now,
                cart: Seq::<u64>::empty(),
                orders: Seq::<u64>::empty(),
            },
        ),
        final(store)@.next_user_id == old(store)@.next_user_id + 1,
        r@ == user_summary_of(final(store)@.users.last()),
{
    let u = store.insert_user(username, password, email, now);
    summarize_user(&u)
}

/// Delete a user account by id and hand back the deleted row's summary.
pub fn delete_user_account(store: &mut Store, user_id: u64) -> (r: Result<
    UserAccountSummary,
    ServiceError,
>)
    requires
        old(store)@.wf(),
    ensures
        final(store)@.wf(),
        frames_users(old(store)@, final(store)@),
        final(store)@.next_user_id == old(store)@.next_user_id,
        match r {
            Ok(s) => {
                &&& has_key(old(store)@.users, user_id)
                &&& s@ == user_summary_of(lookup(old(store)@.users, user_id)->0)
                &&& final(store)@.users == remove_key(old(store)@.users, user_id)
            },
            Err(e) => {
                &&& e is NotFound
                &&& !has_key(old(store)@.users, user_id)
                &&& final(store)@.users == old(store)@.users
            },
        },
{
    match store.delete_user(user_id) {
        Some(u) => {
            proof {
                lemma_lookup_props(old(store)@.users, user_id);
            }
            Ok(summarize_user(&u))
        },
        None => {
            proof {
                lemma_remove_key_absent(old(store)@.users, user_id);
            }
            Err(ServiceError::NotFound)
        },
    }
}

/// The products a user's cart currently resolves to, per occurrence. A user
/// with an empty cart — or an absent user row — yields an empty product
/// list, never a failure.
pub fn get_products_by_user(store: &Store, user_id: u64) -> (r: Vec<Product>)
    ensures
        views(r@) == resolve(cart_of(store@.users, user_id), store@.products),
{
    match store.select_user(user_id) {
        Some(u) => store.resolve_cart(&u.cart),
        None => {
            let empty: Vec<Product> = Vec::new();
            proof {
                crate::keyed::lemma_lookup_absent(store@.users, user_id);
                assert(cart_of(store@.users, user_id) =~= Seq::<u64>::empty());
                assert(resolve(cart_of(store@.users, user_id), store@.products)
                    == Seq::<ProductV>::empty());
                assert(views(empty@) =~= Seq::<ProductV>::empty());
            }
            empty
        },
    }
}

/// The orders a user owns, in insertion order.
pub fn get_orders_by_user(store: &Store, user_id: u64) -> (r: Vec<Order>)
    ensures
        views(r@) == orders_of_user(store@.orders, user_id),
{
    store.select_orders_by_user(user_id)
}

} // verus!
