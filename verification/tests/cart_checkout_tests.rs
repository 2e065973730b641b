use ecom_core::admin;
use ecom_core::domain::ServiceError;
use ecom_core::store::Store;
use ecom_core::storefront;
use ecom_core::user;

fn identity_for(user_id: u64) -> Vec<u8> {
    user_id.to_string().into_bytes()
}

#[test]
fn add_to_cart_returns_product_and_allows_duplicates() {
    let mut store = Store::new();
    let u = storefront::register_user(
        &mut store,
        "u".to_owned(),
        "pw".to_owned(),
        "u@x".to_owned(),
        1,
    );
    let p = admin::create_product(&mut store, "A".to_owned(), "".to_owned(), 10, 1);
    let first = user::add_to_cart(&mut store, u.user_id, p.id).unwrap();
    assert_eq!(first.id, p.id);
    let second = user::add_to_cart(&mut store, u.user_id, p.id).unwrap();
    assert_eq!(second.id, p.id);
    let in_cart = user::get_my_products(&store, u.user_id);
    assert_eq!(in_cart.len(), 2);
    assert_eq!(in_cart[0].id, p.id);
    assert_eq!(in_cart[1].id, p.id);
}

#[test]
fn add_to_cart_missing_product_or_user_is_not_found() {
    let mut store = Store::new();
    let u = storefront::register_user(
        &mut store,
        "u".to_owned(),
        "pw".to_owned(),
        "u@x".to_owned(),
        1,
    );
    assert_eq!(
        user::add_to_cart(&mut store, u.user_id, 50).unwrap_err(),
        ServiceError::NotFound
    );
    let p = admin::create_product(&mut store, "A".to_owned(), "".to_owned(), 10, 1);
    assert_eq!(
        user::add_to_cart(&mut store, 50, p.id).unwrap_err(),
        ServiceError::NotFound
    );
    assert!(user::get_my_products(&store, u.user_id).is_empty());
}

#[test]
fn remove_from_cart_removes_every_occurrence() {
    let mut store = Store::new();
    let u = storefront::register_user(
        &mut store,
        "u".to_owned(),
        "pw".to_owned(),
        "u@x".to_owned(),
        1,
    );
    let a = admin::create_product(&mut store, "A".to_owned(), "".to_owned(), 10, 1);
    let b = admin::create_product(&mut store, "B".to_owned(), "".to_owned(), 15, 1);
    user::add_to_cart(&mut store, u.user_id, a.id).unwrap();
    user::add_to_cart(&mut store, u.user_id, a.id).unwrap();
    user::add_to_cart(&mut store, u.user_id, b.id).unwrap();
    let returned = user::remove_from_cart(&mut store, u.user_id, a.id).unwrap();
    assert_eq!(returned.id, a.id);
    let in_cart = user::get_my_products(&store, u.user_id);
    assert_eq!(in_cart.len(), 1);
    assert_eq!(in_cart[0].id, b.id);
}

#[test]
fn remove_from_cart_of_deleted_product_fails_not_found_both_times() {
    let mut store = Store::new();
    let u = storefront::register_user(
        &mut store,
        "u".to_owned(),
        "pw".to_owned(),
        "u@x".to_owned(),
        1,
    );
    let p = admin::create_product(&mut store, "A".to_owned(), "".to_owned(), 10, 1);
    user::add_to_cart(&mut store, u.user_id, p.id).unwrap();
    admin::delete_product(&mut store, p.id).unwrap();
    // First call: the cart still holds the id, the catalog does not.
    assert_eq!(
        user::remove_from_cart(&mut store, u.user_id, p.id).unwrap_err(),
        ServiceError::NotFound
    );
    // The removal itself went through even though the call failed.
    assert!(user::get_my_products(&store, u.user_id).is_empty());
    // Second call, now on an empty cart: the same failure, consistently.
    assert_eq!(
        user::remove_from_cart(&mut store, u.user_id, p.id).unwrap_err(),
        ServiceError::NotFound
    );
}

#[test]
fn checkout_scenario_two_products() {
    let mut store = Store::new();
    let a = admin::create_product(&mut store, "A".to_owned(), "".to_owned(), 10, 1);
    let b = admin::create_product(&mut store, "B".to_owned(), "".to_owned(), 15, 1);
    let u = storefront::register_user(
        &mut store,
        "u".to_owned(),
        "pw".to_owned(),
        "u@x".to_owned(),
        1,
    );
    user::add_to_cart(&mut store, u.user_id, a.id).unwrap();
    user::add_to_cart(&mut store, u.user_id, b.id).unwrap();
    let id_bytes = identity_for(u.user_id);
    let order = user::checkout(&mut store, Some(&id_bytes)).unwrap();
    assert_eq!(order.user_id, u.user_id);
    assert_eq!(order.products, vec![a.id, b.id]);
    assert_eq!(order.total, 25);
    assert_eq!(order.status, "Pending");
    // Deleting a product afterwards must not change the recorded order.
    admin::delete_product(&mut store, b.id).unwrap();
    let recorded = admin::get_order(&store, order.id).unwrap();
    assert_eq!(recorded.total, 25);
    assert_eq!(recorded.products, vec![a.id, b.id]);
    assert_eq!(recorded.status, "Pending");
}

#[test]
fn checkout_on_empty_cart_records_an_empty_pending_order() {
    let mut store = Store::new();
    let u = storefront::register_user(
        &mut store,
        "u".to_owned(),
        "pw".to_owned(),
        "u@x".to_owned(),
        1,
    );
    let id_bytes = identity_for(u.user_id);
    let order = user::checkout(&mut store, Some(&id_bytes)).unwrap();
    assert_eq!(order.total, 0);
    assert!(order.products.is_empty());
    assert_eq!(order.status, "Pending");
}

#[test]
fn checkout_drops_deleted_ids_from_the_total_only() {
    let mut store = Store::new();
    let a = admin::create_product(&mut store, "A".to_owned(), "".to_owned(), 10, 1);
    let b = admin::create_product(&mut store, "B".to_owned(), "".to_owned(), 15, 1);
    let u = storefront::register_user(
        &mut store,
        "u".to_owned(),
        "pw".to_owned(),
        "u@x".to_owned(),
        1,
    );
    user::add_to_cart(&mut store, u.user_id, a.id).unwrap();
    user::add_to_cart(&mut store, u.user_id, b.id).unwrap();
    admin::delete_product(&mut store, b.id).unwrap();
    let id_bytes = identity_for(u.user_id);
    let order = user::checkout(&mut store, Some(&id_bytes)).unwrap();
    // The deleted id contributes zero; the cart snapshot still lists it.
    assert_eq!(order.total, 10);
    assert_eq!(order.products, vec![a.id, b.id]);
    assert_eq!(order.status, "Pending");
}

#[test]
fn checkout_counts_every_occurrence_of_a_duplicate() {
    let mut store = Store::new();
    let a = admin::create_product(&mut store, "A".to_owned(), "".to_owned(), 10, 1);
    let u = storefront::register_user(
        &mut store,
        "u".to_owned(),
        "pw".to_owned(),
        "u@x".to_owned(),
        1,
    );
    user::add_to_cart(&mut store, u.user_id, a.id).unwrap();
    user::add_to_cart(&mut store, u.user_id, a.id).unwrap();
    let id_bytes = identity_for(u.user_id);
    let order = user::checkout(&mut store, Some(&id_bytes)).unwrap();
    assert_eq!(order.total, 20);
    assert_eq!(order.products, vec![a.id, a.id]);
}

#[test]
fn two_checkouts_over_the_same_cart_both_succeed() {
    // The steps of checkout hold no mutual exclusion and the cart is never
    // cleared, so a second checkout over the unchanged cart double-books:
    // it records a second order with the same line items and total.
    let mut store = Store::new();
    let a = admin::create_product(&mut store, "A".to_owned(), "".to_owned(), 10, 1);
    let u = storefront::register_user(
        &mut store,
        "u".to_owned(),
        "pw".to_owned(),
        "u@x".to_owned(),
        1,
    );
    user::add_to_cart(&mut store, u.user_id, a.id).unwrap();
    let id_bytes = identity_for(u.user_id);
    let first = user::checkout(&mut store, Some(&id_bytes)).unwrap();
    let second = user::checkout(&mut store, Some(&id_bytes)).unwrap();
    assert_ne!(first.id, second.id);
    assert_eq!(first.products, second.products);
    assert_eq!(first.total, second.total);
    assert_eq!(second.status, "Pending");
    let recorded = admin::get_orders(&store);
    assert_eq!(recorded.len(), 2);
    // The cart is intact after both.
    let in_cart = user::get_my_products(&store, u.user_id);
    assert_eq!(in_cart.len(), 1);
    assert_eq!(in_cart[0].id, a.id);
}

#[test]
fn checkout_without_identity_is_unauthenticated() {
    let mut store = Store::new();
    assert_eq!(
        user::checkout(&mut store, None).unwrap_err(),
        ServiceError::Unauthenticated
    );
    assert_eq!(
        user::checkout(&mut store, Some(b"abc")).unwrap_err(),
        ServiceError::Unauthenticated
    );
    assert_eq!(
        user::checkout(&mut store, Some(b"")).unwrap_err(),
        ServiceError::Unauthenticated
    );
}

#[test]
fn checkout_for_an_unknown_user_is_not_found() {
    let mut store = Store::new();
    assert_eq!(
        user::checkout(&mut store, Some(b"7")).unwrap_err(),
        ServiceError::NotFound
    );
}

#[test]
fn orders_are_scoped_to_their_owner() {
    let mut store = Store::new();
    let a = admin::create_product(&mut store, "A".to_owned(), "".to_owned(), 10, 1);
    let u1 = storefront::register_user(
        &mut store,
        "u1".to_owned(),
        "pw".to_owned(),
        "1@x".to_owned(),
        1,
    );
    let u2 = storefront::register_user(
        &mut store,
        "u2".to_owned(),
        "pw".to_owned(),
        "2@x".to_owned(),
        1,
    );
    user::add_to_cart(&mut store, u1.user_id, a.id).unwrap();
    let id1 = identity_for(u1.user_id);
    let id2 = identity_for(u2.user_id);
    let o1 = user::checkout(&mut store, Some(&id1)).unwrap();
    let o2 = user::checkout(&mut store, Some(&id2)).unwrap();
    let mine = user::get_my_orders(&store, u1.user_id);
    assert_eq!(mine.len(), 1);
    assert_eq!(mine[0].id, o1.id);
    let theirs = admin::get_orders_by_user(&store, u2.user_id);
    assert_eq!(theirs.len(), 1);
    assert_eq!(theirs[0].id, o2.id);
    assert_eq!(theirs[0].total, 0);
}
