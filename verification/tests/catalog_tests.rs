use ecom_core::admin;
use ecom_core::domain::ServiceError;
use ecom_core::store::Store;
use ecom_core::storefront;

#[test]
fn inserted_product_is_fetched_back() {
    let mut store = Store::new();
    let p = admin::create_product(
        &mut store,
        "Widget".to_owned(),
        "A fine widget".to_owned(),
        1099,
        42,
    );
    let fetched = storefront::get_product(&store, p.id).unwrap();
    assert_eq!(fetched.id, p.id);
    assert_eq!(fetched.name, "Widget");
    assert_eq!(fetched.description, "A fine widget");
    assert_eq!(fetched.price, 1099);
    assert_eq!(fetched.created_at, 42);
}

#[test]
fn get_product_missing_is_not_found() {
    let store = Store::new();
    let r = storefront::get_product(&store, 999);
    assert_eq!(r.unwrap_err(), ServiceError::NotFound);
}

#[test]
fn list_products_keeps_insertion_order() {
    let mut store = Store::new();
    let a = admin::create_product(&mut store, "A".to_owned(), "".to_owned(), 10, 1);
    let b = admin::create_product(&mut store, "B".to_owned(), "".to_owned(), 15, 2);
    assert_ne!(a.id, b.id);
    let all = storefront::list_products(&store);
    assert_eq!(all.len(), 2);
    assert_eq!(all[0].id, a.id);
    assert_eq!(all[0].name, "A");
    assert_eq!(all[1].id, b.id);
    assert_eq!(all[1].name, "B");
}

#[test]
fn update_product_replaces_fields_and_keeps_timestamp() {
    let mut store = Store::new();
    let p = admin::create_product(&mut store, "Old".to_owned(), "old".to_owned(), 5, 77);
    let updated = admin::update_product(
        &mut store,
        p.id,
        "New".to_owned(),
        "new".to_owned(),
        9,
    )
    .unwrap();
    assert_eq!(updated.id, p.id);
    assert_eq!(updated.name, "New");
    assert_eq!(updated.description, "new");
    assert_eq!(updated.price, 9);
    assert_eq!(updated.created_at, 77);
    let fetched = admin::get_product(&store, p.id).unwrap();
    assert_eq!(fetched.name, "New");
    assert_eq!(fetched.created_at, 77);
}

#[test]
fn update_product_missing_is_not_found() {
    let mut store = Store::new();
    let r = admin::update_product(&mut store, 3, "N".to_owned(), "d".to_owned(), 1);
    assert_eq!(r.unwrap_err(), ServiceError::NotFound);
}

#[test]
fn delete_product_returns_row_then_not_found() {
    let mut store = Store::new();
    let p = admin::create_product(&mut store, "Gone".to_owned(), "g".to_owned(), 3, 9);
    let deleted = admin::delete_product(&mut store, p.id).unwrap();
    assert_eq!(deleted.id, p.id);
    assert_eq!(deleted.name, "Gone");
    assert_eq!(
        storefront::get_product(&store, p.id).unwrap_err(),
        ServiceError::NotFound
    );
    assert_eq!(
        admin::delete_product(&mut store, p.id).unwrap_err(),
        ServiceError::NotFound
    );
}

#[test]
fn product_ids_are_not_reused_after_delete() {
    let mut store = Store::new();
    let a = admin::create_product(&mut store, "A".to_owned(), "".to_owned(), 1, 1);
    admin::delete_product(&mut store, a.id).unwrap();
    let b = admin::create_product(&mut store, "B".to_owned(), "".to_owned(), 2, 2);
    assert_ne!(b.id, a.id);
}

#[test]
fn admin_order_update_is_a_full_replace() {
    let mut store = Store::new();
    let u = storefront::register_user(
        &mut store,
        "u".to_owned(),
        "pw".to_owned(),
        "u@x".to_owned(),
        1,
    );
    let p = admin::create_product(&mut store, "A".to_owned(), "".to_owned(), 10, 1);
    ecom_core::user::add_to_cart(&mut store, u.user_id, p.id).unwrap();
    let id_bytes = u.user_id.to_string().into_bytes();
    let order = ecom_core::user::checkout(&mut store, Some(&id_bytes)).unwrap();
    let rewritten = admin::update_order(
        &mut store,
        order.id,
        77,
        vec![5, 6, 7],
        12345,
        "Fulfilled".to_owned(),
    )
    .unwrap();
    assert_eq!(rewritten.id, order.id);
    assert_eq!(rewritten.user_id, 77);
    assert_eq!(rewritten.products, vec![5, 6, 7]);
    assert_eq!(rewritten.total, 12345);
    assert_eq!(rewritten.status, "Fulfilled");
    let fetched = admin::get_order(&store, order.id).unwrap();
    assert_eq!(fetched.total, 12345);
    assert_eq!(fetched.status, "Fulfilled");
}

#[test]
fn admin_delete_order_returns_row_then_not_found() {
    let mut store = Store::new();
    let u = storefront::register_user(
        &mut store,
        "u".to_owned(),
        "pw".to_owned(),
        "u@x".to_owned(),
        1,
    );
    let id_bytes = u.user_id.to_string().into_bytes();
    let order = ecom_core::user::checkout(&mut store, Some(&id_bytes)).unwrap();
    let deleted = admin::delete_order(&mut store, order.id).unwrap();
    assert_eq!(deleted.id, order.id);
    assert_eq!(
        admin::get_order(&store, order.id).unwrap_err(),
        ServiceError::NotFound
    );
    assert_eq!(
        admin::delete_order(&mut store, order.id).unwrap_err(),
        ServiceError::NotFound
    );
}
