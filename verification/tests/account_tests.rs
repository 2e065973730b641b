use ecom_core::admin;
use ecom_core::domain::ServiceError;
use ecom_core::ident::resolve_principal;
use ecom_core::store::Store;
use ecom_core::storefront;
use ecom_core::user;

#[test]
fn register_user_starts_with_empty_cart_and_orders() {
    let mut store = Store::new();
    let u = storefront::register_user(
        &mut store,
        "alice".to_owned(),
        "pw".to_owned(),
        "alice@x".to_owned(),
        900,
    );
    assert_eq!(u.username, "alice");
    assert_eq!(u.email, "alice@x");
    assert_eq!(u.created_at, 900);
    assert!(u.cart.is_empty());
    assert!(u.orders.is_empty());
    let fetched = admin::get_user_account(&store, u.user_id).unwrap();
    assert_eq!(fetched.username, "alice");
    assert!(fetched.cart.is_empty());
}

#[test]
fn get_my_account_is_scoped_to_the_resolved_principal() {
    let mut store = Store::new();
    let u1 = storefront::register_user(
        &mut store,
        "first".to_owned(),
        "pw".to_owned(),
        "1@x".to_owned(),
        1,
    );
    let u2 = storefront::register_user(
        &mut store,
        "second".to_owned(),
        "pw".to_owned(),
        "2@x".to_owned(),
        2,
    );
    let id2 = u2.user_id.to_string().into_bytes();
    let mine = user::get_my_account(&store, Some(&id2)).unwrap();
    assert_eq!(mine.user_id, u2.user_id);
    assert_eq!(mine.username, "second");
    let id1 = u1.user_id.to_string().into_bytes();
    let other = user::get_my_account(&store, Some(&id1)).unwrap();
    assert_eq!(other.username, "first");
    assert_eq!(
        user::get_my_account(&store, None).unwrap_err(),
        ServiceError::Unauthenticated
    );
    assert_eq!(
        user::get_my_account(&store, Some(b"99")).unwrap_err(),
        ServiceError::NotFound
    );
}

#[test]
fn update_my_account_touches_only_the_acting_user() {
    let mut store = Store::new();
    let u1 = storefront::register_user(
        &mut store,
        "first".to_owned(),
        "pw".to_owned(),
        "1@x".to_owned(),
        1,
    );
    let u2 = storefront::register_user(
        &mut store,
        "second".to_owned(),
        "pw".to_owned(),
        "2@x".to_owned(),
        2,
    );
    let id1 = u1.user_id.to_string().into_bytes();
    let updated = user::update_my_account(
        &mut store,
        Some(&id1),
        "renamed".to_owned(),
        "pw2".to_owned(),
        "new@x".to_owned(),
    )
    .unwrap();
    assert_eq!(updated.user_id, u1.user_id);
    assert_eq!(updated.username, "renamed");
    assert_eq!(updated.email, "new@x");
    assert_eq!(updated.created_at, 1);
    let other = admin::get_user_account(&store, u2.user_id).unwrap();
    assert_eq!(other.username, "second");
    assert_eq!(
        user::update_my_account(
            &mut store,
            None,
            "x".to_owned(),
            "x".to_owned(),
            "x".to_owned(),
        )
        .unwrap_err(),
        ServiceError::Unauthenticated
    );
    assert_eq!(
        user::update_my_account(
            &mut store,
            Some(b"99"),
            "x".to_owned(),
            "x".to_owned(),
            "x".to_owned(),
        )
        .unwrap_err(),
        ServiceError::NotFound
    );
}

#[test]
fn delete_my_account_returns_the_row_then_not_found() {
    let mut store = Store::new();
    let u = storefront::register_user(
        &mut store,
        "gone".to_owned(),
        "pw".to_owned(),
        "g@x".to_owned(),
        3,
    );
    let deleted = user::delete_my_account(&mut store, u.user_id).unwrap();
    assert_eq!(deleted.user_id, u.user_id);
    assert_eq!(deleted.username, "gone");
    assert_eq!(
        admin::get_user_account(&store, u.user_id).unwrap_err(),
        ServiceError::NotFound
    );
    assert_eq!(
        user::delete_my_account(&mut store, u.user_id).unwrap_err(),
        ServiceError::NotFound
    );
}

#[test]
fn admin_account_crud_round_trip() {
    let mut store = Store::new();
    let a = admin::create_admin_account(
        &mut store,
        "root".to_owned(),
        "pw".to_owned(),
        "root@x".to_owned(),
        10,
    );
    assert_eq!(a.username, "root");
    assert_eq!(a.created_at, 10);
    let listed = admin::get_admin_accounts(&store);
    assert_eq!(listed.len(), 1);
    assert_eq!(listed[0].admin_id, a.admin_id);
    let id_bytes = a.admin_id.to_string().into_bytes();
    let updated = admin::update_admin_account(
        &mut store,
        Some(&id_bytes),
        "root2".to_owned(),
        "pw2".to_owned(),
        "root2@x".to_owned(),
    )
    .unwrap();
    assert_eq!(updated.admin_id, a.admin_id);
    assert_eq!(updated.username, "root2");
    assert_eq!(updated.created_at, 10);
    assert_eq!(
        admin::update_admin_account(
            &mut store,
            None,
            "x".to_owned(),
            "x".to_owned(),
            "x".to_owned(),
        )
        .unwrap_err(),
        ServiceError::Unauthenticated
    );
    let deleted = admin::delete_admin_account(&mut store, a.admin_id).unwrap();
    assert_eq!(deleted.username, "root2");
    assert_eq!(
        admin::get_admin_account(&store, a.admin_id).unwrap_err(),
        ServiceError::NotFound
    );
}

#[test]
fn seed_admin_is_idempotent() {
    let mut store = Store::new();
    assert!(store.seed_admin(
        "admin".to_owned(),
        "admin".to_owned(),
        "admin".to_owned(),
    ));
    assert!(!store.seed_admin(
        "admin".to_owned(),
        "admin".to_owned(),
        "admin".to_owned(),
    ));
    let seeded = admin::get_admin_account(&store, 0).unwrap();
    assert_eq!(seeded.admin_id, 0);
    assert_eq!(seeded.username, "admin");
    assert_eq!(seeded.created_at, 0);
    assert_eq!(admin::get_admin_accounts(&store).len(), 1);
}

#[test]
fn admin_creates_and_deletes_user_accounts() {
    let mut store = Store::new();
    let u = admin::create_user_account(
        &mut store,
        "managed".to_owned(),
        "pw".to_owned(),
        "m@x".to_owned(),
        5,
    );
    assert_eq!(u.username, "managed");
    assert!(u.cart.is_empty());
    assert!(u.orders.is_empty());
    let listed = admin::get_user_accounts(&store);
    assert_eq!(listed.len(), 1);
    assert_eq!(listed[0].user_id, u.user_id);
    let deleted = admin::delete_user_account(&mut store, u.user_id).unwrap();
    assert_eq!(deleted.user_id, u.user_id);
    assert_eq!(
        admin::delete_user_account(&mut store, u.user_id).unwrap_err(),
        ServiceError::NotFound
    );
}

#[test]
fn products_by_user_with_empty_cart_is_an_empty_list() {
    let mut store = Store::new();
    let u = storefront::register_user(
        &mut store,
        "empty".to_owned(),
        "pw".to_owned(),
        "e@x".to_owned(),
        1,
    );
    assert!(admin::get_products_by_user(&store, u.user_id).is_empty());
    // An absent user also yields an empty list, not a failure.
    assert!(admin::get_products_by_user(&store, 99).is_empty());
    assert!(user::get_my_products(&store, 99).is_empty());
}

#[test]
fn principal_resolution_parses_exact_decimal_ids() {
    assert_eq!(resolve_principal(Some(b"42")).unwrap(), 42);
    assert_eq!(resolve_principal(Some(b"0")).unwrap(), 0);
    assert_eq!(
        resolve_principal(Some(b"18446744073709551615")).unwrap(),
        u64::MAX
    );
    assert_eq!(
        resolve_principal(Some(b"18446744073709551616")).unwrap_err(),
        ServiceError::Unauthenticated
    );
    assert_eq!(
        resolve_principal(Some(b"12a")).unwrap_err(),
        ServiceError::Unauthenticated
    );
    assert_eq!(
        resolve_principal(Some(b"-4")).unwrap_err(),
        ServiceError::Unauthenticated
    );
    assert_eq!(
        resolve_principal(Some(b"")).unwrap_err(),
        ServiceError::Unauthenticated
    );
    assert_eq!(
        resolve_principal(None).unwrap_err(),
        ServiceError::Unauthenticated
    );
}
