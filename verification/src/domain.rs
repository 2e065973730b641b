//! Entity shapes of the domain, their mathematical views, and the error
//! taxonomy shared by every facade operation.

use vstd::prelude::*;

use crate::keyed::{Entity, Keyed};

verus! {

/// A catalog product. Identifiers are store-assigned and immutable once
/// created; the price is a non-negative amount in minor currency units.
#[derive(Debug)]
pub struct Product {
    pub id: u64,
    pub name: String,
    pub description: String,
    pub price: u64,
    pub created_at: u64,
}

/// Mathematical view of a [`Product`].
#[verifier::ext_equal]
pub struct ProductV {
    pub id: u64,
    pub name: Seq<char>,
    pub description: Seq<char>,
    pub price: u64,
    pub created_at: u64,
}

impl View for Product {
    type V = ProductV;

    open spec fn view(&self) -> ProductV {
        ProductV {
            id: self.id,
            name: self.name@,
            description: self.description@,
            price: self.price,
            created_at: self.created_at,
        }
    }
}

impl Clone for Product {
    fn clone(&self) -> (r: Self)
        ensures
            r == *self,
    {
        Product {
            id: self.id,
            name: self.name.clone(),
            description: self.description.clone(),
            price: self.price,
            created_at: self.created_at,
        }
    }
}

/// An order recorded by checkout: an immutable snapshot of the cart's
/// product ids and of the total computed from the catalog at that moment.
#[derive(Debug)]
pub struct Order {
    pub id: u64,
    pub user_id: u64,
    pub products: Vec<u64>,
    pub total: u128,
    pub status: String,
}

/// Mathematical view of an [`Order`].
#[verifier::ext_equal]
pub struct OrderV {
    pub id: u64,
    pub user_id: u64,
    pub products: Seq<u64>,
    pub total: u128,
    pub status: Seq<char>,
}

impl View for Order {
    type V = OrderV;

    open spec fn view(&self) -> OrderV {
        OrderV {
            id: self.id,
            user_id: self.user_id,
            products: self.products@,
            total: self.total,
            status: self.status@,
        }
    }
}

impl Clone for Order {
    fn clone(&self) -> (r: Self)
        ensures
            r@ == self@,
    {
        let products = self.products.clone();
        proof {
            assert(products@ =~= self.products@);
        }
        let r = Order {
            id: self.id,
            user_id: self.user_id,
            products,
            total: self.total,
            status: self.status.clone(),
        };
        proof {
            assert(r@ =~= self@);
        }
        r
    }
}

/// A self-service account: credentials, a cart of pending product ids
/// (duplicates allowed, insertion order kept), and a denormalised order-id
/// list that is populated at creation time and never updated afterwards.
#[derive(Debug)]
pub struct UserAccount {
    pub id: u64,
    pub username: String,
    pub password: String,
    pub email: String,
    pub created_at: u64,
    pub cart: Vec<u64>,
    pub orders: Vec<u64>,
}

/// Mathematical view of a [`UserAccount`].
#[verifier::ext_equal]
pub struct UserV {
    pub id: u64,
    pub username: Seq<char>,
    pub password: Seq<char>,
    pub email: Seq<char>,
    pub created_at: u64,
    pub cart: Seq<u64>,
    pub orders: Seq<u64>,
}

impl View for UserAccount {
    type V = UserV;

    open spec fn view(&self) -> UserV {
        UserV {
            id: self.id,
            username: self.username@,
            password: self.password@,
            email: self.email@,
            created_at: self.created_at,
            cart: self.cart@,
            orders: self.orders@,
        }
    }
}

impl Clone for UserAccount {
    fn clone(&self) -> (r: Self)
        ensures
            r@ == self@,
    {
        let cart = self.cart.clone();
        let orders = self.orders.clone();
        proof {
            assert(cart@ =~= self.cart@);
            assert(orders@ =~= self.orders@);
        }
        let r = UserAccount {
            id: self.id,
            username: self.username.clone(),
            password: self.password.clone(),
            email: self.email.clone(),
            created_at: self.created_at,
            cart,
            orders,
        };
        proof {
            assert(r@ =~= self@);
        }
        r
    }
}

/// A privileged account with full CRUD rights over every entity family.
#[derive(Debug)]
pub struct AdminAccount {
    pub id: u64,
    pub username: String,
    pub password: String,
    pub email: String,
    pub created_at: u64,
}

/// Mathematical view of an [`AdminAccount`].
#[verifier::ext_equal]
pub struct AdminV {
    pub id: u64,
    pub username: Seq<char>,
    pub password: Seq<char>,
    pub email: Seq<char>,
    pub created_at: u64,
}

impl View for AdminAccount {
    type V = AdminV;

    open spec fn view(&self) -> AdminV {
        AdminV {
            id: self.id,
            username: self.username@,
            password: self.password@,
            email: self.email@,
            created_at: self.created_at,
        }
    }
}

impl Clone for AdminAccount {
    fn clone(&self) -> (r: Self)
        ensures
            r == *self,
    {
        AdminAccount {
            id: self.id,
            username: self.username.clone(),
            password: self.password.clone(),
            email: self.email.clone(),
            created_at: self.created_at,
        }
    }
}

impl Keyed for ProductV {
    open spec fn key(self) -> u64 {
        self.id
    }
}

impl Entity for Product {
    fn key(&self) -> (k: u64)
        ensures
            k == self@.key(),
    {
        self.id
    }
}

impl Keyed for OrderV {
    open spec fn key(self) -> u64 {
        self.id
    }
}

impl Entity for Order {
    fn key(&self) -> (k: u64)
        ensures
            k == self@.key(),
    {
        self.id
    }
}

impl Keyed for UserV {
    open spec fn key(self) -> u64 {
        self.id
    }
}

impl Entity for UserAccount {
    fn key(&self) -> (k: u64)
        ensures
            k == self@.key(),
    {
        self.id
    }
}

impl Keyed for AdminV {
    open spec fn key(self) -> u64 {
        self.id
    }
}

impl Entity for AdminAccount {
    fn key(&self) -> (k: u64)
        ensures
            k == self@.key(),
    {
        self.id
    }
}

/// What a facade operation can report instead of a result.
///
/// `NotFound` is a lookup whose id has no row. `Unauthenticated` is a
/// self-scoped operation whose identity metadata is missing or unparsable.
/// `StoreFailure` stands for an error of the persistent store behind a
/// deployment; the in-memory store of this crate never raises it, and a
/// shell that talks to a real store maps that store's errors to it.
#[derive(Debug, PartialEq, Eq)]
pub enum ServiceError {
    NotFound,
    StoreFailure,
    Unauthenticated,
}

/// A user account as handed back to callers: every field but the opaque
/// credential, which never leaves the core.
#[derive(Debug)]
pub struct UserAccountSummary {
    pub user_id: u64,
    pub username: String,
    pub email: String,
    pub created_at: u64,
    pub cart: Vec<u64>,
    pub orders: Vec<u64>,
}

/// Mathematical view of a [`UserAccountSummary`].
#[verifier::ext_equal]
pub struct UserSummaryV {
    pub user_id: u64,
    pub username: Seq<char>,
    pub email: Seq<char>,
    pub created_at: u64,
    pub cart: Seq<u64>,
    pub orders: Seq<u64>,
}

impl View for UserAccountSummary {
    type V = UserSummaryV;

    open spec fn view(&self) -> UserSummaryV {
        UserSummaryV {
            user_id: self.user_id,
            username: self.username@,
            email: self.email@,
            created_at: self.created_at,
            cart: self.cart@,
            orders: self.orders@,
        }
    }
}

/// The summary a [`UserV`] maps to.
pub open spec fn user_summary_of(u: UserV) -> UserSummaryV {
    UserSummaryV {
        user_id: u.id,
        username: u.username,
        email: u.email,
        created_at: u.created_at,
        cart: u.cart,
        orders: u.orders,
    }
}

/// The one mapping from a stored user row to its caller-visible summary.
pub fn summarize_user(u: &UserAccount) -> (s: UserAccountSummary)
    ensures
        s@ == user_summary_of(u@),
{
    let cart = u.cart.clone();
    let orders = u.orders.clone();
    proof {
        assert(cart@ =~= u.cart@);
        assert(orders@ =~= u.orders@);
    }
    let s = UserAccountSummary {
        user_id: u.id,
        username: u.username.clone(),
        email: u.email.clone(),
        created_at: u.created_at,
        cart,
        orders,
    };
    proof {
        assert(s@ =~= user_summary_of(u@));
    }
    s
}

/// An admin account as handed back to callers: every field but the opaque
/// credential.
#[derive(Debug)]
pub struct AdminAccountSummary {
    pub admin_id: u64,
    pub username: String,
    pub email: String,
    pub created_at: u64,
}

/// Mathematical view of an [`AdminAccountSummary`].
#[verifier::ext_equal]
pub struct AdminSummaryV {
    pub admin_id: u64,
    pub username: Seq<char>,
    pub email: Seq<char>,
    pub created_at: u64,
}

impl View for AdminAccountSummary {
    type V = AdminSummaryV;

    open spec fn view(&self) -> AdminSummaryV {
        AdminSummaryV {
            admin_id: self.admin_id,
            username: self.username@,
            email: self.email@,
            created_at: self.created_at,
        }
    }
}

/// The summary an [`AdminV`] maps to.
pub open spec fn admin_summary_of(a: AdminV) -> AdminSummaryV {
    AdminSummaryV {
        admin_id: a.id,
        username: a.username,
        email: a.email,
        created_at: a.created_at,
    }
}

/// The one mapping from a stored admin row to its caller-visible summary.
pub fn summarize_admin(a: &AdminAccount) -> (s: AdminAccountSummary)
    ensures
        s@ == admin_summary_of(a@),
{
    let s = AdminAccountSummary {
        admin_id: a.id,
        username: a.username.clone(),
        email: a.email.clone(),
        created_at: a.created_at,
    };
    proof {
        assert(s@ =~= admin_summary_of(a@));
    }
    s
}

} // verus!
