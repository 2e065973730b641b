//! The store: four entity tables with store-assigned identifiers, and the
//! gateway operations (select one or many, insert, update, delete) every
//! facade goes through. No facade touches a table directly.

use vstd::prelude::*;

use crate::domain::{
    AdminAccount, AdminV, Order, OrderV, Product, ProductV, UserAccount, UserV,
};
use crate::cart::{cart_total, lemma_cart_total_push, lemma_resolve_push, resolve};
use crate::keyed::{
    has_key, index_of_key, keys_below, lemma_keys_below_absent, lemma_lookup_absent,
    lemma_lookup_found, lemma_push_fresh, lemma_remove_key_wf, lemma_replace_key_at,
    lemma_replace_key_props, lemma_views_push, lookup, remove_by_key, remove_key,
    replace_by_key, replace_key, unique_keys, views, Keyed,
};

verus! {

/// Mathematical view of the whole store.
#[verifier::ext_equal]
pub struct StoreV {
    pub products: Seq<ProductV>,
    pub orders: Seq<OrderV>,
    pub users: Seq<UserV>,
    pub admins: Seq<AdminV>,
    pub next_product_id: u64,
    pub next_order_id: u64,
    pub next_user_id: u64,
    pub next_admin_id: u64,
}

/// A table is well-formed when its keys are unique and lie below the counter
/// the next insert will draw from.
pub open spec fn table_wf<T: Keyed>(s: Seq<T>, next: u64) -> bool {
    &&& unique_keys(s)
    &&& keys_below(s, next)
}

impl StoreV {
    /// Every table is well-formed, and every identifier counter stays above
    /// the well-known bootstrap admin id, zero.
    pub open spec fn wf(self) -> bool {
        &&& table_wf(self.products, self.next_product_id)
        &&& table_wf(self.orders, self.next_order_id)
        &&& table_wf(self.users, self.next_user_id)
        &&& table_wf(self.admins, self.next_admin_id)
        &&& self.next_product_id >= 1
        &&& self.next_order_id >= 1
        &&& self.next_user_id >= 1
        &&& self.next_admin_id >= 1
    }
}

/// A user row with its credentials replaced and all else kept.
pub open spec fn with_credentials(
    u: UserV,
    username: Seq<char>,
    password: Seq<char>,
    email: Seq<char>,
) -> UserV {
    UserV {
        id: u.id,
        username,
        password,
        email,
        created_at: u.created_at,
        cart: u.cart,
        orders: u.orders,
    }
}

/// A user row with its cart replaced and all else kept.
pub open spec fn with_cart(u: UserV, cart: Seq<u64>) -> UserV {
    UserV {
        id: u.id,
        username: u.username,
        password: u.password,
        email: u.email,
        created_at: u.created_at,
        cart,
        orders: u.orders,
    }
}

/// An admin row with its credentials replaced and all else kept.
pub open spec fn admin_with_credentials(
    a: AdminV,
    username: Seq<char>,
    password: Seq<char>,
    email: Seq<char>,
) -> AdminV {
    AdminV { id: a.id, username, password, email, created_at: a.created_at }
}

/// An operation on the product table leaves the rest of the store untouched.
pub open spec fn frames_products(pre: StoreV, post: StoreV) -> bool {
    &&& post.orders == pre.orders
    &&& post.users == pre.users
    &&& post.admins == pre.admins
    &&& post.next_order_id == pre.next_order_id
    &&& post.next_user_id == pre.next_user_id
    &&& post.next_admin_id == pre.next_admin_id
}

/// An operation on the order table leaves the rest of the store untouched.
pub open spec fn frames_orders(pre: StoreV, post: StoreV) -> bool {
    &&& post.products == pre.products
    &&& post.users == pre.users
    &&& post.admins == pre.admins
    &&& post.next_product_id == pre.next_product_id
    &&& post.next_user_id == pre.next_user_id
    &&& post.next_admin_id == pre.next_admin_id
}

/// An operation on the user table leaves the rest of the store untouched.
pub open spec fn frames_users(pre: StoreV, post: StoreV) -> bool {
    &&& post.products == pre.products
    &&& post.orders == pre.orders
    &&& post.admins == pre.admins
    &&& post.next_product_id == pre.next_product_id
    &&& post.next_order_id == pre.next_order_id
    &&& post.next_admin_id == pre.next_admin_id
}

/// An operation on the admin table leaves the rest of the store untouched.
pub open spec fn frames_admins(pre: StoreV, post: StoreV) -> bool {
    &&& post.products == pre.products
    &&& post.orders == pre.orders
    &&& post.users == pre.users
    &&& post.next_product_id == pre.next_product_id
    &&& post.next_order_id == pre.next_order_id
    &&& post.next_user_id == pre.next_user_id
}

/// The store: all state of the system lives here, and it is the sole
/// synchronisation point between calls.
pub struct Store {
    products: Vec<Product>,
    orders: Vec<Order>,
    users: Vec<UserAccount>,
    admins: Vec<AdminAccount>,
    next_product_id: u64,
    next_order_id: u64,
    next_user_id: u64,
    next_admin_id: u64,
}

impl View for Store {
    type V = StoreV;

    closed spec fn view(&self) -> StoreV {
        StoreV {
            products: views(self.products@),
            orders: views(self.orders@),
            users: views(self.users@),
            admins: views(self.admins@),
            next_product_id: self.next_product_id,
            next_order_id: self.next_order_id,
            next_user_id: self.next_user_id,
            next_admin_id: self.next_admin_id,
        }
    }
}

impl Store {
    /// An empty store. Identifier counters start at one, leaving room below
    /// for the well-known bootstrap admin row.
    pub fn new() -> (s: Store)
        ensures
            s@.wf(),
            s@.products == Seq::<ProductV>::empty(),
            s@.orders == Seq::<OrderV>::empty(),
            s@.users == Seq::<UserV>::empty(),
            s@.admins == Seq::<AdminV>::empty(),
            s@.next_product_id == 1,
            s@.next_order_id == 1,
            s@.next_user_id == 1,
            s@.next_admin_id == 1,
    {
        let s = Store {
            products: Vec::new(),
            orders: Vec::new(),
            users: Vec::new(),
            admins: Vec::new(),
            next_product_id: 1,
            next_order_id: 1,
            next_user_id: 1,
            next_admin_id: 1,
        };
        proof {
            assert(s@.products =~= Seq::<ProductV>::empty());
            assert(s@.orders =~= Seq::<OrderV>::empty());
            assert(s@.users =~= Seq::<UserV>::empty());
            assert(s@.admins =~= Seq::<AdminV>::empty());
        }
        s
    }

    /// Whether every identifier counter still has room for one more insert.
    /// A caller that cannot see the counters tests this before creating.
    pub fn has_id_headroom(&self) -> (b: bool)
        ensures
            b == (self@.next_product_id < u64::MAX && self@.next_order_id < u64::MAX
                && self@.next_user_id < u64::MAX && self@.next_admin_id < u64::MAX),
    {
        self.next_product_id < u64::MAX && self.next_order_id < u64::MAX && self.next_user_id
            < u64::MAX && self.next_admin_id < u64::MAX
    }

    /// Select one product row by id.
    pub fn select_product(&self, id: u64) -> (r: Option<Product>)
        ensures
            match r {
                Some(p) => has_key(self@.products, id) && lookup(self@.products, id) == Some(p@),
                None => !has_key(self@.products, id),
            },
    {
        match index_of_key(&self.products, id) {
            Some(i) => {
                proof {
                    lemma_lookup_found(self@.products, id, i as int);
                }
                Some(self.products[i].clone())
            },
            None => None,
        }
    }

    /// Select every product row.
    pub fn select_products(&self) -> (r: Vec<Product>)
        ensures
            views(r@) == self@.products,
    {
        let n = self.products.len();
        let mut out: Vec<Product> = Vec::new();
        let mut i: usize = 0;
        while i < n
            invariant
                i <= n,
                n == self.products.len(),
                views(out@) == self@.products.take(i as int),
            decreases n - i,
        {
            let ghost prev = out@;
            out.push(self.products[i].clone());
            proof {
                lemma_views_push(prev, out@[out@.len() - 1]);
                assert(out@ =~= prev.push(out@[out@.len() - 1]));
                assert(views(out@) =~= self@.products.take(i + 1 as int));
            }
            i = i + 1;
        }
        proof {
            assert(self@.products.take(n as int) =~= self@.products);
        }
        out
    }

    /// Insert a product row under a fresh id.
    pub fn insert_product(
        &mut self,
        name: String,
        description: String,
        price: u64,
        now: u64,
    ) -> (p: Product)
        requires
            old(self)@.wf(),
            old(self)@.next_product_id < u64::MAX,
        ensures
            final(self)@.wf(),
            frames_products(old(self)@, final(self)@),
            p@ == (ProductV {
                id: old(self)@.next_product_id,
                name: name@,
                description: description@,
                price: price,
                created_at: now,
            }),
            final(self)@.products == old(self)@.products.push(p@),
            final(self)@.next_product_id == old(self)@.next_product_id + 1,
    {
        let id = self.next_product_id;
        let p = Product { id, name, description, price, created_at: now };
        let row = p.clone();
        proof {
            lemma_keys_below_absent(self@.products, id);
            lemma_push_fresh(self@.products, p@, (id + 1) as u64);
        }
        self.products.push(row);
        self.next_product_id = id + 1;
        proof {
            assert(views(self.products@) =~= views(old(self).products@).push(p@));
        }
        p
    }

    /// Replace every caller-supplied field of a product row; the creation
    /// timestamp is the row's own. Hands back the post-mutation row, or
    /// nothing where the id has no row.
    pub fn update_product(
        &mut self,
        id: u64,
        name: String,
        description: String,
        price: u64,
    ) -> (r: Option<Product>)
        requires
            old(self)@.wf(),
        ensures
            final(self)@.wf(),
            frames_products(old(self)@, final(self)@),
            final(self)@.next_product_id == old(self)@.next_product_id,
            match r {
                Some(p) => {
                    &&& has_key(old(self)@.products, id)
                    &&& p@ == (ProductV {
                        id,
                        name: name@,
                        description: description@,
                        price: price,
                        created_at: (lookup(old(self)@.products, id)->0).created_at,
                    })
                    &&& final(self)@.products == replace_key(old(self)@.products, id, p@)
                },
                None => {
                    &&& !has_key(old(self)@.products, id)
                    &&& final(self)@.products == old(self)@.products
                },
            },
    {
        let ghost s0 = self@.products;
        match index_of_key(&self.products, id) {
            Some(i) => {
                proof {
                    lemma_lookup_found(s0, id, i as int);
                    assert(s0[i as int].key() == id);
                    assert(s0[i as int].key() < old(self)@.next_product_id);
                }
                let created_at = self.products[i].created_at;
                let p = Product { id, name, description, price, created_at };
                let row = p.clone();
                proof {
                    lemma_replace_key_props(s0, id, p@, old(self)@.next_product_id);
                }
                let _found = replace_by_key(&mut self.products, id, row);
                Some(p)
            },
            None => None,
        }
    }

    /// Delete a product row by id and hand back the deleted row. Every other
    /// table — in particular every recorded order — is untouched.
    pub fn delete_product(&mut self, id: u64) -> (r: Option<Product>)
        requires
            old(self)@.wf(),
        ensures
            final(self)@.wf(),
            frames_products(old(self)@, final(self)@),
            final(self)@.next_product_id == old(self)@.next_product_id,
            final(self)@.products == remove_key(old(self)@.products, id),
            match r {
                Some(p) => lookup(old(self)@.products, id) == Some(p@),
                None => !has_key(old(self)@.products, id),
            },
    {
        proof {
            lemma_remove_key_wf(self@.products, id, self@.next_product_id);
        }
        let r = remove_by_key(&mut self.products, id);
        proof {
            if r is None {
                crate::keyed::lemma_lookup_props(old(self)@.products, id);
            }
        }
        r
    }
    /// Select one order row by id.
    pub fn select_order(&self, id: u64) -> (r: Option<Order>)
        ensures
            match r {
                Some(o) => has_key(self@.orders, id) && lookup(self@.orders, id) == Some(o@),
                None => !has_key(self@.orders, id),
            },
    {
        match index_of_key(&self.orders, id) {
            Some(i) => {
                proof {
                    lemma_lookup_found(self@.orders, id, i as int);
                }
                Some(self.orders[i].clone())
            },
            None => None,
        }
    }

    /// Select every order row.
    pub fn select_orders(&self) -> (r: Vec<Order>)
        ensures
            views(r@) == self@.orders,
    {
        let n = self.orders.len();
        let mut out: Vec<Order> = Vec::new();
        let mut i: usize = 0;
        while i < n
            invariant
                i <= n,
                n == self.orders.len(),
                views(out@) == self@.orders.take(i as int),
            decreases n - i,
        {
            let ghost prev = out@;
            out.push(self.orders[i].clone());
            proof {
                lemma_views_push(prev, out@[out@.len() - 1]);
                assert(out@ =~= prev.push(out@[out@.len() - 1]));
                assert(views(out@) =~= self@.orders.take(i + 1 as int));
            }
            i = i + 1;
        }
        proof {
            assert(self@.orders.take(n as int) =~= self@.orders);
        }
        out
    }

    /// Select the order rows owned by `user_id`, in insertion order.
    pub fn select_orders_by_user(&self, user_id: u64) -> (r: Vec<Order>)
        ensures
            views(r@) == orders_of_user(self@.orders, user_id),
    {
        let n = self.orders.len();
        let mut out: Vec<Order> = Vec::new();
        let mut i: usize = 0;
        while i < n
            invariant
                i <= n,
                n == self.orders.len(),
                views(out@) == orders_of_user(self@.orders.take(i as int), user_id),
            decreases n - i,
        {
            proof {
                assert(self@.orders.take(i + 1 as int) =~= self@.orders.take(i as int).push(
                    self@.orders[i as int],
                ));
                lemma_orders_of_user_push(self@.orders.take(i as int), self@.orders[i as int],
                    user_id);
            }
            if self.orders[i].user_id == user_id {
                let ghost prev = out@;
                out.push(self.orders[i].clone());
                proof {
                    lemma_views_push(prev, out@[out@.len() - 1]);
                    assert(out@ =~= prev.push(out@[out@.len() - 1]));
                }
            }
            i = i + 1;
        }
        proof {
            assert(self@.orders.take(n as int) =~= self@.orders);
        }
        out
    }

    /// Insert an order row under a fresh id.
    pub fn insert_order(
        &mut self,
        user_id: u64,
        products: Vec<u64>,
        total: u128,
        status: String,
    ) -> (o: Order)
        requires
            old(self)@.wf(),
            old(self)@.next_order_id < u64::MAX,
        ensures
            final(self)@.wf(),
            frames_orders(old(self)@, final(self)@),
            o@ == (OrderV {
                id: old(self)@.next_order_id,
                user_id: user_id,
                products: products@,
                total: total,
                status: status@,
            }),
            final(self)@.orders == old(self)@.orders.push(o@),
            final(self)@.next_order_id == old(self)@.next_order_id + 1,
    {
        let id = self.next_order_id;
        let o = Order { id, user_id, products, total, status };
        let row = o.clone();
        proof {
            lemma_keys_below_absent(self@.orders, id);
            lemma_push_fresh(self@.orders, row@, (id + 1) as u64);
        }
        self.orders.push(row);
        self.next_order_id = id + 1;
        proof {
            assert(views(self.orders@) =~= views(old(self).orders@).push(o@));
        }
        o
    }

    /// Replace every caller-supplied field of an order row: an administrative
    /// override that rewrites ownership, line items, total and status without
    /// recomputation. Hands back the post-mutation row, or nothing where the
    /// id has no row.
    pub fn update_order(
        &mut self,
        id: u64,
        user_id: u64,
        products: Vec<u64>,
        total: u128,
        status: String,
    ) -> (r: Option<Order>)
        requires
            old(self)@.wf(),
        ensures
            final(self)@.wf(),
            frames_orders(old(self)@, final(self)@),
            final(self)@.next_order_id == old(self)@.next_order_id,
            match r {
                Some(o) => {
                    &&& has_key(old(self)@.orders, id)
                    &&& o@ == (OrderV {
                        id,
                        user_id: user_id,
                        products: products@,
                        total: total,
                        status: status@,
                    })
                    &&& final(self)@.orders == replace_key(old(self)@.orders, id, o@)
                },
                None => {
                    &&& !has_key(old(self)@.orders, id)
                    &&& final(self)@.orders == old(self)@.orders
                },
            },
    {
        let ghost s0 = self@.orders;
        match index_of_key(&self.orders, id) {
            Some(i) => {
                let o = Order { id, user_id, products, total, status };
                let row = o.clone();
                proof {
                    lemma_replace_key_at(s0, id, o@, i as int);
                    lemma_replace_key_props(s0, id, o@, old(self)@.next_order_id);
                    assert(s0[i as int].key() < old(self)@.next_order_id);
                }
                let _ = self.orders.remove(i);
                self.orders.insert(i, row);
                proof {
                    assert(views(self.orders@) =~= s0.update(i as int, o@));
                }
                Some(o)
            },
            None => None,
        }
    }

    /// Delete an order row by id and hand back the deleted row.
    pub fn delete_order(&mut self, id: u64) -> (r: Option<Order>)
        requires
            old(self)@.wf(),
        ensures
            final(self)@.wf(),
            frames_orders(old(self)@, final(self)@),
            final(self)@.next_order_id == old(self)@.next_order_id,
            final(self)@.orders == remove_key(old(self)@.orders, id),
            match r {
                Some(o) => lookup(old(self)@.orders, id) == Some(o@),
                None => !has_key(old(self)@.orders, id),
            },
    {
        proof {
            lemma_remove_key_wf(self@.orders, id, self@.next_order_id);
        }
        let r = remove_by_key(&mut self.orders, id);
        proof {
            if r is None {
                crate::keyed::lemma_lookup_props(old(self)@.orders, id);
            }
        }
        r
    }
}

impl Store {
    /// Compute the checkout total of a cart against the current catalog:
    /// the sum, per occurrence, of the prices of the entries that resolve;
    /// an entry whose product is gone contributes zero.
    pub fn total_of_cart(&self, cart: &Vec<u64>) -> (total: u128)
        ensures
            total as int == cart_total(cart@, self@.products),
    {
        let n = cart.len();
        let mut total: u128 = 0;
        let mut i: usize = 0;
        while i < n
            invariant
                i <= n,
                n == cart@.len(),
                total as int == cart_total(cart@.take(i as int), self@.products),
                total as int <= (i as int) * (u64::MAX as int),
            decreases n - i,
        {
            proof {
                assert(cart@.take(i + 1 as int) =~= cart@.take(i as int).push(cart@[i as int]));
                lemma_cart_total_push(cart@.take(i as int), self@.products, cart@[i as int]);
            }
            let pid = cart[i];
            let price: u64 = match index_of_key(&self.products, pid) {
                Some(k) => {
                    proof {
                        lemma_lookup_found(self@.products, pid, k as int);
                    }
                    self.products[k].price
                },
                None => {
                    proof {
                        lemma_lookup_absent(self@.products, pid);
                    }
                    0u64
                },
            };
            total = total + price as u128;
            i = i + 1;
        }
        proof {
            assert(cart@.take(n as int) =~= cart@);
        }
        total
    }

    /// Resolve a cart against the current catalog: the catalog row of each
    /// entry, per occurrence; entries whose product is gone are silently
    /// dropped.
    pub fn resolve_cart(&self, cart: &Vec<u64>) -> (r: Vec<Product>)
        ensures
            views(r@) == resolve(cart@, self@.products),
    {
        let n = cart.len();
        let mut out: Vec<Product> = Vec::new();
        let mut i: usize = 0;
        while i < n
            invariant
                i <= n,
                n == cart@.len(),
                views(out@) == resolve(cart@.take(i as int), self@.products),
            decreases n - i,
        {
            proof {
                assert(cart@.take(i + 1 as int) =~= cart@.take(i as int).push(cart@[i as int]));
                lemma_resolve_push(cart@.take(i as int), self@.products, cart@[i as int]);
            }
            let pid = cart[i];
            match index_of_key(&self.products, pid) {
                Some(k) => {
                    proof {
                        lemma_lookup_found(self@.products, pid, k as int);
                    }
                    let ghost prev = out@;
                    out.push(self.products[k].clone());
                    proof {
                        lemma_views_push(prev, out@[out@.len() - 1]);
                        assert(out@ =~= prev.push(out@[out@.len() - 1]));
                        assert(views(out@) =~= resolve(
                            cart@.take(i + 1 as int),
                            self@.products,
                        ));
                    }
                },
                None => {
                    proof {
                        lemma_lookup_absent(self@.products, pid);
                    }
                },
            }
            i = i + 1;
        }
        proof {
            assert(cart@.take(n as int) =~= cart@);
        }
        out
    }

    /// Select one user row by id.
    pub fn select_user(&self, id: u64) -> (r: Option<UserAccount>)
        ensures
            match r {
                Some(u) => has_key(self@.users, id) && lookup(self@.users, id) == Some(u@),
                None => !has_key(self@.users, id),
            },
    {
        match index_of_key(&self.users, id) {
            Some(i) => {
                proof {
                    lemma_lookup_found(self@.users, id, i as int);
                }
                Some(self.users[i].clone())
            },
            None => None,
        }
    }

    /// Select every user row.
    pub fn select_users(&self) -> (r: Vec<UserAccount>)
        ensures
            views(r@) == self@.users,
    {
        let n = self.users.len();
        let mut out: Vec<UserAccount> = Vec::new();
        let mut i: usize = 0;
        while i < n
            invariant
                i <= n,
                n == self.users.len(),
                views(out@) == self@.users.take(i as int),
            decreases n - i,
        {
            let ghost prev = out@;
            out.push(self.users[i].clone());
            proof {
                lemma_views_push(prev, out@[out@.len() - 1]);
                assert(out@ =~= prev.push(out@[out@.len() - 1]));
                assert(views(out@) =~= self@.users.take(i + 1 as int));
            }
            i = i + 1;
        }
        proof {
            assert(self@.users.take(n as int) =~= self@.users);
        }
        out
    }

    /// Insert a user row under a fresh id, with an empty cart and an empty
    /// order list.
    pub fn insert_user(
        &mut self,
        username: String,
        password: String,
        email: String,
        now: u64,
    ) -> (u: UserAccount)
        requires
            old(self)@.wf(),
            old(self)@.next_user_id < u64::MAX,
        ensures
            final(self)@.wf(),
            frames_users(old(self)@, final(self)@),
            u@ == (UserV {
                id: old(self)@.next_user_id,
                username: username@,
                password: password@,
                email: email@,
                created_at: now,
                cart: Seq::<u64>::empty(),
                orders: Seq::<u64>::empty(),
            }),
            final(self)@.users == old(self)@.users.push(u@),
            final(self)@.next_user_id == old(self)@.next_user_id + 1,
    {
        let id = self.next_user_id;
        let u = UserAccount {
            id,
            username,
            password,
            email,
            created_at: now,
            cart: Vec::new(),
            orders: Vec::new(),
        };
        let row = u.clone();
        proof {
            assert(u@.cart =~= Seq::<u64>::empty());
            assert(u@.orders =~= Seq::<u64>::empty());
            lemma_keys_below_absent(self@.users, id);
            lemma_push_fresh(self@.users, row@, (id + 1) as u64);
        }
        self.users.push(row);
        self.next_user_id = id + 1;
        proof {
            assert(views(self.users@) =~= views(old(self).users@).push(u@));
        }
        u
    }

    /// Replace a user row's credentials; identifier, creation timestamp,
    /// cart and order list are the row's own. Hands back the post-mutation
    /// row, or nothing where the id has no row.
    pub fn update_user_credentials(
        &mut self,
        id: u64,
        username: String,
        password: String,
        email: String,
    ) -> (r: Option<UserAccount>)
        requires
            old(self)@.wf(),
        ensures
            final(self)@.wf(),
            frames_users(old(self)@, final(self)@),
            final(self)@.next_user_id == old(self)@.next_user_id,
            match r {
                Some(u) => {
                    &&& has_key(old(self)@.users, id)
                    &&& u@ == with_credentials(
                        lookup(old(self)@.users, id)->0,
                        username@,
                        password@,
                        email@,
                    )
                    &&& final(self)@.users == replace_key(old(self)@.users, id, u@)
                },
                None => {
                    &&& !has_key(old(self)@.users, id)
                    &&& final(self)@.users == old(self)@.users
                },
            },
    {
        let ghost s0 = self@.users;
        match index_of_key(&self.users, id) {
            Some(i) => {
                proof {
                    lemma_lookup_found(s0, id, i as int);
                    assert(s0[i as int].key() == id);
                    assert(s0[i as int].key() < old(self)@.next_user_id);
                }
                let created_at = self.users[i].created_at;
                let cart = self.users[i].cart.clone();
                let orders = self.users[i].orders.clone();
                proof {
                    assert(cart@ =~= s0[i as int].cart);
                    assert(orders@ =~= s0[i as int].orders);
                }
                let row = UserAccount { id, username, password, email, created_at, cart, orders };
                let u = row.clone();
                proof {
                    assert(row@ =~= with_credentials(s0[i as int], username@, password@, email@));
                    lemma_replace_key_props(s0, id, row@, old(self)@.next_user_id);
                }
                let _found = replace_by_key(&mut self.users, id, row);
                Some(u)
            },
            None => None,
        }
    }

    /// Delete a user row by id and hand back the deleted row.
    pub fn delete_user(&mut self, id: u64) -> (r: Option<UserAccount>)
        requires
            old(self)@.wf(),
        ensures
            final(self)@.wf(),
            frames_users(old(self)@, final(self)@),
            final(self)@.next_user_id == old(self)@.next_user_id,
            final(self)@.users == remove_key(old(self)@.users, id),
            match r {
                Some(u) => lookup(old(self)@.users, id) == Some(u@),
                None => !has_key(old(self)@.users, id),
            },
    {
        proof {
            lemma_remove_key_wf(self@.users, id, self@.next_user_id);
        }
        let r = remove_by_key(&mut self.users, id);
        proof {
            if r is None {
                crate::keyed::lemma_lookup_props(old(self)@.users, id);
            }
        }
        r
    }

    /// Append one product id to a user's cart: duplicates are allowed and
    /// act like quantity. Reports whether the user row exists.
    pub fn push_cart(&mut self, user_id: u64, pid: u64) -> (found: bool)
        requires
            old(self)@.wf(),
        ensures
            final(self)@.wf(),
            frames_users(old(self)@, final(self)@),
            final(self)@.next_user_id == old(self)@.next_user_id,
            found == has_key(old(self)@.users, user_id),
            found ==> final(self)@.users == replace_key(
                old(self)@.users,
                user_id,
                with_cart(
                    lookup(old(self)@.users, user_id)->0,
                    (lookup(old(self)@.users, user_id)->0).cart.push(pid),
                ),
            ),
            !found ==> final(self)@.users == old(self)@.users,
    {
        let ghost s0 = self@.users;
        match index_of_key(&self.users, user_id) {
            Some(i) => {
                proof {
                    lemma_lookup_found(s0, user_id, i as int);
                }
                let mut row = self.users.remove(i);
                row.cart.push(pid);
                proof {
                    lemma_replace_key_at(s0, user_id, row@, i as int);
                    lemma_replace_key_props(s0, user_id, row@, old(self)@.next_user_id);
                }
                self.users.insert(i, row);
                proof {
                    assert(views(self.users@) =~= s0.update(
                        i as int,
                        with_cart(s0[i as int], s0[i as int].cart.push(pid)),
                    ));
                }
                true
            },
            None => false,
        }
    }

    /// Remove every occurrence of one product id from a user's cart: the
    /// set-removal counterpart of the duplicate-allowing append. Reports
    /// whether the user row exists.
    pub fn remove_cart_all(&mut self, user_id: u64, pid: u64) -> (found: bool)
        requires
            old(self)@.wf(),
        ensures
            final(self)@.wf(),
            frames_users(old(self)@, final(self)@),
            final(self)@.next_user_id == old(self)@.next_user_id,
            found == has_key(old(self)@.users, user_id),
            found ==> final(self)@.users == replace_key(
                old(self)@.users,
                user_id,
                with_cart(
                    lookup(old(self)@.users, user_id)->0,
                    remove_key((lookup(old(self)@.users, user_id)->0).cart, pid),
                ),
            ),
            !found ==> final(self)@.users == old(self)@.users,
    {
        let ghost s0 = self@.users;
        match index_of_key(&self.users, user_id) {
            Some(i) => {
                proof {
                    lemma_lookup_found(s0, user_id, i as int);
                }
                let mut row = self.users.remove(i);
                let ghost cart0 = row.cart@;
                let n = row.cart.len();
                let mut kept: Vec<u64> = Vec::new();
                let mut j: usize = 0;
                while j < n
                    invariant
                        j <= n,
                        n == row.cart.len(),
                        row.cart@ == cart0,
                        kept@ == remove_key(cart0.take(j as int), pid),
                    decreases n - j,
                {
                    proof {
                        assert(cart0.take(j + 1 as int) =~= cart0.take(j as int).push(
                            cart0[j as int],
                        ));
                        crate::keyed::lemma_remove_key_push(
                            cart0.take(j as int),
                            cart0[j as int],
                            pid,
                        );
                    }
                    let entry = row.cart[j];
                    if entry != pid {
                        kept.push(entry);
                    }
                    j = j + 1;
                }
                proof {
                    assert(cart0.take(n as int) =~= cart0);
                }
                row.cart = kept;
                proof {
                    lemma_replace_key_at(s0, user_id, row@, i as int);
                    lemma_replace_key_props(s0, user_id, row@, old(self)@.next_user_id);
                }
                self.users.insert(i, row);
                proof {
                    assert(views(self.users@) =~= s0.update(
                        i as int,
                        with_cart(s0[i as int], remove_key(s0[i as int].cart, pid)),
                    ));
                }
                true
            },
            None => false,
        }
    }

    /// Select one admin row by id.
    pub fn select_admin(&self, id: u64) -> (r: Option<AdminAccount>)
        ensures
            match r {
                Some(a) => has_key(self@.admins, id) && lookup(self@.admins, id) == Some(a@),
                None => !has_key(self@.admins, id),
            },
    {
        match index_of_key(&self.admins, id) {
            Some(i) => {
                proof {
                    lemma_lookup_found(self@.admins, id, i as int);
                }
                Some(self.admins[i].clone())
            },
            None => None,
        }
    }

    /// Select every admin row.
    pub fn select_admins(&self) -> (r: Vec<AdminAccount>)
        ensures
            views(r@) == self@.admins,
    {
        let n = self.admins.len();
        let mut out: Vec<AdminAccount> = Vec::new();
        let mut i: usize = 0;
        while i < n
            invariant
                i <= n,
                n == self.admins.len(),
                views(out@) == self@.admins.take(i as int),
            decreases n - i,
        {
            let ghost prev = out@;
            out.push(self.admins[i].clone());
            proof {
                lemma_views_push(prev, out@[out@.len() - 1]);
                assert(out@ =~= prev.push(out@[out@.len() - 1]));
                assert(views(out@) =~= self@.admins.take(i + 1 as int));
            }
            i = i + 1;
        }
        proof {
            assert(self@.admins.take(n as int) =~= self@.admins);
        }
        out
    }

    /// Insert an admin row under a fresh id.
    pub fn insert_admin(
        &mut self,
        username: String,
        password: String,
        email: String,
        now: u64,
    ) -> (a: AdminAccount)
        requires
            old(self)@.wf(),
            old(self)@.next_admin_id < u64::MAX,
        ensures
            final(self)@.wf(),
            frames_admins(old(self)@, final(self)@),
            a@ == (AdminV {
                id: old(self)@.next_admin_id,
                username: username@,
                password: password@,
                email: email@,
                created_at: now,
            }),
            final(self)@.admins == old(self)@.admins.push(a@),
            final(self)@.next_admin_id == old(self)@.next_admin_id + 1,
    {
        let id = self.next_admin_id;
        let a = AdminAccount { id, username, password, email, created_at: now };
        let row = a.clone();
        proof {
            lemma_keys_below_absent(self@.admins, id);
            lemma_push_fresh(self@.admins, row@, (id + 1) as u64);
        }
        self.admins.push(row);
        self.next_admin_id = id + 1;
        proof {
            assert(views(self.admins@) =~= views(old(self).admins@).push(a@));
        }
        a
    }

    /// Assert the bootstrap admin row under the well-known id, zero: insert
    /// it where it is missing, leave the table as it stands where a row
    /// already carries that id. Idempotent by construction; reports whether
    /// a row was inserted.
    pub fn seed_admin(&mut self, username: String, password: String, email: String) -> (seeded:
        bool)
        requires
            old(self)@.wf(),
        ensures
            final(self)@.wf(),
            frames_admins(old(self)@, final(self)@),
            final(self)@.next_admin_id == old(self)@.next_admin_id,
            seeded == !has_key(old(self)@.admins, 0),
            seeded ==> final(self)@.admins == old(self)@.admins.push(
                AdminV {
                    id: 0,
                    username: username@,
                    password: password@,
                    email: email@,
                    created_at: 0,
                },
            ),
            !seeded ==> final(self)@.admins == old(self)@.admins,
    {
        match index_of_key(&self.admins, 0) {
            Some(_) => false,
            None => {
                let row = AdminAccount { id: 0, username, password, email, created_at: 0 };
                proof {
                    lemma_push_fresh(self@.admins, row@, self@.next_admin_id);
                }
                let ghost prev = self.admins@;
                self.admins.push(row);
                proof {
                    lemma_views_push(prev, self.admins@[self.admins@.len() - 1]);
                    assert(self.admins@ =~= prev.push(self.admins@[self.admins@.len() - 1]));
                }
                true
            },
        }
    }

    /// Replace an admin row's credentials; identifier and creation timestamp
    /// are the row's own. Hands back the post-mutation row, or nothing where
    /// the id has no row.
    pub fn update_admin(
        &mut self,
        id: u64,
        username: String,
        password: String,
        email: String,
    ) -> (r: Option<AdminAccount>)
        requires
            old(self)@.wf(),
        ensures
            final(self)@.wf(),
            frames_admins(old(self)@, final(self)@),
            final(self)@.next_admin_id == old(self)@.next_admin_id,
            match r {
                Some(a) => {
                    &&& has_key(old(self)@.admins, id)
                    &&& a@ == admin_with_credentials(
                        lookup(old(self)@.admins, id)->0,
                        username@,
                        password@,
                        email@,
                    )
                    &&& final(self)@.admins == replace_key(old(self)@.admins, id, a@)
                },
                None => {
                    &&& !has_key(old(self)@.admins, id)
                    &&& final(self)@.admins == old(self)@.admins
                },
            },
    {
        let ghost s0 = self@.admins;
        match index_of_key(&self.admins, id) {
            Some(i) => {
                proof {
                    lemma_lookup_found(s0, id, i as int);
                    assert(s0[i as int].key() == id);
                    assert(s0[i as int].key() < old(self)@.next_admin_id);
                }
                let created_at = self.admins[i].created_at;
                let row = AdminAccount { id, username, password, email, created_at };
                let a = row.clone();
                proof {
                    assert(row@ =~= admin_with_credentials(s0[i as int], username@, password@, email@));
                    lemma_replace_key_props(s0, id, row@, old(self)@.next_admin_id);
                }
                let _found = replace_by_key(&mut self.admins, id, row);
                Some(a)
            },
            None => None,
        }
    }

    /// Delete an admin row by id and hand back the deleted row. Unscoped:
    /// any admin id may be deleted, the bootstrap row included.
    pub fn delete_admin(&mut self, id: u64) -> (r: Option<AdminAccount>)
        requires
            old(self)@.wf(),
        ensures
            final(self)@.wf(),
            frames_admins(old(self)@, final(self)@),
            final(self)@.next_admin_id == old(self)@.next_admin_id,
            final(self)@.admins == remove_key(old(self)@.admins, id),
            match r {
                Some(a) => lookup(old(self)@.admins, id) == Some(a@),
                None => !has_key(old(self)@.admins, id),
            },
    {
        proof {
            lemma_remove_key_wf(self@.admins, id, self@.next_admin_id);
        }
        let r = remove_by_key(&mut self.admins, id);
        proof {
            if r is None {
                crate::keyed::lemma_lookup_props(old(self)@.admins, id);
            }
        }
        r
    }
}

/// The orders owned by `uid`, in insertion order.
pub open spec fn orders_of_user(orders: Seq<OrderV>, uid: u64) -> Seq<OrderV>
    decreases orders.len(),
{
    if orders.len() == 0 {
        Seq::empty()
    } else if orders[0].user_id == uid {
        seq![orders[0]] + orders_of_user(orders.drop_first(), uid)
    } else {
        orders_of_user(orders.drop_first(), uid)
    }
}

/// One more order joins a user's orders exactly when that user owns it.
pub proof fn lemma_orders_of_user_push(orders: Seq<OrderV>, o: OrderV, uid: u64)
    ensures
        orders_of_user(orders.push(o), uid) == (if o.user_id == uid {
            orders_of_user(orders, uid).push(o)
        } else {
            orders_of_user(orders, uid)
        }),
    decreases orders.len(),
{
    let op = orders.push(o);
    if orders.len() == 0 {
        assert(op[0] == o);
        assert(op.drop_first() =~= Seq::<OrderV>::empty());
        assert(orders_of_user(op.drop_first(), uid) == Seq::<OrderV>::empty());
        assert(orders_of_user(orders, uid) == Seq::<OrderV>::empty());
        if o.user_id == uid {
            assert(orders_of_user(op, uid) =~= orders_of_user(orders, uid).push(o));
        }
    } else {
        assert(op[0] == orders[0]);
        assert(op.drop_first() =~= orders.drop_first().push(o));
        lemma_orders_of_user_push(orders.drop_first(), o, uid);
        if orders[0].user_id == uid && o.user_id == uid {
            assert(orders_of_user(op, uid) =~= orders_of_user(orders, uid).push(o));
        }
    }
}

} // verus!
