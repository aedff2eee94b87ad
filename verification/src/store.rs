//! The store and its services: product registration, category and text
//! queries, and the purchase protocol.
//!
//! Mutating operations validate first and touch the relations only once
//! every check has passed, so an error always leaves the store exactly as it
//! was: no partial write is ever visible.

#![verifier::loop_isolation(false)]

use crate::model::{input_valid, product_valid, MarketError, Product, ProductInput, Purchase,
    PurchaseRequest, User};
use crate::text;
use vstd::prelude::*;

verus! {

/// The three relations of the core: the catalog, the external user table and
/// the purchase ledger.
pub struct Store {
    pub products: Vec<Product>,
    pub users: Vec<User>,
    pub purchases: Vec<Purchase>,
}

/// The product row materialized for a valid submission: fresh identifier,
/// zero downloads, zero rating, the given creation time.
pub open spec fn created_product(inp: ProductInput, new_id: u128, now_millis: i64) -> Product {
    Product {
        id: new_id,
        title: inp.title,
        description: inp.description,
        price_cents: inp.price_cents as u64,
        language: inp.language,
        category: inp.category,
        author_id: inp.author_id,
        code_content: inp.code_content,
        rating_centistars: 0,
        downloads: 0,
        created_at_millis: now_millis,
    }
}

/// The catalog after a successful purchase of the product with identifier
/// `pid`: that product's download counter is one higher, everything else is
/// untouched.
pub open spec fn bump_downloads(s: Seq<Product>, pid: u128) -> Seq<Product> {
    s.map_values(
        |p: Product|
            if p.id == pid {
                Product { downloads: (p.downloads + 1) as u64, ..p }
            } else {
                p
            },
    )
}

/// The category filter: a product matches when its category equals the
/// trimmed query exactly.
pub open spec fn category_pred(cat: Seq<char>) -> spec_fn(Product) -> bool {
    |p: Product| p.category@ == text::trim_spec(cat)
}

/// A product matches a normalized search term when the term is empty or
/// occurs in the case-folded title, description or language.
pub open spec fn product_matches(p: Product, q: Seq<char>) -> bool {
    ||| q.len() == 0
    ||| text::contains_seq(text::lower_seq(p.title@), q)
    ||| text::contains_seq(text::lower_seq(p.description@), q)
    ||| text::contains_seq(text::lower_seq(p.language@), q)
}

/// The search filter for a normalized term.
pub open spec fn search_pred(q: Seq<char>) -> spec_fn(Product) -> bool {
    |p: Product| product_matches(p, q)
}

/// The normal form of a search term: trimmed, then folded to ASCII lower
/// case.
pub open spec fn search_norm(t: Seq<char>) -> Seq<char> {
    text::lower_seq(text::trim_spec(t))
}

/// Filtering a sequence extended by one element keeps the old result and
/// appends the new element exactly when it satisfies the predicate.
proof fn lemma_filter_push<A>(s: Seq<A>, pred: spec_fn(A) -> bool, x: A)
    ensures
        pred(x) ==> s.push(x).filter(pred) == s.filter(pred).push(x),
        !pred(x) ==> s.push(x).filter(pred) == s.filter(pred),
{
    reveal(Seq::filter);
    assert(s.push(x).drop_last() =~= s);
    assert(s.push(x).last() == x);
}

/// A filter whose predicate holds nowhere yields the empty sequence.
proof fn lemma_filter_all_false<A>(s: Seq<A>, pred: spec_fn(A) -> bool)
    requires
        forall|i: int| 0 <= i < s.len() ==> !pred(#[trigger] s[i]),
    ensures
        s.filter(pred) == Seq::<A>::empty(),
    decreases s.len(),
{
    reveal(Seq::filter);
    if s.len() > 0 {
        assert(forall|i: int| 0 <= i < s.drop_last().len() ==> s.drop_last()[i] == s[i]);
        lemma_filter_all_false(s.drop_last(), pred);
        assert(!pred(s.last()));
    }
}

/// A filter whose predicate holds everywhere yields the sequence itself.
proof fn lemma_filter_all_true<A>(s: Seq<A>, pred: spec_fn(A) -> bool)
    requires
        forall|i: int| 0 <= i < s.len() ==> pred(#[trigger] s[i]),
    ensures
        s.filter(pred) == s,
    decreases s.len(),
{
    reveal(Seq::filter);
    if s.len() > 0 {
        assert(forall|i: int| 0 <= i < s.drop_last().len() ==> s.drop_last()[i] == s[i]);
        lemma_filter_all_true(s.drop_last(), pred);
        assert(pred(s.last()));
        assert(s.drop_last().push(s.last()) =~= s);
    }
}

/// Relies on `uuid::Uuid::new_v4` for a freshly drawn random version-4
/// identifier, read out through `Uuid::as_u128`. A random value promises
/// nothing a contract could state, so nothing is assumed of the result.
#[verifier::external_body]
fn fresh_uuid128() -> u128 {
    uuid::Uuid::new_v4().as_u128()
}

/// Relies on `chrono::Utc::now` for the current instant, read out through
/// `DateTime::timestamp_millis`. The clock promises nothing a contract could
/// state, so nothing is assumed of the result.
#[verifier::external_body]
fn now_unix_millis() -> i64 {
    chrono::Utc::now().timestamp_millis()
}

impl Store {
    /// Product identifiers are unique.
    pub open spec fn product_ids_unique(self) -> bool {
        forall|i: int, j: int|
            0 <= i < j < self.products@.len() ==> self.products@[i].id != self.products@[j].id
    }

    /// Purchase identifiers are unique.
    pub open spec fn purchase_ids_unique(self) -> bool {
        forall|i: int, j: int|
            0 <= i < j < self.purchases@.len() ==> self.purchases@[i].id != self.purchases@[j].id
    }

    /// At most one purchase exists per (user, product) pair.
    pub open spec fn purchase_pairs_unique(self) -> bool {
        forall|i: int, j: int|
            0 <= i < j < self.purchases@.len() ==> !(self.purchases@[i].user_id
                == self.purchases@[j].user_id && self.purchases@[i].product_id
                == self.purchases@[j].product_id)
    }

    /// User identifiers, usernames and email addresses are unique.
    pub open spec fn users_unique(self) -> bool {
        forall|i: int, j: int|
            0 <= i < j < self.users@.len() ==> self.users@[i].id != self.users@[j].id
                && self.users@[i].username@ != self.users@[j].username@ && self.users@[i].email@
                != self.users@[j].email@
    }

    /// The number of recorded purchases of the product with identifier `pid`.
    pub open spec fn purchase_count(self, pid: u128) -> nat {
        self.purchases@.filter(|q: Purchase| q.product_id == pid).len()
    }

    /// Every product's download counter equals the number of purchases
    /// recorded for it.
    pub open spec fn downloads_consistent(self) -> bool {
        forall|i: int|
            0 <= i < self.products@.len() ==> (#[trigger] self.products@[i]).downloads
                == self.purchase_count(self.products@[i].id)
    }

    /// Every purchase references a listed product.
    pub open spec fn purchases_reference_products(self) -> bool {
        forall|i: int|
            0 <= i < self.purchases@.len() ==> self.has_product(
                (#[trigger] self.purchases@[i]).product_id,
            )
    }

    /// All listed products are well formed.
    pub open spec fn products_valid(self) -> bool {
        forall|i: int| 0 <= i < self.products@.len() ==> product_valid(#[trigger] self.products@[i])
    }

    /// The store invariant: established by `new`, preserved by every
    /// operation.
    pub open spec fn wf(self) -> bool {
        &&& self.product_ids_unique()
        &&& self.purchase_ids_unique()
        &&& self.purchase_pairs_unique()
        &&& self.users_unique()
        &&& self.downloads_consistent()
        &&& self.purchases_reference_products()
        &&& self.products_valid()
    }

    /// A product with identifier `pid` is listed.
    pub open spec fn has_product(self, pid: u128) -> bool {
        exists|k: int| 0 <= k < self.products@.len() && (#[trigger] self.products@[k]).id == pid
    }

    /// A purchase with identifier `qid` is recorded.
    pub open spec fn has_purchase_id(self, qid: u128) -> bool {
        exists|k: int| 0 <= k < self.purchases@.len() && (#[trigger] self.purchases@[k]).id == qid
    }

    /// A purchase of product `pid` by user `uid` is recorded.
    pub open spec fn has_pair(self, uid: u128, pid: u128) -> bool {
        exists|k: int|
            0 <= k < self.purchases@.len() && (#[trigger] self.purchases@[k]).user_id == uid
                && self.purchases@[k].product_id == pid
    }

    /// A user with identifier `uid` is known.
    pub open spec fn author_known(self, uid: u128) -> bool {
        exists|k: int| 0 <= k < self.users@.len() && (#[trigger] self.users@[k]).id == uid
    }

    /// A user with identifier `uid` is known and verified.
    pub open spec fn user_ok(self, uid: u128) -> bool {
        exists|k: int|
            0 <= k < self.users@.len() && (#[trigger] self.users@[k]).id == uid
                && self.users@[k].is_verified
    }

    /// The position of the product with identifier `pid`, where one exists.
    pub open spec fn product_index_of(self, pid: u128) -> int {
        choose|k: int| 0 <= k < self.products@.len() && (#[trigger] self.products@[k]).id == pid
    }

    /// The stored price of the product with identifier `pid`.
    pub open spec fn product_price(self, pid: u128) -> u64 {
        self.products@[self.product_index_of(pid)].price_cents
    }

    /// A client-declared amount is present and differs from the stored
    /// price.
    pub open spec fn price_mismatch(self, req: PurchaseRequest) -> bool {
        match req.claimed_amount_cents {
            Option::Some(a) => a != self.product_price(req.product_id) as i64,
            Option::None => false,
        }
    }

    /// The outcome of validating a product submission: `None` means the
    /// submission is accepted.
    pub open spec fn create_decision(self, inp: ProductInput, new_id: u128) -> Option<
        MarketError,
    > {
        if !input_valid(inp) || !self.author_known(inp.author_id) {
            Some(MarketError::ValidationError)
        } else if self.has_product(new_id) {
            Some(MarketError::ConstraintViolation)
        } else {
            None
        }
    }

    /// The outcome of validating a purchase request, apart from the fresh
    /// identifier: `None` means the purchase may commit.
    pub open spec fn purchase_decision_core(self, req: PurchaseRequest) -> Option<MarketError> {
        if !self.has_product(req.product_id) {
            Some(MarketError::NotFound)
        } else if !self.user_ok(req.user_id) {
            Some(MarketError::NotFound)
        } else if self.price_mismatch(req) {
            Some(MarketError::PriceMismatch)
        } else if self.has_pair(req.user_id, req.product_id) {
            Some(MarketError::DuplicateError)
        } else {
            None
        }
    }

    /// The outcome of validating a purchase request together with its fresh
    /// identifier.
    pub open spec fn purchase_decision(self, req: PurchaseRequest, new_id: u128) -> Option<
        MarketError,
    > {
        match self.purchase_decision_core(req) {
            Some(e) => Some(e),
            None => if self.has_purchase_id(new_id) {
                Some(MarketError::ConstraintViolation)
            } else {
                None
            },
        }
    }

    /// The ledger row written for an accepted purchase: the amount charged
    /// is the product's stored price, never the client's claim.
    pub open spec fn purchase_record(
        self,
        req: PurchaseRequest,
        new_id: u128,
        now_millis: i64,
    ) -> Purchase {
        Purchase {
            id: new_id,
            user_id: req.user_id,
            product_id: req.product_id,
            purchase_date_millis: now_millis,
            amount_cents: self.product_price(req.product_id),
        }
    }

    /// Products whose category equals the trimmed query, in creation order.
    pub open spec fn category_results(self, cat: Seq<char>) -> Seq<Product> {
        self.products@.filter(category_pred(cat))
    }

    /// Products matching the normalized term, in creation order.
    pub open spec fn search_results(self, t: Seq<char>) -> Seq<Product> {
        self.products@.filter(search_pred(search_norm(t)))
    }

    /// An empty store, trivially well formed.
    pub fn new() -> (r: Store)
        ensures
            r.wf(),
            r.products@ == Seq::<Product>::empty(),
            r.users@ == Seq::<User>::empty(),
            r.purchases@ == Seq::<Purchase>::empty(),
    {
        Store { products: Vec::new(), users: Vec::new(), purchases: Vec::new() }
    }

    /// The position of the listed product with identifier `pid`, if any.
    fn find_product_index(&self, pid: u128) -> (r: Option<usize>)
        ensures
            match r {
                Some(i) => i < self.products@.len() && self.products@[i as int].id == pid,
                None => !self.has_product(pid),
            },
    {
        let n = self.products.len();
        let mut i: usize = 0;
        while i < n
            invariant
                i <= n,
                n == self.products@.len(),
                forall|k: int| 0 <= k < i ==> (#[trigger] self.products@[k]).id != pid,
            decreases n - i,
        {
            if self.products[i].id == pid {
                return Some(i);
            }
            i = i + 1;
        }
        None
    }

    /// Whether a known, verified user carries identifier `uid`.
    fn check_user_ok(&self, uid: u128) -> (r: bool)
        requires
            self.users_unique(),
        ensures
            r == self.user_ok(uid),
    {
        let n = self.users.len();
        let mut i: usize = 0;
        while i < n
            invariant
                i <= n,
                n == self.users@.len(),
                forall|k: int| 0 <= k < i ==> (#[trigger] self.users@[k]).id != uid,
            decreases n - i,
        {
            if self.users[i].id == uid {
                let v = self.users[i].is_verified;
                proof {
                    if !v && self.user_ok(uid) {
                        let k = choose|k: int|
                            0 <= k < self.users@.len() && (#[trigger] self.users@[k]).id == uid
                                && self.users@[k].is_verified;
                        assert(k == i);
                    }
                }
                return v;
            }
            i = i + 1;
        }
        false
    }

    /// Whether any known user carries identifier `uid`.
    fn check_author_known(&self, uid: u128) -> (r: bool)
        ensures
            r == self.author_known(uid),
    {
        let n = self.users.len();
        let mut i: usize = 0;
        while i < n
            invariant
                i <= n,
                n == self.users@.len(),
                forall|k: int| 0 <= k < i ==> (#[trigger] self.users@[k]).id != uid,
            decreases n - i,
        {
            if self.users[i].id == uid {
                return true;
            }
            i = i + 1;
        }
        false
    }

    /// Whether the ledger already records a purchase of `pid` by `uid`.
    fn check_pair(&self, uid: u128, pid: u128) -> (r: bool)
        ensures
            r == self.has_pair(uid, pid),
    {
        let n = self.purchases.len();
        let mut i: usize = 0;
        while i < n
            invariant
                i <= n,
                n == self.purchases@.len(),
                forall|k: int|
                    0 <= k < i ==> !((#[trigger] self.purchases@[k]).user_id == uid
                        && self.purchases@[k].product_id == pid),
            decreases n - i,
        {
            if self.purchases[i].user_id == uid && self.purchases[i].product_id == pid {
                return true;
            }
            i = i + 1;
        }
        false
    }

    /// Whether the ledger already records a purchase with identifier `qid`.
    fn check_purchase_id(&self, qid: u128) -> (r: bool)
        ensures
            r == self.has_purchase_id(qid),
    {
        let n = self.purchases.len();
        let mut i: usize = 0;
        while i < n
            invariant
                i <= n,
                n == self.purchases@.len(),
                forall|k: int| 0 <= k < i ==> (#[trigger] self.purchases@[k]).id != qid,
            decreases n - i,
        {
            if self.purchases[i].id == qid {
                return true;
            }
            i = i + 1;
        }
        false
    }

    /// A user clashes with the table when its identifier, username or email
    /// is already taken.
    pub open spec fn user_conflicts(self, u: User) -> bool {
        exists|k: int|
            0 <= k < self.users@.len() && ((#[trigger] self.users@[k]).id == u.id
                || self.users@[k].username@ == u.username@ || self.users@[k].email@ == u.email@)
    }

    /// Register a user. The user lifecycle belongs to the external auth
    /// collaborator; the core only keeps the rows it must consult and
    /// enforces their uniqueness.
    pub fn add_user(&mut self, user: User) -> (r: Result<(), MarketError>)
        requires
            old(self).wf(),
        ensures
            final(self).wf(),
            final(self).products == old(self).products,
            final(self).purchases == old(self).purchases,
            old(self).user_conflicts(user) ==> r == Err::<(), MarketError>(
                MarketError::ConstraintViolation,
            ) && *final(self) == *old(self),
            !old(self).user_conflicts(user) ==> r == Ok::<(), MarketError>(())
                && final(self).users@ == old(self).users@.push(user),
    {
        let n = self.users.len();
        let mut i: usize = 0;
        while i < n
            invariant
                i <= n,
                n == self.users@.len(),
                forall|k: int|
                    0 <= k < i ==> !((#[trigger] self.users@[k]).id == user.id || self.users@[
                        k].username@ == user.username@ || self.users@[k].email@ == user.email@),
            decreases n - i,
        {
            if self.users[i].id == user.id || self.users[i].username == user.username
                || self.users[i].email == user.email {
                return Err(MarketError::ConstraintViolation);
            }
            i = i + 1;
        }
        self.users.push(user);
        proof {
            assert forall|a: int, b: int| 0 <= a < b < self.users@.len() implies self.users@[a].id
                != self.users@[b].id && self.users@[a].username@ != self.users@[b].username@
                && self.users@[a].email@ != self.users@[b].email@ by {
                if b == self.users@.len() - 1 {
                    assert(self.users@[a] == old(self).users@[a]);
                }
            }
        }
        Ok(())
    }

    /// Register a product with a caller-supplied fresh identifier and
    /// creation time. Rejected submissions leave the store unchanged; an
    /// accepted one appends exactly the materialized product, which is also
    /// returned.
    pub fn create_product_at(
        &mut self,
        input: ProductInput,
        new_id: u128,
        now_millis: i64,
    ) -> (r: Result<Product, MarketError>)
        requires
            old(self).wf(),
        ensures
            final(self).wf(),
            final(self).users == old(self).users,
            final(self).purchases == old(self).purchases,
            match old(self).create_decision(input, new_id) {
                Some(e) => r == Err::<Product, MarketError>(e) && *final(self) == *old(self),
                None => r == Ok::<Product, MarketError>(
                    created_product(input, new_id, now_millis),
                ) && final(self).products@ == old(self).products@.push(
                    created_product(input, new_id, now_millis),
                ),
            },
    {
        let valid = !text::is_blank(input.title.as_str()) && !text::is_blank(
            input.description.as_str(),
        ) && !text::is_blank(input.language.as_str()) && !text::is_blank(input.category.as_str())
            && input.price_cents >= 0;
        if !valid {
            return Err(MarketError::ValidationError);
        }
        if !self.check_author_known(input.author_id) {
            return Err(MarketError::ValidationError);
        }
        match self.find_product_index(new_id) {
            Some(_) => {
                return Err(MarketError::ConstraintViolation);
            },
            None => {},
        }
        let p = Product {
            id: new_id,
            title: input.title,
            description: input.description,
            price_cents: input.price_cents as u64,
            language: input.language,
            category: input.category,
            author_id: input.author_id,
            code_content: input.code_content,
            rating_centistars: 0,
            downloads: 0,
            created_at_millis: now_millis,
        };
        let out = p.duplicate();
        proof {
            assert forall|k: int| 0 <= k < self.purchases@.len() implies (
            #[trigger] self.purchases@[k]).product_id != new_id by {
                if self.purchases@[k].product_id == new_id {
                    assert(self.has_product(new_id));
                }
            }
            lemma_filter_all_false(self.purchases@, |q: Purchase| q.product_id == new_id);
        }
        self.products.push(p);
        proof {
            let post = *self;
            let pre = *old(self);
            let np = post.products@.len() - 1;
            assert(post.products@[np] == created_product(input, new_id, now_millis));
            assert(post.product_ids_unique()) by {
                assert forall|i: int, j: int| 0 <= i < j < post.products@.len() implies
                    post.products@[i].id != post.products@[j].id by {
                    if j < np {
                        assert(pre.products@[i].id != pre.products@[j].id);
                    } else {
                        if post.products@[i].id == new_id {
                            assert(pre.has_product(new_id));
                        }
                    }
                }
            }
            assert(post.downloads_consistent()) by {
                assert forall|i: int| 0 <= i < post.products@.len() implies (
                #[trigger] post.products@[i]).downloads == post.purchase_count(
                    post.products@[i].id,
                ) by {
                    if i < np {
                        assert(post.products@[i] == pre.products@[i]);
                        assert(pre.products@[i].downloads == pre.purchase_count(
                            pre.products@[i].id,
                        ));
                    } else {
                        assert(post.purchase_count(new_id) == 0);
                    }
                }
            }
            assert(post.purchases_reference_products()) by {
                assert forall|i: int| 0 <= i < post.purchases@.len() implies post.has_product(
                    (#[trigger] post.purchases@[i]).product_id,
                ) by {
                    assert(pre.has_product(pre.purchases@[i].product_id));
                    let k = choose|k: int|
                        0 <= k < pre.products@.len() && (#[trigger] pre.products@[k]).id
                            == pre.purchases@[i].product_id;
                    assert(post.products@[k].id == pre.purchases@[i].product_id);
                }
            }
            assert(post.products_valid()) by {
                assert forall|i: int| 0 <= i < post.products@.len() implies product_valid(
                    #[trigger] post.products@[i],
                ) by {
                    if i < np {
                        assert(product_valid(pre.products@[i]));
                    }
                }
            }
        }
        Ok(out)
    }

    /// Register a product, drawing a fresh random identifier and the current
    /// time. Validation is exact; of the random identifier only this is
    /// promised: a successful call appends a product whose identifier was
    /// not yet listed, and a collision surfaces as `ConstraintViolation`
    /// with the store unchanged.
    pub fn create_product(&mut self, input: ProductInput) -> (r: Result<Product, MarketError>)
        requires
            old(self).wf(),
        ensures
            final(self).wf(),
            final(self).users == old(self).users,
            final(self).purchases == old(self).purchases,
            (!input_valid(input) || !old(self).author_known(input.author_id)) ==> r == Err::<
                Product,
                MarketError,
            >(MarketError::ValidationError) && *final(self) == *old(self),
            match r {
                Ok(p) => input_valid(input) && old(self).author_known(input.author_id) && !old(
                    self,
                ).has_product(p.id) && p == created_product(input, p.id, p.created_at_millis)
                    && final(self).products@ == old(self).products@.push(p),
                Err(e) => *final(self) == *old(self) && ((e == MarketError::ValidationError && (
                !input_valid(input) || !old(self).author_known(input.author_id))) || (e
                    == MarketError::ConstraintViolation && input_valid(input) && old(
                    self,
                ).author_known(input.author_id))),
            },
    {
        let new_id = fresh_uuid128();
        let now_millis = now_unix_millis();
        self.create_product_at(input, new_id, now_millis)
    }

    /// Products whose category equals the trimmed query, in creation order.
    /// Total: a category with no match yields the empty vector, never an
    /// error.
    pub fn get_products_by_category(&self, category: &str) -> (r: Vec<Product>)
        ensures
            r@ == self.category_results(category@),
    {
        let cs = text::chars_vec(category);
        let qt = text::trim_vec(&cs);
        let ghost pred = category_pred(category@);
        let mut r: Vec<Product> = Vec::new();
        let n = self.products.len();
        let mut i: usize = 0;
        while i < n
            invariant
                i <= n,
                n == self.products@.len(),
                qt@ == text::trim_spec(category@),
                pred == category_pred(category@),
                r@ == self.products@.take(i as int).filter(pred),
            decreases n - i,
        {
            let pc = text::chars_vec(self.products[i].category.as_str());
            proof {
                self.products@.lemma_take_succ_push(i as int);
                lemma_filter_push(self.products@.take(i as int), pred, self.products@[i as int]);
            }
            if text::eq_chars(&pc, &qt) {
                let row = self.products[i].duplicate();
                r.push(row);
            }
            i = i + 1;
        }
        proof {
            assert(self.products@.take(n as int) =~= self.products@);
        }
        r
    }

    /// Case-insensitive substring search over title, description and
    /// language. The term is trimmed and case-folded first; an empty or
    /// whitespace-only term matches the whole catalog.
    pub fn search_products(&self, term: &str) -> (r: Vec<Product>)
        ensures
            r@ == self.search_results(term@),
    {
        let cs = text::chars_vec(term);
        let tv = text::trim_vec(&cs);
        let q = text::to_lower_vec(&tv);
        let ghost pred = search_pred(search_norm(term@));
        let mut r: Vec<Product> = Vec::new();
        let n = self.products.len();
        let mut i: usize = 0;
        while i < n
            invariant
                i <= n,
                n == self.products@.len(),
                q@ == search_norm(term@),
                pred == search_pred(search_norm(term@)),
                r@ == self.products@.take(i as int).filter(pred),
            decreases n - i,
        {
            proof {
                self.products@.lemma_take_succ_push(i as int);
                lemma_filter_push(self.products@.take(i as int), pred, self.products@[i as int]);
            }
            let hit = if q.len() == 0 {
                true
            } else {
                let tl = text::lower_chars_of(self.products[i].title.as_str());
                let dl = text::lower_chars_of(self.products[i].description.as_str());
                let ll = text::lower_chars_of(self.products[i].language.as_str());
                text::contains_chars(&tl, &q) || text::contains_chars(&dl, &q)
                    || text::contains_chars(&ll, &q)
            };
            if hit {
                let row = self.products[i].duplicate();
                r.push(row);
            }
            i = i + 1;
        }
        proof {
            assert(self.products@.take(n as int) =~= self.products@);
        }
        r
    }

    /// The purchase protocol with a caller-supplied fresh identifier and
    /// timestamp: validate the request, then, as one atomic step, append the
    /// ledger row and bump the product's download counter. Every rejection
    /// leaves the store exactly as it was.
    pub fn process_purchase_at(
        &mut self,
        req: PurchaseRequest,
        new_id: u128,
        now_millis: i64,
    ) -> (r: Result<Purchase, MarketError>)
        requires
            old(self).wf(),
        ensures
            final(self).wf(),
            final(self).users == old(self).users,
            match old(self).purchase_decision(req, new_id) {
                Some(e) => r == Err::<Purchase, MarketError>(e) && *final(self) == *old(self),
                None => r == Ok::<Purchase, MarketError>(
                    old(self).purchase_record(req, new_id, now_millis),
                ) && final(self).purchases@ == old(self).purchases@.push(
                    old(self).purchase_record(req, new_id, now_millis),
                ) && final(self).products@ == bump_downloads(
                    old(self).products@,
                    req.product_id,
                ),
            },
    {
        let idx = match self.find_product_index(req.product_id) {
            None => {
                return Err(MarketError::NotFound);
            },
            Some(i) => i,
        };
        proof {
            assert(self.has_product(req.product_id));
            let k = self.product_index_of(req.product_id);
            assert(self.products@[k].id == req.product_id);
            if k != idx as int {
                assert(false);
            }
        }
        if !self.check_user_ok(req.user_id) {
            return Err(MarketError::NotFound);
        }
        let price = self.products[idx].price_cents;
        proof {
            assert(price == self.product_price(req.product_id));
            assert(product_valid(self.products@[idx as int]));
        }
        match req.claimed_amount_cents {
            Some(a) => {
                if a != price as i64 {
                    return Err(MarketError::PriceMismatch);
                }
            },
            None => {},
        }
        if self.check_pair(req.user_id, req.product_id) {
            return Err(MarketError::DuplicateError);
        }
        if self.check_purchase_id(new_id) {
            return Err(MarketError::ConstraintViolation);
        }
        let row = Purchase {
            id: new_id,
            user_id: req.user_id,
            product_id: req.product_id,
            purchase_date_millis: now_millis,
            amount_cents: price,
        };
        let out = row.duplicate();
        let ghost pre = *self;
        self.purchases.push(row);
        let plen = self.purchases.len();
        let d = self.products[idx].downloads;
        proof {
            assert(d == pre.purchase_count(req.product_id));
            pre.purchases@.lemma_filter_len(|q: Purchase| q.product_id == req.product_id);
            assert(pre.purchases@.len() == plen - 1);
            assert(d < u64::MAX);
        }
        let bumped = d + 1;
        self.products[idx].downloads = bumped;
        proof {
            let post = *self;
            let orig = *old(self);
            let qn = pre.purchases@.len() as int;
            let fresh_row = orig.purchase_record(req, new_id, now_millis);
            assert(post.purchases@[qn] == fresh_row);
            assert(post.purchases@ =~= orig.purchases@.push(fresh_row));
            assert(post.products@ =~= bump_downloads(orig.products@, req.product_id)) by {
                assert forall|k: int| 0 <= k < post.products@.len() implies post.products@[k]
                    == bump_downloads(orig.products@, req.product_id)[k] by {
                    if k != idx as int {
                        assert(orig.products@[k].id != req.product_id);
                    }
                }
            }
            assert(post.product_ids_unique()) by {
                assert forall|i: int, j: int| 0 <= i < j < post.products@.len() implies
                    post.products@[i].id != post.products@[j].id by {
                    assert(post.products@[i].id == orig.products@[i].id);
                    assert(post.products@[j].id == orig.products@[j].id);
                }
            }
            assert(post.purchase_ids_unique()) by {
                assert forall|i: int, j: int| 0 <= i < j < post.purchases@.len() implies
                    post.purchases@[i].id != post.purchases@[j].id by {
                    if j == qn {
                        if orig.purchases@[i].id == new_id {
                            assert(orig.has_purchase_id(new_id));
                        }
                    }
                }
            }
            assert(post.purchase_pairs_unique()) by {
                assert forall|i: int, j: int| 0 <= i < j < post.purchases@.len() implies !(
                post.purchases@[i].user_id == post.purchases@[j].user_id && post.purchases@[
                    i].product_id == post.purchases@[j].product_id) by {
                    if j == qn {
                        if orig.purchases@[i].user_id == req.user_id && orig.purchases@[
                            i].product_id == req.product_id {
                            assert(orig.has_pair(req.user_id, req.product_id));
                        }
                    }
                }
            }
            assert forall|x: u128| post.has_product(x) == orig.has_product(x) by {
                if orig.has_product(x) {
                    let k = choose|k: int|
                        0 <= k < orig.products@.len() && (#[trigger] orig.products@[k]).id == x;
                    assert(post.products@[k].id == x);
                }
                if post.has_product(x) {
                    let k = choose|k: int|
                        0 <= k < post.products@.len() && (#[trigger] post.products@[k]).id == x;
                    assert(orig.products@[k].id == x);
                }
            }
            assert(post.purchases_reference_products()) by {
                assert forall|i: int| 0 <= i < post.purchases@.len() implies post.has_product(
                    (#[trigger] post.purchases@[i]).product_id,
                ) by {
                    if i < qn {
                        assert(orig.has_product(orig.purchases@[i].product_id));
                    } else {
                        assert(orig.has_product(req.product_id));
                    }
                }
            }
            assert(post.downloads_consistent()) by {
                assert forall|i: int| 0 <= i < post.products@.len() implies (
                #[trigger] post.products@[i]).downloads == post.purchase_count(
                    post.products@[i].id,
                ) by {
                    let pid = post.products@[i].id;
                    lemma_filter_push(
                        orig.purchases@,
                        |q: Purchase| q.product_id == pid,
                        fresh_row,
                    );
                    assert(orig.products@[i].id == pid);
                    if i == idx as int {
                        assert(pid == req.product_id);
                        assert(post.purchase_count(pid) == orig.purchase_count(pid) + 1);
                    } else {
                        assert(pid != req.product_id);
                        assert(post.purchase_count(pid) == orig.purchase_count(pid));
                        assert(post.products@[i].downloads == orig.products@[i].downloads);
                    }
                }
            }
            assert(post.products_valid()) by {
                assert forall|i: int| 0 <= i < post.products@.len() implies product_valid(
                    #[trigger] post.products@[i],
                ) by {
                    assert(product_valid(orig.products@[i]));
                }
            }
            assert(post.users_unique());
        }
        Ok(out)
    }

    /// The purchase protocol as exposed to buyers: draws a fresh random
    /// identifier and the current time, then records the purchase. The
    /// validation outcome is exact; of the random identifier only this is
    /// promised: success appends one ledger row with a fresh identifier and
    /// bumps the product's counter by one, and a collision surfaces as
    /// `ConstraintViolation` with the store unchanged.
    pub fn process_purchase(&mut self, req: PurchaseRequest) -> (r: Result<Purchase, MarketError>)
        requires
            old(self).wf(),
        ensures
            final(self).wf(),
            final(self).users == old(self).users,
            match old(self).purchase_decision_core(req) {
                Some(e) => r == Err::<Purchase, MarketError>(e) && *final(self) == *old(self),
                None => match r {
                    Ok(q) => q.user_id == req.user_id && q.product_id == req.product_id
                        && q.amount_cents == old(self).product_price(req.product_id) && !old(
                        self,
                    ).has_purchase_id(q.id) && final(self).purchases@ == old(
                        self,
                    ).purchases@.push(q) && final(self).products@ == bump_downloads(
                        old(self).products@,
                        req.product_id,
                    ),
                    Err(e) => e == MarketError::ConstraintViolation && *final(self) == *old(
                        self,
                    ),
                },
            },
    {
        let new_id = fresh_uuid128();
        let now_millis = now_unix_millis();
        self.process_purchase_at(req, new_id, now_millis)
    }
}

/// Law: an accepted submission materializes a product whose identifier was
/// not yet listed, with zero downloads and a zero rating.
pub proof fn lemma_new_product_fresh(s: Store, inp: ProductInput, new_id: u128, now_millis: i64)
    requires
        s.create_decision(inp, new_id) == None::<MarketError>,
    ensures
        !s.has_product(new_id),
        created_product(inp, new_id, now_millis).downloads == 0,
        created_product(inp, new_id, now_millis).rating_centistars == 0,
{
}

/// Law: a valid submission by a known author whose fresh identifier is not
/// yet listed is owed acceptance — the decision is `None`, so by the
/// contract of `create_product_at` the call returns `Ok` with exactly the
/// materialized product and leaves all catalog identifiers distinct.
pub proof fn lemma_create_accepts(s: Store, inp: ProductInput, new_id: u128)
    requires
        input_valid(inp),
        s.author_known(inp.author_id),
        !s.has_product(new_id),
    ensures
        s.create_decision(inp, new_id) == None::<MarketError>,
{
}

/// Law: a purchase of a listed product by a known verified buyer, with no
/// declared amount or one equal to the stored price and no prior
/// (user, product) row, is owed acceptance whenever the drawn identifier is
/// fresh — the decision is `None`, so by the contract of
/// `process_purchase_at` the call returns `Ok`, appends one ledger row and
/// bumps the product's counter by exactly one.
pub proof fn lemma_purchase_accepts(s: Store, req: PurchaseRequest, new_id: u128)
    requires
        s.has_product(req.product_id),
        s.user_ok(req.user_id),
        !s.price_mismatch(req),
        !s.has_pair(req.user_id, req.product_id),
        !s.has_purchase_id(new_id),
    ensures
        s.purchase_decision(req, new_id) == None::<MarketError>,
{
}

/// Law: a declared amount that differs from the stored price of a listed
/// product is rejected as `PriceMismatch` for any known verified buyer —
/// and, by the contract of `process_purchase_at`, the store is unchanged.
pub proof fn lemma_price_mismatch_rejected(s: Store, req: PurchaseRequest)
    requires
        s.has_product(req.product_id),
        s.user_ok(req.user_id),
        s.price_mismatch(req),
    ensures
        s.purchase_decision_core(req) == Some(MarketError::PriceMismatch),
{
}

/// Law: a category under which nothing is listed yields the empty sequence.
/// The query itself is total, so no error is possible.
pub proof fn lemma_by_category_empty(s: Store, cat: Seq<char>)
    requires
        forall|i: int|
            0 <= i < s.products@.len() ==> (#[trigger] s.products@[i]).category@ != text::trim_spec(
                cat,
            ),
    ensures
        s.category_results(cat) == Seq::<Product>::empty(),
{
    lemma_filter_all_false(s.products@, category_pred(cat));
}

/// Law: search is case-insensitive — two terms with the same normal form
/// (the same characters after trimming and ASCII case folding) give
/// identical result sequences on any store.
pub proof fn lemma_search_case_insensitive(s: Store, t1: Seq<char>, t2: Seq<char>)
    requires
        search_norm(t1) == search_norm(t2),
    ensures
        s.search_results(t1) == s.search_results(t2),
{
}

/// Law: search ignores the case of the term — folding any term to ASCII
/// lower case first gives identical results on any store.
pub proof fn lemma_search_ignores_case(s: Store, t: Seq<char>)
    ensures
        s.search_results(text::lower_seq(t)) == s.search_results(t),
{
    text::lemma_trim_lower_commute(t);
    text::lemma_lower_idempotent(text::trim_spec(t));
    assert(search_norm(text::lower_seq(t)) == search_norm(t));
}

/// Law: an empty or whitespace-only term matches the whole catalog.
pub proof fn lemma_search_empty_term(s: Store, t: Seq<char>)
    requires
        search_norm(t).len() == 0,
    ensures
        s.search_results(t) == s.products@,
{
    lemma_filter_all_true(s.products@, search_pred(search_norm(t)));
}

/// Law: retrying a committed purchase is rejected as a duplicate. If a
/// request was accepted against `s0` and `s1` is the committed result, the
/// same request against `s1` is refused with `DuplicateError`, whatever
/// fresh identifier the retry draws — so at most one ledger row and one
/// download increment can ever exist per (user, product) pair.
pub proof fn lemma_retry_is_duplicate(
    s0: Store,
    s1: Store,
    req: PurchaseRequest,
    q: Purchase,
    id2: u128,
)
    requires
        s0.wf(),
        s0.purchase_decision(req, q.id) == None::<MarketError>,
        q == s0.purchase_record(req, q.id, q.purchase_date_millis),
        s1.purchases@ == s0.purchases@.push(q),
        s1.products@ == bump_downloads(s0.products@, req.product_id),
        s1.users@ == s0.users@,
    ensures
        s1.purchase_decision(req, id2) == Some(MarketError::DuplicateError),
{
    let k0 = s0.product_index_of(req.product_id);
    assert(s0.has_product(req.product_id));
    assert(s0.products@[k0].id == req.product_id);
    assert(s1.products@[k0].id == req.product_id);
    assert(s1.has_product(req.product_id));
    let k1 = s1.product_index_of(req.product_id);
    assert(s1.products@[k1].id == req.product_id);
    assert(s0.products@[k1].id == req.product_id);
    if k1 != k0 {
        assert(false);
    }
    assert(s1.product_price(req.product_id) == s0.product_price(req.product_id));
    assert(s0.user_ok(req.user_id));
    let ku = choose|k: int|
        0 <= k < s0.users@.len() && (#[trigger] s0.users@[k]).id == req.user_id && s0.users@[
            k].is_verified;
    assert(s1.users@[ku].id == req.user_id && s1.users@[ku].is_verified);
    assert(s1.user_ok(req.user_id));
    assert(!s1.price_mismatch(req));
    let qn = s0.purchases@.len() as int;
    assert(s1.purchases@[qn].user_id == req.user_id && s1.purchases@[qn].product_id
        == req.product_id);
    assert(s1.has_pair(req.user_id, req.product_id));
}

} // verus!
