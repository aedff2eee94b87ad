//! The data model of the marketplace core: products, users, purchases, the
//! inputs of the two mutating operations, and the error taxonomy.
//!
//! Money is held in integer cents and ratings in integer hundredths of a
//! star, so every field a contract speaks of is a plain value.

use crate::text;
use vstd::prelude::*;

verus! {

/// A listed source-code product.
///
/// `price_cents` is the price in cents; `rating_centistars` is the average
/// rating in hundredths of a star (0 to 500); `downloads` counts successful
/// purchases; `created_at_millis` is a Unix timestamp in milliseconds.
#[derive(Debug, PartialEq)]
pub struct Product {
    pub id: u128,
    pub title: String,
    pub description: String,
    pub price_cents: u64,
    pub language: String,
    pub category: String,
    pub author_id: u128,
    pub code_content: String,
    pub rating_centistars: u32,
    pub downloads: u64,
    pub created_at_millis: i64,
}

/// A registered user. The credential hash is opaque here: it is owned by the
/// authentication collaborator and never interpreted by this core.
#[derive(Debug, PartialEq)]
pub struct User {
    pub id: u128,
    pub username: String,
    pub email: String,
    pub password_hash: String,
    pub reputation: i32,
    pub is_verified: bool,
}

/// A recorded purchase: one user buying one product for the product's price
/// at the time of purchase. Immutable once written.
#[derive(Debug, PartialEq)]
pub struct Purchase {
    pub id: u128,
    pub user_id: u128,
    pub product_id: u128,
    pub purchase_date_millis: i64,
    pub amount_cents: u64,
}

/// The fields a seller submits to list a product. The identifier, counters,
/// rating and timestamp are generated at creation, never supplied.
///
/// `price_cents` is signed so that a negative submission can be rejected
/// rather than silently wrapped.
#[derive(Debug, PartialEq)]
pub struct ProductInput {
    pub title: String,
    pub description: String,
    pub price_cents: i64,
    pub language: String,
    pub category: String,
    pub author_id: u128,
    pub code_content: String,
}

/// A purchase request. A client may declare the amount it expects to be
/// charged; if declared, it must match the product's stored price exactly.
#[derive(Debug, PartialEq, Eq, Structural, Clone, Copy)]
pub struct PurchaseRequest {
    pub user_id: u128,
    pub product_id: u128,
    pub claimed_amount_cents: Option<i64>,
}

/// The error taxonomy of the core.
///
/// `TransientFailure` stands for a retryable store fault; the in-memory store
/// never raises it itself, but callers that bind the core to a fallible
/// persistence engine report such faults under it.
#[derive(Debug, PartialEq, Eq, Structural, Clone, Copy)]
pub enum MarketError {
    ValidationError,
    NotFound,
    PriceMismatch,
    DuplicateError,
    ConstraintViolation,
    TransientFailure,
}

/// A product is well formed when its rating lies in the representable range
/// and its price fits a signed 64-bit amount, so that comparison with a
/// client-declared amount is exact.
pub open spec fn product_valid(p: Product) -> bool {
    &&& p.rating_centistars <= 500
    &&& p.price_cents <= i64::MAX as u64
}

/// A submission is valid when each of the four descriptive fields holds
/// something besides whitespace and the price is non-negative.
pub open spec fn input_valid(inp: ProductInput) -> bool {
    &&& text::trim_spec(inp.title@).len() > 0
    &&& text::trim_spec(inp.description@).len() > 0
    &&& text::trim_spec(inp.language@).len() > 0
    &&& text::trim_spec(inp.category@).len() > 0
    &&& 0 <= inp.price_cents
}

impl Product {
    /// An exact copy; used to hand query results out without surrendering
    /// the stored row.
    pub fn duplicate(&self) -> (r: Product)
        ensures
            r == *self,
    {
        Product {
            id: self.id,
            title: self.title.clone(),
            description: self.description.clone(),
            price_cents: self.price_cents,
            language: self.language.clone(),
            category: self.category.clone(),
            author_id: self.author_id,
            code_content: self.code_content.clone(),
            rating_centistars: self.rating_centistars,
            downloads: self.downloads,
            created_at_millis: self.created_at_millis,
        }
    }
}

impl Purchase {
    /// An exact copy of a ledger row.
    pub fn duplicate(&self) -> (r: Purchase)
        ensures
            r == *self,
    {
        Purchase {
            id: self.id,
            user_id: self.user_id,
            product_id: self.product_id,
            purchase_date_millis: self.purchase_date_millis,
            amount_cents: self.amount_cents,
        }
    }
}

} // verus!
