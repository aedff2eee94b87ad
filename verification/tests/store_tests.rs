use code_market::model::{MarketError, Product, ProductInput, PurchaseRequest, User};
use code_market::store::Store;

fn user(id: u128, name: &str, verified: bool) -> User {
    User {
        id,
        username: name.to_string(),
        email: format!("{}@example.com", name),
        password_hash: "opaque".to_string(),
        reputation: 0,
        is_verified: verified,
    }
}

fn input(title: &str, description: &str, price_cents: i64, language: &str, category: &str,
    author_id: u128) -> ProductInput {
    ProductInput {
        title: title.to_string(),
        description: description.to_string(),
        price_cents,
        language: language.to_string(),
        category: category.to_string(),
        author_id,
        code_content: "// Test code".to_string(),
    }
}

fn store_with_author() -> Store {
    let mut s = Store::new();
    s.add_user(user(1, "seller", true)).unwrap();
    s
}

#[test]
fn test_create_product() {
    let mut s = store_with_author();
    let r = s.create_product_at(
        input("Test Product", "Test Description", 9999, "Rust", "Backend", 1),
        10,
        99,
    );
    let p = r.unwrap();
    assert_eq!(p.id, 10);
    assert_eq!(p.title, "Test Product");
    assert_eq!(p.description, "Test Description");
    assert_eq!(p.price_cents, 9999);
    assert_eq!(p.language, "Rust");
    assert_eq!(p.category, "Backend");
    assert_eq!(p.downloads, 0);
    assert_eq!(p.rating_centistars, 0);
    assert_eq!(p.created_at_millis, 99);
    assert_eq!(s.products.len(), 1);
}

#[test]
fn test_create_product_rejects_empty_fields() {
    let mut s = store_with_author();
    assert_eq!(
        s.create_product_at(input("", "d", 100, "Rust", "Backend", 1), 10, 0),
        Err(MarketError::ValidationError)
    );
    assert_eq!(
        s.create_product_at(input("t", "", 100, "Rust", "Backend", 1), 10, 0),
        Err(MarketError::ValidationError)
    );
    assert_eq!(
        s.create_product_at(input("t", "d", 100, "", "Backend", 1), 10, 0),
        Err(MarketError::ValidationError)
    );
    assert_eq!(
        s.create_product_at(input("t", "d", 100, "Rust", "", 1), 10, 0),
        Err(MarketError::ValidationError)
    );
    assert_eq!(s.products.len(), 0);
}

#[test]
fn test_create_product_rejects_whitespace_only_fields() {
    let mut s = store_with_author();
    assert_eq!(
        s.create_product_at(input("   ", "d", 100, "Rust", "Backend", 1), 10, 0),
        Err(MarketError::ValidationError)
    );
    assert_eq!(
        s.create_product_at(input("t", " \t\n ", 100, "Rust", "Backend", 1), 10, 0),
        Err(MarketError::ValidationError)
    );
    assert_eq!(
        s.create_product_at(input("t", "d", 100, "  ", "Backend", 1), 10, 0),
        Err(MarketError::ValidationError)
    );
    assert_eq!(
        s.create_product_at(input("t", "d", 100, "Rust", "\r\n", 1), 10, 0),
        Err(MarketError::ValidationError)
    );
    assert_eq!(s.products.len(), 0);
}

#[test]
fn test_create_product_rejects_negative_price() {
    let mut s = store_with_author();
    assert_eq!(
        s.create_product_at(input("t", "d", -1, "Rust", "Backend", 1), 10, 0),
        Err(MarketError::ValidationError)
    );
    assert_eq!(s.products.len(), 0);
}

#[test]
fn test_create_product_rejects_unknown_author() {
    let mut s = store_with_author();
    assert_eq!(
        s.create_product_at(input("t", "d", 100, "Rust", "Backend", 42), 10, 0),
        Err(MarketError::ValidationError)
    );
}

#[test]
fn test_create_product_id_collision() {
    let mut s = store_with_author();
    s.create_product_at(input("a", "d", 100, "Rust", "Backend", 1), 10, 0).unwrap();
    assert_eq!(
        s.create_product_at(input("b", "d", 100, "Rust", "Backend", 1), 10, 0),
        Err(MarketError::ConstraintViolation)
    );
    assert_eq!(s.products.len(), 1);
    assert_eq!(s.products[0].title, "a");
}

#[test]
fn test_list_by_category_empty() {
    let mut s = store_with_author();
    assert!(s.get_products_by_category("Backend").is_empty());
    s.create_product_at(input("a", "d", 100, "Rust", "Frontend", 1), 10, 0).unwrap();
    assert!(s.get_products_by_category("Backend").is_empty());
}

#[test]
fn test_list_by_category_filters_and_trims() {
    let mut s = store_with_author();
    let a = s.create_product_at(input("a", "d", 100, "Rust", "Backend", 1), 10, 0).unwrap();
    s.create_product_at(input("b", "d", 100, "Rust", "Frontend", 1), 11, 1).unwrap();
    let c = s.create_product_at(input("c", "d", 100, "Rust", "Backend", 1), 12, 2).unwrap();
    let got = s.get_products_by_category("  Backend  ");
    assert_eq!(got, vec![a, c]);
}

#[test]
fn test_search_case_insensitive() {
    let mut s = store_with_author();
    s.create_product_at(input("Parser Combinator", "d", 100, "Rust", "Backend", 1), 10, 0)
        .unwrap();
    s.create_product_at(input("Other", "d", 100, "Python", "Backend", 1), 11, 1).unwrap();
    let upper = s.search_products("RUST");
    let lower = s.search_products("rust");
    assert_eq!(upper, lower);
    assert_eq!(upper.len(), 1);
    assert_eq!(upper[0].title, "Parser Combinator");
}

#[test]
fn test_search_empty_term_returns_all() {
    let mut s = store_with_author();
    s.create_product_at(input("a", "d", 100, "Rust", "Backend", 1), 10, 0).unwrap();
    s.create_product_at(input("b", "d", 100, "Go", "Frontend", 1), 11, 1).unwrap();
    assert_eq!(s.search_products("").len(), 2);
    assert_eq!(s.search_products("   ").len(), 2);
}

#[test]
fn test_search_matches_each_field() {
    let mut s = store_with_author();
    s.create_product_at(
        input("Tokenizer", "A fast LEXER for prose", 100, "Rust", "Backend", 1),
        10,
        0,
    )
    .unwrap();
    assert_eq!(s.search_products("token").len(), 1);
    assert_eq!(s.search_products("lexer").len(), 1);
    assert_eq!(s.search_products("rust").len(), 1);
    assert!(s.search_products("haskell").is_empty());
}

#[test]
fn test_purchase_product_not_found() {
    let mut s = store_with_author();
    s.add_user(user(2, "buyer", true)).unwrap();
    let req = PurchaseRequest { user_id: 2, product_id: 77, claimed_amount_cents: None };
    assert_eq!(s.process_purchase_at(req, 100, 5), Err(MarketError::NotFound));
    assert_eq!(s.purchases.len(), 0);
    assert_eq!(s.products.len(), 0);
}

#[test]
fn test_purchase_user_missing_or_unverified() {
    let mut s = store_with_author();
    s.create_product_at(input("a", "d", 100, "Rust", "Backend", 1), 10, 0).unwrap();
    s.add_user(user(3, "shady", false)).unwrap();
    let missing = PurchaseRequest { user_id: 99, product_id: 10, claimed_amount_cents: None };
    assert_eq!(s.process_purchase_at(missing, 100, 5), Err(MarketError::NotFound));
    let unverified = PurchaseRequest { user_id: 3, product_id: 10, claimed_amount_cents: None };
    assert_eq!(s.process_purchase_at(unverified, 101, 5), Err(MarketError::NotFound));
    assert_eq!(s.purchases.len(), 0);
    assert_eq!(s.products[0].downloads, 0);
}

#[test]
fn test_purchase_price_mismatch() {
    let mut s = store_with_author();
    s.create_product_at(input("a", "d", 250, "Rust", "Backend", 1), 10, 0).unwrap();
    s.add_user(user(2, "buyer", true)).unwrap();
    let wrong = PurchaseRequest { user_id: 2, product_id: 10, claimed_amount_cents: Some(100) };
    assert_eq!(s.process_purchase_at(wrong, 100, 5), Err(MarketError::PriceMismatch));
    assert_eq!(s.purchases.len(), 0);
    assert_eq!(s.products[0].downloads, 0);
    let right = PurchaseRequest { user_id: 2, product_id: 10, claimed_amount_cents: Some(250) };
    let q = s.process_purchase_at(right, 100, 5).unwrap();
    assert_eq!(q.amount_cents, 250);
}

#[test]
fn test_duplicate_purchase_rejected() {
    let mut s = store_with_author();
    s.create_product_at(input("a", "d", 100, "Rust", "Backend", 1), 10, 0).unwrap();
    s.add_user(user(2, "buyer", true)).unwrap();
    let req = PurchaseRequest { user_id: 2, product_id: 10, claimed_amount_cents: None };
    let first = s.process_purchase_at(req, 100, 5).unwrap();
    assert_eq!(first.user_id, 2);
    assert_eq!(first.product_id, 10);
    assert_eq!(s.process_purchase_at(req, 101, 6), Err(MarketError::DuplicateError));
    assert_eq!(s.purchases.len(), 1);
    assert_eq!(s.products[0].downloads, 1);
}

#[test]
fn test_purchase_id_collision() {
    let mut s = store_with_author();
    s.create_product_at(input("a", "d", 100, "Rust", "Backend", 1), 10, 0).unwrap();
    s.add_user(user(2, "buyer", true)).unwrap();
    s.add_user(user(3, "other", true)).unwrap();
    let req = PurchaseRequest { user_id: 2, product_id: 10, claimed_amount_cents: None };
    s.process_purchase_at(req, 100, 5).unwrap();
    let again = PurchaseRequest { user_id: 3, product_id: 10, claimed_amount_cents: None };
    assert_eq!(s.process_purchase_at(again, 100, 6), Err(MarketError::ConstraintViolation));
    assert_eq!(s.purchases.len(), 1);
    assert_eq!(s.products[0].downloads, 1);
}

#[test]
fn test_purchase_amount_is_stored_price() {
    let mut s = store_with_author();
    s.create_product_at(input("a", "d", 4200, "Rust", "Backend", 1), 10, 0).unwrap();
    s.add_user(user(2, "buyer", true)).unwrap();
    let req = PurchaseRequest { user_id: 2, product_id: 10, claimed_amount_cents: None };
    let q = s.process_purchase_at(req, 100, 5).unwrap();
    assert_eq!(q.amount_cents, 4200);
    assert_eq!(s.purchases[0].amount_cents, 4200);
}

#[test]
fn test_add_user_duplicate() {
    let mut s = Store::new();
    s.add_user(user(1, "seller", true)).unwrap();
    assert_eq!(s.add_user(user(2, "seller", true)), Err(MarketError::ConstraintViolation));
    assert_eq!(s.add_user(user(1, "someone", true)), Err(MarketError::ConstraintViolation));
    assert_eq!(s.users.len(), 1);
}

#[test]
fn test_scenario_parser_combinator() {
    let mut s = store_with_author();
    s.add_user(user(2, "buyer", true)).unwrap();
    let created = s
        .create_product_at(
            input("Parser Combinator", "Composable parsing", 999, "Rust", "Backend", 1),
            10,
            0,
        )
        .unwrap();
    let listed = s.get_products_by_category("Backend");
    assert_eq!(listed, vec![created]);

    let req = PurchaseRequest { user_id: 2, product_id: 10, claimed_amount_cents: Some(999) };
    let q = s.process_purchase_at(req, 100, 5).unwrap();
    assert_eq!(q.amount_cents, 999);
    assert_eq!(s.products[0].downloads, 1);

    assert_eq!(s.process_purchase_at(req, 101, 6), Err(MarketError::DuplicateError));
    assert_eq!(s.products[0].downloads, 1);
    assert_eq!(s.purchases.len(), 1);
}

#[test]
fn test_fresh_ids_and_clock() {
    let mut s = store_with_author();
    s.add_user(user(2, "buyer", true)).unwrap();
    let p = s.create_product(input("a", "d", 100, "Rust", "Backend", 1)).unwrap();
    assert_eq!(p.downloads, 0);
    assert_eq!(p.rating_centistars, 0);
    let req = PurchaseRequest { user_id: 2, product_id: p.id, claimed_amount_cents: None };
    let q = s.process_purchase(req).unwrap();
    assert_eq!(q.product_id, p.id);
    assert_eq!(q.amount_cents, 100);
    assert_eq!(s.products[0].downloads, 1);
    assert_eq!(s.process_purchase(req), Err(MarketError::DuplicateError));
    assert_eq!(s.products[0].downloads, 1);
}

#[test]
fn test_downloads_counts_distinct_buyers() {
    let mut s = store_with_author();
    s.create_product_at(input("a", "d", 100, "Rust", "Backend", 1), 10, 0).unwrap();
    for i in 0..5u128 {
        s.add_user(user(100 + i, &format!("buyer{}", i), true)).unwrap();
        let req = PurchaseRequest { user_id: 100 + i, product_id: 10, claimed_amount_cents: None };
        s.process_purchase_at(req, 1000 + i, 5).unwrap();
    }
    assert_eq!(s.products[0].downloads, 5);
    assert_eq!(s.purchases.len(), 5);
}
