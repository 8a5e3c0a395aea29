use book_sync::book::{PriceLevel, Side};
use book_sync::gen::{generate_rand_order, generate_rand_orders};
use book_sync::record::{
    fresh_identity, serialize_book_order, translate, translate_now, BookOrder, OrderIdentity,
};
use book_sync::text::{fmt_i64, fmt_u128, is_plain};

fn sample_order() -> BookOrder {
    BookOrder {
        is_buy: true,
        reduce_only: false,
        quantity: 5,
        price: 100,
        timestamp: 1700000000,
        trigger_price: 0,
        leverage: 1,
        expiration: 0,
        hash: String::from("abc"),
        salt: 7,
        maker: String::from("mkr"),
        flags: String::from("fl"),
    }
}

#[test]
fn serializer_produces_the_exact_payload() {
    let payload = serialize_book_order(&sample_order()).expect("plain strings");
    assert_eq!(
        payload,
        "{\"is_buy\":true,\"reduce_only\":false,\"quantity\":5,\"price\":100,\
         \"timestamp\":1700000000,\"trigger_price\":0,\"leverage\":1,\"expiration\":0,\
         \"hash\":\"abc\",\"salt\":7,\"maker\":\"mkr\",\"flags\":\"fl\"}"
    );
}

#[test]
fn serializer_payload_is_valid_json_with_stable_types() {
    let payload = serialize_book_order(&sample_order()).expect("plain strings");
    let value: serde_json::Value = serde_json::from_str(&payload).expect("valid JSON");
    assert_eq!(value["is_buy"], serde_json::Value::Bool(true));
    assert_eq!(value["quantity"].as_u64(), Some(5));
    assert_eq!(value["price"].as_u64(), Some(100));
    assert_eq!(value["timestamp"].as_i64(), Some(1700000000));
    assert_eq!(value["hash"].as_str(), Some("abc"));
    assert_eq!(value["salt"].as_u64(), Some(7));
    assert_eq!(value["maker"].as_str(), Some("mkr"));
    assert_eq!(value["flags"].as_str(), Some("fl"));
}

#[test]
fn serializer_renders_negative_timestamps() {
    let mut order = sample_order();
    order.timestamp = -5;
    let payload = serialize_book_order(&order).expect("plain strings");
    assert!(payload.contains("\"timestamp\":-5"));
}

#[test]
fn serializer_rejects_strings_that_would_need_escaping() {
    let mut order = sample_order();
    order.hash = String::from("a\"b");
    assert!(serialize_book_order(&order).is_none());
    let mut order = sample_order();
    order.maker = String::from("back\\slash");
    assert!(serialize_book_order(&order).is_none());
}

#[test]
fn translate_derives_the_buy_flag_from_the_side() {
    let identity = OrderIdentity {
        hash: String::from("h"),
        salt: 1,
        maker: String::from("m"),
        flags: String::from("f"),
    };
    let bid = translate(PriceLevel { price: 100, quantity: 5 }, Side::Bid, 42, identity);
    assert!(bid.is_buy);
    assert!(!bid.reduce_only);
    assert_eq!(bid.quantity, 5);
    assert_eq!(bid.price, 100);
    assert_eq!(bid.timestamp, 42);
    assert_eq!(bid.trigger_price, 0);
    assert_eq!(bid.leverage, 1);
    assert_eq!(bid.expiration, 0);
    assert_eq!(bid.hash, "h");
    assert_eq!(bid.salt, 1);
    assert_eq!(bid.maker, "m");
    assert_eq!(bid.flags, "f");

    let ask = translate_now(PriceLevel { price: 101, quantity: 3 }, Side::Ask);
    assert!(!ask.is_buy);
    assert_eq!(ask.quantity, 3);
    assert_eq!(ask.price, 101);
}

#[test]
fn fresh_identity_has_the_documented_shape() {
    let identity = fresh_identity();
    assert_eq!(identity.hash.chars().count(), 40);
    assert_eq!(identity.maker.chars().count(), 10);
    assert_eq!(identity.flags.chars().count(), 10);
    for c in identity.hash.chars().chain(identity.maker.chars()).chain(identity.flags.chars()) {
        assert!(c.is_ascii_alphanumeric());
    }
}

#[test]
fn decimal_rendering_matches_std() {
    assert_eq!(fmt_u128(0), "0");
    assert_eq!(fmt_u128(10), "10");
    assert_eq!(fmt_u128(u128::MAX), u128::MAX.to_string());
    assert_eq!(fmt_i64(i64::MIN), i64::MIN.to_string());
    assert_eq!(fmt_i64(i64::MAX), i64::MAX.to_string());
    assert_eq!(fmt_i64(0), "0");
}

#[test]
fn plainness_check_matches_its_definition() {
    assert!(is_plain("abc DEF 123 .,:~"));
    assert!(!is_plain("quote\"inside"));
    assert!(!is_plain("back\\slash"));
    assert!(!is_plain("control\u{1}char"));
    assert!(!is_plain("beyond\u{e9}ascii"));
}

#[test]
fn generated_orders_sit_on_the_benchmark_lattices() {
    let orders = generate_rand_orders(25);
    assert_eq!(orders.len(), 25);
    for order in &orders {
        let price_point = order.price / 100_000_000_000;
        assert!((419337..=435375).contains(&price_point));
        assert_eq!((price_point - 419337) % 162, 0);
        let quantity_point = order.quantity / 1_000_000_000;
        assert!((187..=583).contains(&quantity_point));
        assert_eq!((quantity_point - 187) % 4, 0);
        assert!((1..=10_000).contains(&order.trigger_price));
        assert!((1..=10).contains(&order.leverage));
        assert!((1..=10_000).contains(&order.expiration));
        assert!(order.hash.chars().all(|c| c.is_ascii_digit()));
        assert!(order.maker.chars().all(|c| c.is_ascii_digit()));
        assert!(order.flags.chars().all(|c| c.is_ascii_digit()));
    }
}

#[test]
fn one_generated_order_serializes() {
    let order = generate_rand_order();
    let payload = serialize_book_order(&order).expect("digit strings are plain");
    let value: serde_json::Value = serde_json::from_str(&payload).expect("valid JSON");
    assert_eq!(value["price"].as_u64(), Some(order.price as u64));
}
