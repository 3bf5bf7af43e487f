use std::collections::BTreeMap;

use hmac::{Hmac, Mac};
use jwt::{AlgorithmType, Header, Token, VerifyWithKey};
use sha2::Sha256;
use upbit::account::UpbitAccount;
use upbit::api::{
    generate_request_body, headers, InternalRequestError, RequestMethod, UpbitRequestBuilder,
};
use upbit::decision::SizingPolicy;
use upbit::endpoints::{
    accounts_url, available_markets, balance_currency, balance_market, balance_of, buy_order,
    candle_url, check_ratio, holdings_by_market, krw_markets, markets_url, orders_url, plan_buy, plan_sell,
    price_url, prices_url, sell_order, CandleUnit, OrderError,
};
use upbit::error::UPBitError;
use upbit::response::{Balance, Ticker};
use upbit::text::{contains, decimal_string, find_char, fixed_point_string, join, second_segment};

fn pair(name: &str, value: &str) -> (String, String) {
    (name.to_string(), value.to_string())
}

fn account() -> UpbitAccount {
    UpbitAccount::new("my-access".to_string(), "my-secret".to_string())
}

fn claims_of(token: &str, secret: &[u8]) -> BTreeMap<String, String> {
    let key: Hmac<Sha256> = Hmac::new_from_slice(secret).unwrap();
    let verified: Token<Header, BTreeMap<String, String>, _> = token.verify_with_key(&key).unwrap();
    assert_eq!(verified.header().algorithm, AlgorithmType::Hs256);
    verified.claims().clone()
}

fn balance(currency: &str, amount: u64) -> Balance {
    Balance {
        currency: currency.to_string(),
        balance: amount,
        locked: 0,
        avg_buy_price: 0,
        avg_buy_price_modified: false,
        unit_currency: "KRW".to_string(),
    }
}

fn ticker(market: &str) -> Ticker {
    Ticker {
        market: market.to_string(),
        korean_name: String::new(),
        english_name: String::new(),
    }
}

#[test]
fn account_keeps_its_keys() {
    let a = account();
    assert_eq!(a.access_key, "my-access");
    assert_eq!(a.secret_key, "my-secret");
}

#[test]
fn request_body_of_parameters() {
    let params = vec![pair("market", "KRW-BTC"), pair("side", "bid")];
    let (query, json) = generate_request_body(&params);
    assert_eq!(query, "market=KRW-BTC&side=bid");
    assert_eq!(json, "{\"market\": \"KRW-BTC\", \"side\": \"bid\"}");
    let (query, json) = generate_request_body(&vec![pair("a", "1")]);
    assert_eq!(query, "a=1");
    assert_eq!(json, "{\"a\": \"1\"}");
}

#[test]
fn request_body_of_no_parameters_is_empty() {
    let (query, json) = generate_request_body(&Vec::new());
    assert_eq!(query, "");
    assert_eq!(json, "");
}

#[test]
fn builder_sets_method_and_url() {
    let get = UpbitRequestBuilder::default().get("https://x/y".to_string());
    assert_eq!(get.method(), RequestMethod::Get);
    assert_eq!(get.url(), "https://x/y");
    assert!(get.parameters().is_empty());
    let post = UpbitRequestBuilder::default().post("https://x/z".to_string());
    assert_eq!(post.method(), RequestMethod::Post);
    assert_eq!(post.url(), "https://x/z");
    assert!(post.parameters().is_empty());
}

#[test]
fn add_parameter_appends_and_replaces() {
    let config = UpbitRequestBuilder::default()
        .get("u".to_string())
        .add_parameter("a", "1")
        .add_parameter("b", "2")
        .add_parameter("a", "3")
        .add_parameter("c", "4");
    assert_eq!(config.parameters(), &vec![pair("a", "3"), pair("b", "2"), pair("c", "4")]);
    assert_eq!(config.url(), "u");
    assert_eq!(config.method(), RequestMethod::Get);
    let copy = config.clone();
    assert_eq!(copy.parameters(), config.parameters());
    assert_eq!(copy.url(), "u");
    assert_eq!(copy.method(), RequestMethod::Get);
}

#[test]
fn full_url_carries_the_query() {
    let bare = UpbitRequestBuilder::default().get("https://x/y".to_string());
    assert_eq!(bare.full_url(), "https://x/y");
    let config = bare.add_parameter("a", "1").add_parameter("b", "2");
    assert_eq!(config.full_url(), "https://x/y?a=1&b=2");
}

#[test]
fn public_request_takes_get_only() {
    let request = UpbitRequestBuilder::default()
        .get("https://x/y".to_string())
        .add_parameter("markets", "KRW-BTC")
        .public()
        .unwrap();
    assert_eq!(request.method, RequestMethod::Get);
    assert_eq!(request.url, "https://x/y?markets=KRW-BTC");
    assert_eq!(request.bearer, None);
    assert_eq!(request.body, None);
    assert_eq!(
        request.headers,
        vec![pair("Accept", "application/json"), pair("Content-Type", "application/json")]
    );
    assert_eq!(headers(), request.headers);
    let refused = UpbitRequestBuilder::default().post("https://x/y".to_string()).public();
    assert_eq!(refused.err(), Some(InternalRequestError::WrongMethod));
}

#[test]
fn private_get_signs_access_key_and_nonce() {
    let config = UpbitRequestBuilder::default().get(accounts_url());
    let request = config.private_with_nonce(&account(), "nonce-1").unwrap();
    assert_eq!(request.method, RequestMethod::Get);
    assert_eq!(request.url, "https://api.upbit.com/v1/accounts");
    assert_eq!(request.body, None);
    let token = request.bearer.unwrap();
    assert_eq!(token.split('.').count(), 3);
    let claims = claims_of(&token, b"my-secret");
    let mut expected: BTreeMap<String, String> = BTreeMap::new();
    expected.insert("access_key".to_string(), "my-access".to_string());
    expected.insert("nonce".to_string(), "nonce-1".to_string());
    assert_eq!(claims, expected);
}

#[test]
fn private_token_depends_on_secret_and_nonce() {
    let make = |secret: &str, nonce: &str| {
        let a = UpbitAccount::new("my-access".to_string(), secret.to_string());
        UpbitRequestBuilder::default()
            .get(accounts_url())
            .private_with_nonce(&a, nonce)
            .unwrap()
            .bearer
            .unwrap()
    };
    assert_eq!(make("s1", "n1"), make("s1", "n1"));
    assert_ne!(make("s1", "n1"), make("s2", "n1"));
    assert_ne!(make("s1", "n1"), make("s1", "n2"));
    let key: Hmac<Sha256> = Hmac::new_from_slice(b"other").unwrap();
    let token = make("s1", "n1");
    let wrong: Result<BTreeMap<String, String>, jwt::Error> = token.as_str().verify_with_key(&key);
    assert!(wrong.is_err());
}

#[test]
fn private_post_signs_the_hash_of_the_query() {
    let config = UpbitRequestBuilder::default()
        .post(orders_url())
        .add_parameter("market", "KRW-BTC")
        .add_parameter("side", "bid")
        .add_parameter("price", "10000")
        .add_parameter("ord_type", "price");
    let request = config.private_with_nonce(&account(), "nonce-1").unwrap();
    assert_eq!(request.method, RequestMethod::Post);
    assert_eq!(
        request.url,
        "https://api.upbit.com/v1/orders?market=KRW-BTC&side=bid&price=10000&ord_type=price"
    );
    assert_eq!(
        request.body.as_deref(),
        Some(
            "{\"market\": \"KRW-BTC\", \"side\": \"bid\", \"price\": \"10000\", \"ord_type\": \"price\"}"
        )
    );
    let claims = claims_of(&request.bearer.unwrap(), b"my-secret");
    assert_eq!(claims.len(), 4);
    assert_eq!(claims["access_key"], "my-access");
    assert_eq!(claims["nonce"], "nonce-1");
    assert_eq!(claims["query_hash_alg"], "SHA512");
    let expected_hash = [
        "5a62dae6bfcaf9d69ae615ce7ecee097dcf4a2f4fa751a75af5f88905740c2ad",
        "8813c153bb383a3337a03aac634efdf950b846aa963448628226c027c793422c",
    ]
    .concat();
    assert_eq!(claims["query_hash"], expected_hash);
}

#[test]
fn private_post_without_parameters_hashes_the_empty_query() {
    let config = UpbitRequestBuilder::default().post(orders_url());
    let request = config.private_with_nonce(&account(), "n").unwrap();
    assert_eq!(request.url, "https://api.upbit.com/v1/orders");
    assert_eq!(request.body.as_deref(), Some(""));
    let claims = claims_of(&request.bearer.unwrap(), b"my-secret");
    let expected_hash = [
        "cf83e1357eefb8bdf1542850d66d8007d620e4050b5715dc83f4a921d36ce9ce",
        "47d0d13c5d85f2b0ff8318d2877eec2f63b931bd47417a81a538327af927da3e",
    ]
    .concat();
    assert_eq!(claims["query_hash"], expected_hash);
}

#[test]
fn claims_are_listed_in_order() {
    let get = UpbitRequestBuilder::default().get(accounts_url());
    assert_eq!(
        get.claims(&account(), "n"),
        vec![pair("access_key", "my-access"), pair("nonce", "n")]
    );
    let post = UpbitRequestBuilder::default().post(orders_url()).add_parameter("a", "b");
    let claims = post.claims(&account(), "n");
    assert_eq!(claims.len(), 4);
    assert_eq!(claims[2].0, "query_hash");
    assert_eq!(claims[2].1.len(), 128);
    assert!(claims[2].1.chars().all(|c| c.is_ascii_digit() || ('a'..='f').contains(&c)));
    assert_eq!(claims[3], pair("query_hash_alg", "SHA512"));
}

#[test]
fn authorize_sets_the_bearer() {
    let request = UpbitRequestBuilder::default()
        .get("u".to_string())
        .add_parameter("a", "1")
        .authorize("tok".to_string());
    assert_eq!(request.bearer.as_deref(), Some("tok"));
    assert_eq!(request.url, "u?a=1");
    assert_eq!(request.body, None);
}

#[test]
fn private_draws_a_fresh_nonce_each_time() {
    let first = UpbitRequestBuilder::default().get(accounts_url()).private(&account()).unwrap();
    let second = UpbitRequestBuilder::default().get(accounts_url()).private(&account()).unwrap();
    let a = claims_of(&first.bearer.unwrap(), b"my-secret");
    let b = claims_of(&second.bearer.unwrap(), b"my-secret");
    assert_eq!(a["nonce"].chars().count(), 36);
    assert_eq!(b["nonce"].chars().count(), 36);
    assert_ne!(a["nonce"], b["nonce"]);
    assert_eq!(a["access_key"], "my-access");
}

#[test]
fn addresses() {
    assert_eq!(markets_url(), "https://api.upbit.com/v1/market/all");
    assert_eq!(accounts_url(), "https://api.upbit.com/v1/accounts");
    assert_eq!(orders_url(), "https://api.upbit.com/v1/orders");
    assert_eq!(
        candle_url("KRW-BTC", &CandleUnit::Min1, 200),
        "https://api.upbit.com/v1/candles/minutes/1?market=KRW-BTC&count=200"
    );
    assert_eq!(
        candle_url("KRW-ETH", &CandleUnit::Hour4, 0),
        "https://api.upbit.com/v1/candles/minutes/240?market=KRW-ETH&count=0"
    );
    assert_eq!(CandleUnit::Min3.path(), "minutes/3");
    assert_eq!(CandleUnit::Min5.path(), "minutes/5");
    assert_eq!(CandleUnit::Min10.path(), "minutes/10");
    assert_eq!(CandleUnit::Min30.path(), "minutes/30");
    assert_eq!(CandleUnit::Hour1.path(), "minutes/60");
    assert_eq!(price_url("KRW-BTC"), "https://api.upbit.com/v1/ticker?markets=KRW-BTC");
    assert_eq!(
        prices_url(&vec!["KRW-BTC".to_string(), "KRW-ETH".to_string()]),
        "https://api.upbit.com/v1/ticker?markets=KRW-BTC,KRW-ETH"
    );
    assert_eq!(prices_url(&Vec::new()), "https://api.upbit.com/v1/ticker?markets=");
}

#[test]
fn orders_carry_their_parameters() {
    let buy = buy_order("KRW-BTC", 10_000, 0);
    assert_eq!(buy.method(), RequestMethod::Post);
    assert_eq!(buy.url(), "https://api.upbit.com/v1/orders");
    assert_eq!(
        buy.parameters(),
        &vec![
            pair("market", "KRW-BTC"),
            pair("side", "bid"),
            pair("price", "10000"),
            pair("ord_type", "price")
        ]
    );
    let sell = sell_order("KRW-BTC", 1_250_000, 6);
    assert_eq!(
        sell.parameters(),
        &vec![
            pair("market", "KRW-BTC"),
            pair("side", "ask"),
            pair("volume", "1.250000"),
            pair("ord_type", "market")
        ]
    );
}

#[test]
fn numerals() {
    assert_eq!(decimal_string(0), "0");
    assert_eq!(decimal_string(7), "7");
    assert_eq!(decimal_string(10), "10");
    assert_eq!(decimal_string(u64::MAX), "18446744073709551615");
    assert_eq!(fixed_point_string(0, 0), "0");
    assert_eq!(fixed_point_string(12345, 0), "12345");
    assert_eq!(fixed_point_string(12345, 2), "123.45");
    assert_eq!(fixed_point_string(5, 3), "0.005");
    assert_eq!(fixed_point_string(1_000_000, 6), "1.000000");
    assert_eq!(fixed_point_string(7, 25), "0.0000000000000000000000007");
}

#[test]
fn text_search_and_split() {
    assert!(contains("KRW-BTC", "KRW"));
    assert!(contains("BTC-KRW", "KRW"));
    assert!(contains("xKRWx", "KRW"));
    assert!(!contains("BTC-ETH", "KRW"));
    assert!(!contains("KR", "KRW"));
    assert!(contains("abc", ""));
    assert!(contains("", ""));
    assert!(!contains("", "a"));
    assert_eq!(find_char("a-b-c", '-', 0), 1);
    assert_eq!(find_char("a-b-c", '-', 2), 3);
    assert_eq!(find_char("abc", '-', 0), 3);
    assert_eq!(second_segment("KRW-BTC", '-').as_deref(), Some("BTC"));
    assert_eq!(second_segment("KRW-BTC-X", '-').as_deref(), Some("BTC"));
    assert_eq!(second_segment("KRW-", '-').as_deref(), Some(""));
    assert_eq!(second_segment("KRW", '-'), None);
    assert_eq!(join(&vec!["a".to_string(), "b".to_string(), "c".to_string()], ", "), "a, b, c");
    assert_eq!(join(&vec!["a".to_string()], ", "), "a");
    assert_eq!(join(&Vec::new(), ", "), "");
}

#[test]
fn balance_lookup() {
    assert_eq!(balance_currency("KRW").as_deref(), Some("KRW"));
    assert_eq!(balance_currency("KRW-BTC").as_deref(), Some("BTC"));
    assert_eq!(balance_currency("BTC"), None);
    let balances = vec![balance("KRW", 100_000), balance("BTC", 3), balance("BTC", 9)];
    assert_eq!(balance_of(&balances, "KRW"), Some(100_000));
    assert_eq!(balance_of(&balances, "KRW-BTC"), Some(3));
    assert_eq!(balance_of(&balances, "KRW-ETH"), None);
    assert_eq!(balance_of(&balances, "BTC"), None);
    assert_eq!(balance_of(&[], "KRW"), None);
}

#[test]
fn markets_against_the_quote_currency() {
    let all = vec![ticker("KRW-BTC"), ticker("BTC-ETH"), ticker("KRW-ETH"), ticker("USDT-BTC")];
    assert_eq!(krw_markets(&all), vec!["KRW-BTC".to_string(), "KRW-ETH".to_string()]);
    assert_eq!(krw_markets(&[]), Vec::<String>::new());
}

#[test]
fn markets_or_a_failure() {
    let all = vec![ticker("KRW-BTC"), ticker("BTC-ETH")];
    assert_eq!(available_markets(&all).unwrap(), vec!["KRW-BTC".to_string()]);
    match available_markets(&[ticker("BTC-ETH")]) {
        Err(UPBitError::FailedToReceiveDataError(text)) => {
            assert_eq!(text, "no market was received")
        }
        _ => panic!("no market trades against the quote currency"),
    }
    assert!(available_markets(&[]).is_err());
}

#[test]
fn holdings_are_named_by_market() {
    assert_eq!(balance_market("KRW"), "KRW");
    assert_eq!(balance_market("BTC"), "KRW-BTC");
    assert_eq!(balance_market(""), "KRW-");
    let balances = vec![balance("KRW", 100_000), balance("BTC", 3)];
    assert_eq!(
        holdings_by_market(&balances).unwrap(),
        vec![("KRW".to_string(), 100_000), ("KRW-BTC".to_string(), 3)]
    );
    match holdings_by_market(&[]) {
        Err(UPBitError::FailedToReceiveDataError(text)) => {
            assert_eq!(text, "the account holds nothing")
        }
        _ => panic!("an account without balances is a failure"),
    }
}

#[test]
fn one_buy_order_of_a_tenth_of_the_portfolio() {
    let policy = SizingPolicy::standard(6_000);
    let order = plan_buy(&policy, 100_000, 0, "KRW-BTC", 0).unwrap();
    assert_eq!(order.method(), RequestMethod::Post);
    assert_eq!(order.url(), "https://api.upbit.com/v1/orders");
    assert_eq!(
        order.parameters(),
        &vec![
            pair("market", "KRW-BTC"),
            pair("side", "bid"),
            pair("price", "10000"),
            pair("ord_type", "price")
        ]
    );
}

#[test]
fn no_buy_order_outside_the_bounds() {
    let policy = SizingPolicy::standard(6_000);
    assert!(plan_buy(&policy, 59_999, 0, "KRW-BTC", 0).is_none());
    assert!(plan_buy(&policy, 100_000, 5_001, "KRW-BTC", 0).is_none());
    assert!(plan_buy(&policy, 100_000, 5_000, "KRW-BTC", 0).is_some());
}

#[test]
fn sell_orders_and_their_refusals() {
    let order = plan_sell(Some(250_000_000), 50_000_000, "KRW-BTC", 8).unwrap();
    assert_eq!(
        order.parameters(),
        &vec![
            pair("market", "KRW-BTC"),
            pair("side", "ask"),
            pair("volume", "1.25000000"),
            pair("ord_type", "market")
        ]
    );
    let fraction = plan_sell(Some(1_000_000_000), 250_000, "KRW-BTC", 8).unwrap();
    assert_eq!(fraction.parameters()[2], pair("volume", "0.02500000"));
    assert_eq!(
        plan_sell(Some(1), 100_000_001, "KRW-BTC", 8).err(),
        Some(OrderError::InvalidRatio)
    );
    assert_eq!(plan_sell(None, u32::MAX, "KRW-BTC", 8).err(), Some(OrderError::InvalidRatio));
    assert_eq!(plan_sell(None, 100_000_000, "KRW-BTC", 8).err(), Some(OrderError::NothingToSell));
    assert_eq!(check_ratio(100_000_000), Ok(()));
    assert_eq!(check_ratio(0), Ok(()));
    assert_eq!(check_ratio(100_000_001), Err(OrderError::InvalidRatio));
    assert_eq!(OrderError::InvalidRatio.message(), "the share to sell is not a percentage");
    assert_eq!(OrderError::NothingToSell.message(), "there is no balance to sell");
}
