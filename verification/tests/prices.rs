//! Prices: asking for them, and bringing them along.

use muni::prices_client::{
    accept_prices, read_reply, resolve_token_from, truncate_for_log, PricesClient,
    PricesFetchError, DEFAULT_PRICES_URL,
};
use muni::pricing::{
    current_utc_yyyymm, month_or_fallback, seed_default_prices_if_empty, PriceLookup,
};
use serde_json::Value;
use std::collections::HashMap;
use std::sync::Mutex;

const TEST_TOKEN: &str = "test-bearer-****ABCD";

fn parse(body: &str) -> Result<(u32, Vec<Value>), String> {
    let reply: Value = serde_json::from_str(body).map_err(|e| e.to_string())?;
    let version = reply["schema_version"].as_u64().ok_or("no version")?;
    let prices = reply["prices"].as_array().ok_or("no prices")?;
    Ok((version as u32, prices.clone()))
}

fn fixture_response(version: u32) -> String {
    format!(
        "{{\"schema_version\": {version}, \"generated_at\": \"2026-05-06T12:34:56Z\", \
         \"prices\": [{{\"provider\": \"deepgram\", \"model\": \"nova-3\", \
         \"kind\": \"per_audio_second\", \"usd_per_second\": 0.00008, \
         \"usd_per_input_token\": null, \"usd_per_output_token\": null, \
         \"source_url\": \"https://deepgram.com/pricing\", \
         \"as_of\": \"2026-05-04T00:00:00Z\"}}]}}"
    )
}

fn fetch(
    client: &PricesClient,
    status: u16,
    body: String,
) -> Result<Vec<Value>, PricesFetchError> {
    client.authorization()?;
    let text = read_reply(status, Ok(body))?;
    accept_prices(parse(&text))
}

fn client(token: Option<&str>) -> PricesClient {
    PricesClient {
        url: "http://localhost".to_string(),
        token: token.map(|t| t.to_string()),
    }
}

#[test]
fn resolve_token_prefers_runtime_over_compiled() {
    assert_eq!(
        resolve_token_from(Some("runtime-****WXYZ".to_string()), Some("baked-****ABCD")),
        Some("runtime-****WXYZ".to_string())
    );
}

#[test]
fn resolve_token_falls_back_to_compiled_when_no_runtime() {
    assert_eq!(
        resolve_token_from(None, Some("baked-****ABCD")),
        Some("baked-****ABCD".to_string())
    );
}

#[test]
fn resolve_token_treats_empty_runtime_as_absent() {
    assert_eq!(
        resolve_token_from(Some(String::new()), Some("baked-****ABCD")),
        Some("baked-****ABCD".to_string())
    );
}

#[test]
fn resolve_token_is_none_when_neither_present() {
    assert_eq!(resolve_token_from(None, None), None);
}

#[test]
fn fetch_with_missing_token_returns_typed_error() {
    match fetch(&client(None), 200, fixture_response(1)) {
        Err(PricesFetchError::MissingToken) => {}
        other => panic!("expected MissingToken, got {other:?}"),
    }
}

#[test]
fn fetch_returns_prices_on_2xx_with_correct_schema() {
    let client = client(Some(TEST_TOKEN));
    assert_eq!(client.authorization(), Ok(format!("Bearer {TEST_TOKEN}")));
    let prices = fetch(&client, 200, fixture_response(1)).expect("ok");
    assert_eq!(prices.len(), 1);
    assert_eq!(prices[0]["provider"], "deepgram");
    assert_eq!(prices[0]["model"], "nova-3");
    assert_eq!(prices[0]["kind"], "per_audio_second");
    assert!((prices[0]["usd_per_second"].as_f64().unwrap() - 0.00008).abs() < 1e-12);
}

#[test]
fn fetch_rejects_unknown_schema_version() {
    match fetch(&client(Some(TEST_TOKEN)), 200, fixture_response(99)) {
        Err(PricesFetchError::SchemaMismatch { got }) => assert_eq!(got, 99),
        other => panic!("expected SchemaMismatch, got {other:?}"),
    }
}

#[test]
fn fetch_returns_http_error_for_non_2xx() {
    match fetch(&client(Some(TEST_TOKEN)), 401, "unauthorized: bad token".to_string()) {
        Err(PricesFetchError::Http { status, body }) => {
            assert_eq!(status, 401);
            assert!(body.contains("unauthorized"));
        }
        other => panic!("expected Http, got {other:?}"),
    }
}

#[test]
fn fetch_returns_parse_error_on_malformed_body() {
    match fetch(&client(Some(TEST_TOKEN)), 200, "{not json".to_string()) {
        Err(PricesFetchError::Parse(_)) => {}
        other => panic!("expected Parse, got {other:?}"),
    }
}

#[test]
fn a_body_that_cannot_be_read_is_a_network_error() {
    assert_eq!(
        read_reply(200, Err("reset".to_string())),
        Err(PricesFetchError::Network("reset".to_string()))
    );
    assert_eq!(
        read_reply(500, Err("reset".to_string())),
        Err(PricesFetchError::Http {
            status: 500,
            body: "(failed to read error body: reset)".to_string(),
        })
    );
    assert!(read_reply(199, Ok(String::new())).is_err());
    assert!(read_reply(299, Ok(String::new())).is_ok());
    assert!(read_reply(300, Ok(String::new())).is_err());
}

#[test]
fn long_error_bodies_are_cut_between_characters() {
    match read_reply(500, Ok("é".repeat(3000))) {
        Err(PricesFetchError::Http { body, .. }) => assert_eq!(body.len(), 4096),
        other => panic!("expected Http, got {other:?}"),
    }
    assert_eq!(truncate_for_log("aé", 2), "a");
    assert_eq!(truncate_for_log("aé", 3), "aé");
    assert_eq!(truncate_for_log("\u{1F600}", 3), "");
    assert_eq!(truncate_for_log("abc", 0), "");
}

#[test]
fn errors_are_logged_with_what_happened() {
    assert_eq!(PricesFetchError::MissingToken.to_string(), "MUNI_PRICES_TOKEN not injected");
    assert_eq!(PricesFetchError::Network("down".to_string()).to_string(), "network: down");
    assert_eq!(
        PricesFetchError::Http { status: 401, body: "no".to_string() }.to_string(),
        "http 401: no"
    );
    assert_eq!(PricesFetchError::Parse("eof".to_string()).to_string(), "parse: eof");
    assert_eq!(
        PricesFetchError::SchemaMismatch { got: 2 }.to_string(),
        "schema mismatch: got 2, expected 1"
    );
}

#[test]
fn the_client_takes_its_address_from_the_variable() {
    let client = PricesClient::new(None, None, Some("t"));
    assert_eq!(client.url, DEFAULT_PRICES_URL);
    assert!(client.has_token());
    let client = PricesClient::new(Some("http://x".to_string()), None, None);
    assert_eq!(client.url, "http://x");
    assert!(!client.has_token());
}

#[test]
fn months_are_written_in_utc() {
    assert_eq!(current_utc_yyyymm(0), "1970-01");
    assert_eq!(current_utc_yyyymm(1_779_192_000), "2026-05");
    assert_eq!(current_utc_yyyymm(951_782_400), "2000-02");
    assert_eq!(current_utc_yyyymm(-1), "1969-12");
    assert_eq!(current_utc_yyyymm(i64::MAX), "1970-01");
    assert_eq!(month_or_fallback(None), "1970-01");
    assert_eq!(month_or_fallback(Some("2026-05".to_string())), "2026-05");
}

#[test]
fn only_missing_prices_are_brought_along() {
    let entries = vec![1, 2, 3, 4];
    let seeded = seed_default_prices_if_empty(
        &entries,
        |e: &i32| match e {
            1 => PriceLookup::Found,
            2 => PriceLookup::Failed,
            _ => PriceLookup::Missing,
        },
        |e: &i32| {
            assert_ne!(*e, 1);
            *e != 4
        },
    );
    assert_eq!(seeded, 2);
}

#[test]
fn prices_that_are_there_stay() {
    let entries = vec![("a", 1), ("b", 2), ("b", 3), ("c", 4)];
    let table = Mutex::new(HashMap::from([("a", 9)]));
    let seed = || {
        seed_default_prices_if_empty(
            &entries,
            |e: &(&str, i32)| {
                if table.lock().expect("table").contains_key(e.0) {
                    PriceLookup::Found
                } else {
                    PriceLookup::Missing
                }
            },
            |e: &(&'static str, i32)| {
                table.lock().expect("table").insert(e.0, e.1);
                true
            },
        )
    };
    assert_eq!(seed(), 2);
    let expected = HashMap::from([("a", 9), ("b", 2), ("c", 4)]);
    assert_eq!(*table.lock().expect("table"), expected);
    assert_eq!(seed(), 0);
    assert_eq!(*table.lock().expect("table"), expected);
}

#[test]
fn months_follow_the_calendar() {
    assert_eq!(current_utc_yyyymm(951_868_799), "2000-02");
    assert_eq!(current_utc_yyyymm(951_868_800), "2000-03");
    assert_eq!(current_utc_yyyymm(4_107_542_399), "2100-02");
    assert_eq!(current_utc_yyyymm(4_107_542_400), "2100-03");
    assert_eq!(current_utc_yyyymm(-2_203_891_201), "1900-02");
    assert_eq!(current_utc_yyyymm(-2_203_891_200), "1900-03");
    assert_eq!(current_utc_yyyymm(-62_167_219_200), "0000-01");
    assert_eq!(current_utc_yyyymm(-62_167_219_201), "-0001-12");
}

#[test]
fn months_end_with_the_last_second_of_the_calendar() {
    assert_eq!(current_utc_yyyymm(253_402_300_799), "9999-12");
    assert_eq!(current_utc_yyyymm(253_402_300_800), "1970-01");
    assert_eq!(current_utc_yyyymm(-377_705_116_800), "-9999-01");
    assert_eq!(current_utc_yyyymm(-377_705_116_801), "1970-01");
}
