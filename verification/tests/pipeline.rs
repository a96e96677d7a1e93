use okx_client::convert::Dec;
use okx_client::dispatch::{
    begin_dispatch, finish_dispatch, prepare_call, prepare_request, Descriptor, HttpMethod,
    TransportOutcome,
};
use okx_client::endpoints::{
    decode_account_asset_valuation, decode_currency, decode_funding_balance, GetCurrencies,
};
use okx_client::errors::ClientError;
use okx_client::json::decode_opt_dec_field;
use okx_client::limit::RateLimitBucket;
use okx_client::sign::{sign, Credentials};

fn creds() -> Credentials {
    Credentials {
        key: "test-key".to_owned(),
        secret: "test-secret".to_owned(),
        passphrase: "test-pass".to_owned(),
    }
}

#[test]
fn signature_determinism() {
    let a = sign("secret", "2020-08-10T02:26:23.085Z", "GET", "/asset/currencies", "");
    let b = sign("secret", "2020-08-10T02:26:23.085Z", "GET", "/asset/currencies", "");
    assert_eq!(a, b);
    let c = sign("secret", "2020-08-10T02:26:23.085Z", "GET", "/asset/currencies", "x");
    assert_ne!(a, c);
    let d = sign("secret", "2020-08-10T02:26:23.086Z", "GET", "/asset/currencies", "");
    assert_ne!(a, d);
    let e = sign("secre", "2020-08-10T02:26:23.085Z", "GET", "/asset/currencies", "");
    assert_ne!(a, e);
}

#[test]
fn signature_known_vector() {
    // HMAC-SHA256 with key "Jefe" over "what do ya want for nothing?",
    // base64-encoded.
    let sig = sign("Jefe", "", "", "", "what do ya want for nothing?");
    assert_eq!(sig, "W9zBRr9gdU5qBCQmCJV1x1oAPwidJzmDnexYuWTsOEM=");
}

#[test]
fn rate_limiter_window() {
    let mut b = RateLimitBucket::new(2, 1000, 0);
    assert!(b.attempt(0));
    assert!(b.attempt(1));
    assert!(!b.attempt(2));
    assert_eq!(b.retry_at(), 1000);
    assert_eq!(b.used, 2);
    // the window resets once its end has passed
    assert!(b.attempt(1000));
    assert_eq!(b.used, 1);
    assert!(b.attempt(1005));
    assert!(!b.attempt(1006));
}

#[test]
fn prepare_unauthenticated_get() {
    let desc = Descriptor {
        method: HttpMethod::Get,
        path: "/asset/currencies".to_owned(),
        auth: false,
    };
    let pairs = vec![("ccy".to_owned(), "BTC,ETH".to_owned())];
    let p = prepare_call(&desc, &pairs, None, "ts").expect("no auth needed");
    assert_eq!(p.path_and_query, "/asset/currencies?ccy=BTC%2CETH");
    assert!(p.headers.is_empty());
    assert_eq!(p.body, "");
}

#[test]
fn prepare_authenticated_get() {
    let req = GetCurrencies { ccy: Some("BTC".to_owned()) };
    let c = creds();
    let ts = "2020-08-10T02:26:23.085Z";
    let p = prepare_request(&req, Some(&c), ts).expect("credentials are complete");
    assert_eq!(p.path_and_query, "/asset/currencies?ccy=BTC");
    assert_eq!(p.body, "");
    assert_eq!(p.headers.len(), 4);
    assert_eq!(p.headers[0].0, "OK-ACCESS-KEY");
    assert_eq!(p.headers[0].1, "test-key");
    assert_eq!(p.headers[1].0, "OK-ACCESS-SIGN");
    assert_eq!(
        p.headers[1].1,
        sign("test-secret", ts, "GET", "/asset/currencies?ccy=BTC", "")
    );
    assert_eq!(p.headers[2].0, "OK-ACCESS-TIMESTAMP");
    assert_eq!(p.headers[2].1, ts);
    assert_eq!(p.headers[3].0, "OK-ACCESS-PASSPHRASE");
    assert_eq!(p.headers[3].1, "test-pass");
}

#[test]
fn prepare_missing_credentials_is_configuration_error() {
    let req = GetCurrencies::default();
    let r = prepare_request(&req, None, "ts");
    assert!(matches!(r, Err(ClientError::Configuration)));
    let incomplete = Credentials {
        key: "k".to_owned(),
        secret: "".to_owned(),
        passphrase: "p".to_owned(),
    };
    let r2 = prepare_request(&req, Some(&incomplete), "ts");
    assert!(matches!(r2, Err(ClientError::Configuration)));
}

#[test]
fn begin_dispatch_consumes_a_slot() {
    let req = GetCurrencies::default();
    let c = creds();
    let mut bucket = RateLimitBucket::new(1, 1000, 0);
    let first = begin_dispatch(&req, Some(&c), "ts", &mut bucket, 10);
    assert!(first.is_ok());
    assert_eq!(bucket.used, 1);
    let second = begin_dispatch(&req, Some(&c), "ts", &mut bucket, 20);
    match second {
        Err(ClientError::RateLimited { retry_at_ms }) => assert_eq!(retry_at_ms, 1000),
        _ => panic!("expected RateLimited"),
    }
}

#[test]
fn begin_dispatch_checks_configuration_before_consuming() {
    let req = GetCurrencies::default();
    let mut bucket = RateLimitBucket::new(5, 1000, 0);
    let r = begin_dispatch(&req, None, "ts", &mut bucket, 0);
    assert!(matches!(r, Err(ClientError::Configuration)));
    assert_eq!(bucket.used, 0);
}

#[test]
fn envelope_success_decodes_items() {
    let body = br#"{"code":"0","msg":"","data":[{"ccy":"BTC","bal":"1.23"}]}"#.to_vec();
    let data = finish_dispatch(TransportOutcome::Delivered { body }).expect("success envelope");
    assert_eq!(data.len(), 1);
    let item = decode_funding_balance(&data[0]).expect("well-formed item");
    assert_eq!(item.ccy, "BTC");
    assert_eq!(item.bal, Dec { units: 123, scale: 2 });
    assert_eq!(item.avail_bal, None);
    assert_eq!(item.frozen_bal, None);
}

#[test]
fn envelope_api_error_is_preserved_verbatim() {
    let body = br#"{"code":"50001","msg":"invalid ccy","data":[]}"#.to_vec();
    let r = finish_dispatch(TransportOutcome::Delivered { body });
    match r {
        Err(ClientError::Api { code, msg }) => {
            assert_eq!(code, "50001");
            assert_eq!(msg, "invalid ccy");
        }
        _ => panic!("expected Api error"),
    }
}

#[test]
fn envelope_malformed_keeps_raw_body() {
    let raw = b"not json at all".to_vec();
    let r = finish_dispatch(TransportOutcome::Delivered { body: raw.clone() });
    match r {
        Err(ClientError::MalformedResponse { body }) => assert_eq!(body, raw),
        _ => panic!("expected MalformedResponse"),
    }
}

#[test]
fn envelope_with_wrong_shape_is_malformed() {
    // numeric code instead of the exchange's string code
    let body = br#"{"code":0,"msg":"","data":[]}"#.to_vec();
    let r = finish_dispatch(TransportOutcome::Delivered { body });
    assert!(matches!(r, Err(ClientError::MalformedResponse { .. })));
    // data not an array
    let body2 = br#"{"code":"0","msg":"","data":{}}"#.to_vec();
    let r2 = finish_dispatch(TransportOutcome::Delivered { body: body2 });
    assert!(matches!(r2, Err(ClientError::MalformedResponse { .. })));
}

#[test]
fn transport_failure_is_surfaced() {
    let r = finish_dispatch(TransportOutcome::Failed {
        detail: "connection refused".to_owned(),
    });
    match r {
        Err(ClientError::Transport { detail }) => assert_eq!(detail, "connection refused"),
        _ => panic!("expected Transport"),
    }
}

#[test]
fn decimal_tolerance_in_fields() {
    let v: serde_json::Value =
        serde_json::from_str(r#"{"availBal":"","bal":"0.015","gone":null,"bad":"abc"}"#).unwrap();
    assert_eq!(decode_opt_dec_field(&v, "availBal").unwrap(), None);
    assert_eq!(decode_opt_dec_field(&v, "missing").unwrap(), None);
    assert_eq!(decode_opt_dec_field(&v, "gone").unwrap(), None);
    assert_eq!(
        decode_opt_dec_field(&v, "bal").unwrap(),
        Some(Dec { units: 15, scale: 3 })
    );
    match decode_opt_dec_field(&v, "bad") {
        Err(ClientError::FieldDecode { field }) => assert_eq!(field, "bad"),
        _ => panic!("expected FieldDecode"),
    }
}

#[test]
fn currency_decode() {
    let v: serde_json::Value =
        serde_json::from_str(r#"{"ccy":"BTC","name":"Bitcoin"}"#).unwrap();
    let c = decode_currency(&v).expect("well-formed currency");
    assert_eq!(c.ccy, "BTC");
    assert_eq!(c.name.as_deref(), Some("Bitcoin"));
    assert_eq!(c.chain, None);
}

#[test]
fn valuation_decode_with_deprecated_field_absent() {
    let v: serde_json::Value = serde_json::from_str(
        r#"{"totalBal":"100.5","ts":"1597026383085","details":{"funding":"1","trading":"2.5","earn":"0"}}"#,
    )
    .unwrap();
    let a = decode_account_asset_valuation(&v).expect("well-formed valuation");
    assert_eq!(a.total_bal, Dec { units: 1005, scale: 1 });
    assert_eq!(a.ts, 1597026383085);
    assert_eq!(a.details.funding, Dec { units: 1, scale: 0 });
    assert_eq!(a.details.trading, Dec { units: 25, scale: 1 });
    assert_eq!(a.details.classic, None);
    assert_eq!(a.details.earn, Dec { units: 0, scale: 0 });
}

#[test]
fn valuation_decode_bad_timestamp() {
    let v: serde_json::Value = serde_json::from_str(
        r#"{"totalBal":"1","ts":"12x","details":{"funding":"1","trading":"1","earn":"1"}}"#,
    )
    .unwrap();
    match decode_account_asset_valuation(&v) {
        Err(ClientError::FieldDecode { field }) => assert_eq!(field, "ts"),
        _ => panic!("expected FieldDecode on ts"),
    }
}
