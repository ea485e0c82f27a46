use cipher_core::payment::{payment_api_url, payment_intent_result, request_failure, PaymentReply, LOCAL_API_URL, PROD_API_URL};

fn reply() -> PaymentReply {
    PaymentReply { client_secret: None, error_code: None, error_message: None, error_param: None, error_doc_url: None }
}

#[test]
fn client_secret_gives_intent() {
    let r = payment_intent_result(500, "usd", PaymentReply { client_secret: Some("pi_secret".to_string()), ..reply() });
    let ok = r.ok().unwrap();
    assert_eq!(ok.client_secret, "pi_secret");
    assert_eq!(ok.amount, 500);
    assert_eq!(ok.currency, "usd");
}

#[test]
fn missing_secret_gives_error_with_defaults() {
    let e = payment_intent_result(500, "usd", reply()).err().unwrap();
    assert_eq!(e.code, "unknown");
    assert_eq!(e.message, "Unknown error");
    assert_eq!(e.param, None);
    assert_eq!(e.doc_url, "");
    let e = payment_intent_result(
        1,
        "eur",
        PaymentReply {
            error_code: Some("amount_too_small".to_string()),
            error_message: Some("Amount must be at least 50 cents".to_string()),
            error_param: Some("amount".to_string()),
            error_doc_url: Some("https://docs/x".to_string()),
            ..reply()
        },
    )
    .err()
    .unwrap();
    assert_eq!(e.code, "amount_too_small");
    assert_eq!(e.message, "Amount must be at least 50 cents");
    assert_eq!(e.param, Some("amount".to_string()));
    assert_eq!(e.doc_url, "https://docs/x");
}

#[test]
fn request_failures() {
    let e = request_failure(true, "timeout");
    assert_eq!(e.code, "network_error");
    assert_eq!(e.message, "Error calling the payment API: timeout");
    let e = request_failure(false, "eof");
    assert_eq!(e.code, "json_parse_error");
    assert_eq!(e.message, "Error parsing JSON response: eof");
}

#[test]
fn api_url_by_environment() {
    assert_eq!(payment_api_url(Some("dev")), LOCAL_API_URL);
    assert_eq!(payment_api_url(Some("prod")), PROD_API_URL);
    assert_eq!(payment_api_url(None), PROD_API_URL);
}
