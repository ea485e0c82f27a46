//! The outcome of a payment-intent request, decided from the fields of the
//! payment API's reply.

use vstd::prelude::*;

verus! {

/// A payment intent that the API created.
pub struct StripeResponse {
    pub client_secret: String,
    pub amount: u64,
    pub currency: String,
}

/// Why no payment intent was created.
pub struct StripeError {
    pub code: String,
    pub message: String,
    pub param: Option<String>,
    pub doc_url: String,
}

/// The fields of the API's JSON reply that the outcome depends on: the
/// top-level `clientSecret`, and `code`, `message`, `param` and `doc_url`
/// under `error`, each present when it is a string.
pub struct PaymentReply {
    pub client_secret: Option<String>,
    pub error_code: Option<String>,
    pub error_message: Option<String>,
    pub error_param: Option<String>,
    pub error_doc_url: Option<String>,
}

/// The view of an optional string.
pub open spec fn opt_view(o: Option<String>) -> Option<Seq<char>> {
    match o {
        Some(s) => Some(s@),
        None => None,
    }
}

/// The text of an optional string, or `default` when it is absent.
pub open spec fn text_or(o: Option<String>, default: Seq<char>) -> Seq<char> {
    match o {
        Some(s) => s@,
        None => default,
    }
}

fn string_or(o: Option<String>, default: &str) -> (r: String)
    ensures
        r@ == text_or(o, default@),
{
    match o {
        Some(s) => s,
        None => String::from_str(default),
    }
}

/// The outcome of a request for `amount` in `currency`: the intent when the
/// reply carries a client secret, else the reply's error, with `unknown`,
/// `Unknown error` and an empty URL standing in for absent fields.
pub fn payment_intent_result(amount: u64, currency: &str, reply: PaymentReply) -> (r: Result<StripeResponse, StripeError>)
    ensures
        r is Ok <==> reply.client_secret is Some,
        r matches Ok(ok) ==> {
            &&& Some(ok.client_secret@) == opt_view(reply.client_secret)
            &&& ok.amount == amount
            &&& ok.currency@ == currency@
        },
        r matches Err(e) ==> {
            &&& e.code@ == text_or(reply.error_code, "unknown"@)
            &&& e.message@ == text_or(reply.error_message, "Unknown error"@)
            &&& opt_view(e.param) == opt_view(reply.error_param)
            &&& e.doc_url@ == text_or(reply.error_doc_url, ""@)
        },
{
    match reply.client_secret {
        Some(client_secret) => Ok(StripeResponse { client_secret, amount, currency: String::from_str(currency) }),
        None => Err(
            StripeError {
                code: string_or(reply.error_code, "unknown"),
                message: string_or(reply.error_message, "Unknown error"),
                param: reply.error_param,
                doc_url: string_or(reply.error_doc_url, ""),
            },
        ),
    }
}

/// The error for a request that failed before a reply was read (`transport`)
/// or whose reply was not JSON: code `network_error` or `json_parse_error`,
/// and a message that names the failure and gives its detail.
pub fn request_failure(transport: bool, detail: &str) -> (r: StripeError)
    ensures
        r.code@ == if transport { "network_error"@ } else { "json_parse_error"@ },
        r.message@ == (if transport {
            "Error calling the payment API: "@
        } else {
            "Error parsing JSON response: "@
        }) + detail@,
        r.param is None,
        r.doc_url@ == ""@,
{
    let (code, mut message) = if transport {
        (String::from_str("network_error"), String::from_str("Error calling the payment API: "))
    } else {
        (String::from_str("json_parse_error"), String::from_str("Error parsing JSON response: "))
    };
    message.append(detail);
    StripeError { code, message, param: None, doc_url: String::from_str("") }
}

/// The payment API used in development.
pub const LOCAL_API_URL: &'static str = "http://127.0.0.1:3000/create-payment-intent";

/// The payment API used otherwise.
pub const PROD_API_URL: &'static str = "https://cipher-payments-api.vercel.app/create-payment-intent";

/// The API to call, given the value of the environment setting that names
/// the environment: the local one only for `dev`.
pub fn payment_api_url(environment: Option<&str>) -> (r: &'static str)
    ensures
        r@ == if environment matches Some(e) && e@ == "dev"@ {
            LOCAL_API_URL@
        } else {
            PROD_API_URL@
        },
{
    match environment {
        Some(e) => {
            let dev = String::from_str("dev");
            if String::from_str(e) == dev {
                LOCAL_API_URL
            } else {
                PROD_API_URL
            }
        },
        None => PROD_API_URL,
    }
}

} // verus!
