//! Asking the price service for prices: the request, and what its reply
//! comes to.

use vstd::prelude::*;
use vstd::utf8::*;

use crate::hotkey_binding::option_view;
use crate::text::{decimal_digits, decimal_text, slice};

verus! {

/// Where the price service is, unless it is set.
pub const DEFAULT_PRICES_URL: &'static str = "https://prices.muni.example/v1/prices";

/// Variable for where the price service is.
pub const PRICES_URL_ENV_VAR: &'static str = "MUNI_PRICES_URL";

/// Variable for the token, when the app runs and when it is built.
pub const PRICES_TOKEN_ENV_VAR: &'static str = "MUNI_PRICES_TOKEN";

/// The version of the reply that is understood.
pub const SUPPORTED_SCHEMA_VERSION: u32 = 1;

/// How long a reply is waited for, in milliseconds.
pub const FETCH_TIMEOUT_MS: u64 = 10_000;

/// How much of an error reply is kept.
pub const MAX_ERROR_BODY_BYTES: usize = 4_096;

/// Why there are no prices.
#[derive(Debug, Clone, PartialEq, Eq)]
pub enum PricesFetchError {
    /// There is no token.
    MissingToken,
    /// The service could not be reached, or not be read.
    Network(String),
    /// The service refused.
    Http { status: u16, body: String },
    /// The reply does not have the shape.
    Parse(String),
    /// The reply has a version that is not understood.
    SchemaMismatch { got: u32 },
}

impl PricesFetchError {
    /// What is logged.
    pub open spec fn message(self) -> Seq<char> {
        match self {
            PricesFetchError::MissingToken => "MUNI_PRICES_TOKEN not injected"@,
            PricesFetchError::Network(msg) => "network: "@ + msg@,
            PricesFetchError::Http { status, body } => "http "@ + decimal_digits(status as nat)
                + ": "@ + body@,
            PricesFetchError::Parse(msg) => "parse: "@ + msg@,
            PricesFetchError::SchemaMismatch { got } => "schema mismatch: got "@ + decimal_digits(
                got as nat,
            ) + ", expected "@ + decimal_digits(SUPPORTED_SCHEMA_VERSION as nat),
        }
    }

    /// What is logged.
    pub fn to_string(&self) -> (text: String)
        ensures
            text@ == self.message(),
    {
        let mut text = String::new();
        match self {
            PricesFetchError::MissingToken => {
                text.append("MUNI_PRICES_TOKEN not injected");
            },
            PricesFetchError::Network(msg) => {
                text.append("network: ");
                text.append(msg.as_str());
            },
            PricesFetchError::Http { status, body } => {
                text.append("http ");
                text.append(decimal_text(*status as u64).as_str());
                text.append(": ");
                text.append(body.as_str());
            },
            PricesFetchError::Parse(msg) => {
                text.append("parse: ");
                text.append(msg.as_str());
            },
            PricesFetchError::SchemaMismatch { got } => {
                text.append("schema mismatch: got ");
                text.append(decimal_text(*got as u64).as_str());
                text.append(", expected ");
                text.append(decimal_text(SUPPORTED_SCHEMA_VERSION as u64).as_str());
            },
        }
        proof {
            assert(text@ =~= self.message());
        }
        text
    }
}

/// The token to send: the one of the running app, or the one that it was built
/// with. An empty one counts as none.
pub fn resolve_token_from(runtime: Option<String>, compiled: Option<&str>) -> (token: Option<
    String,
>)
    ensures
        option_view(token) == if runtime matches Some(text) && text@.len() > 0 {
            Some(runtime->0@)
        } else {
            match compiled {
                Some(text) => Some(text@),
                None => None,
            }
        },
{
    if let Some(text) = runtime {
        if !text.as_str().is_empty() {
            return Some(text);
        }
    }
    match compiled {
        Some(text) => Some(text.to_owned()),
        None => None,
    }
}

/// What the request is made of.
#[derive(Debug, Clone, PartialEq, Eq)]
pub struct PricesClient {
    pub url: String,
    pub token: Option<String>,
}

impl PricesClient {
    /// The client that the variables and the built-in token ask for.
    pub fn new(
        url: Option<String>,
        runtime_token: Option<String>,
        compiled_token: Option<&str>,
    ) -> (client: Self)
        ensures
            client.url@ == match url {
                Some(url) => url@,
                None => DEFAULT_PRICES_URL@,
            },
            option_view(client.token) == if runtime_token matches Some(text) && text@.len() > 0 {
                Some(runtime_token->0@)
            } else {
                match compiled_token {
                    Some(text) => Some(text@),
                    None => None,
                }
            },
    {
        let url = match url {
            Some(url) => url,
            None => DEFAULT_PRICES_URL.to_owned(),
        };
        PricesClient { url, token: resolve_token_from(runtime_token, compiled_token) }
    }

    /// Whether there is a token. Without one, no request can succeed.
    pub fn has_token(&self) -> (has: bool)
        ensures
            has == self.token is Some,
    {
        self.token.is_some()
    }

    /// The value of the authorization header.
    pub fn authorization(&self) -> (header: Result<String, PricesFetchError>)
        ensures
            match self.token {
                Some(token) => header matches Ok(text) && text@ == "Bearer "@ + token@,
                None => header == Err::<String, PricesFetchError>(PricesFetchError::MissingToken),
            },
    {
        match &self.token {
            Some(token) => {
                let mut text = String::new();
                text.append("Bearer ");
                text.append(token.as_str());
                proof {
                    assert(text@ =~= "Bearer "@ + token@);
                }
                Ok(text)
            },
            None => Err(PricesFetchError::MissingToken),
        }
    }
}

/// The last place at or before `at` that does not cut a character.
pub open spec fn boundary_before(bytes: Seq<u8>, at: int) -> int
    decreases at,
{
    if at <= 0 || is_char_boundary(bytes, at) {
        at
    } else {
        boundary_before(bytes, at - 1)
    }
}

/// The bytes that are kept of a text cut at `max` bytes: none of a character
/// that would not fit whole.
pub open spec fn truncated(bytes: Seq<u8>, max: int) -> Seq<u8> {
    if bytes.len() <= max {
        bytes
    } else {
        bytes.subrange(0, boundary_before(bytes, max))
    }
}

/// `s` cut down to `max_bytes`, between characters.
pub fn truncate_for_log(s: &str, max_bytes: usize) -> (out: String)
    ensures
        encode_utf8(out@) == truncated(encode_utf8(s@), max_bytes as int),
{
    if s.as_bytes().len() <= max_bytes {
        return s.to_owned();
    }
    proof {
        encode_utf8_valid_utf8(s@);
        is_char_boundary_start_end_of_seq(encode_utf8(s@));
    }
    let mut end: usize = max_bytes;
    while end > 0 && !s.is_char_boundary(end)
        invariant
            end <= max_bytes < encode_utf8(s@).len(),
            boundary_before(encode_utf8(s@), end as int) == boundary_before(
                encode_utf8(s@),
                max_bytes as int,
            ),
        decreases end,
    {
        end -= 1;
    }
    slice(s, 0, end).to_owned()
}

proof fn boundary_before_shape(bytes: Seq<u8>, at: int)
    requires
        valid_utf8(bytes),
        0 <= at <= bytes.len(),
    ensures
        0 <= boundary_before(bytes, at) <= at,
        is_char_boundary(bytes, boundary_before(bytes, at)),
        forall|k: int|
            boundary_before(bytes, at) < k <= at ==> !#[trigger] is_char_boundary(bytes, k),
    decreases at,
{
    is_char_boundary_start_end_of_seq(bytes);
    if at > 0 && !is_char_boundary(bytes, at) {
        boundary_before_shape(bytes, at - 1);
    }
}

/// Cutting a text gives a beginning of it that is no longer than asked, and no
/// longer beginning would do.
pub proof fn truncation_is_tight(text: Seq<char>, max: nat)
    ensures
        truncated(encode_utf8(text), max as int).len() <= max,
        truncated(encode_utf8(text), max as int).is_prefix_of(encode_utf8(text)),
        valid_utf8(truncated(encode_utf8(text), max as int)),
        forall|k: int|
            truncated(encode_utf8(text), max as int).len() < k <= max && k <= encode_utf8(text).len()
                ==> !#[trigger] is_char_boundary(encode_utf8(text), k),
{
    let bytes = encode_utf8(text);
    encode_utf8_valid_utf8(text);
    if bytes.len() > max {
        boundary_before_shape(bytes, max as int);
        valid_utf8_split(bytes, boundary_before(bytes, max as int));
    }
}

/// What the service replied, and what is made of it: the text to parse, or why
/// there are no prices. `body` is the text of the reply, or why it could not be
/// read.
pub fn read_reply(status: u16, body: Result<String, String>) -> (result: Result<
    String,
    PricesFetchError,
>)
    ensures
        match result {
            Ok(text) => 200 <= status <= 299 && body == Ok::<String, String>(text),
            Err(PricesFetchError::Network(reason)) => 200 <= status <= 299 && body == Err::<
                String,
                String,
            >(reason),
            Err(PricesFetchError::Http { status: code, body: kept }) => {
                &&& !(200 <= status <= 299)
                &&& code == status
                &&& encode_utf8(kept@) == truncated(
                    encode_utf8(
                        match body {
                            Ok(text) => text@,
                            Err(reason) => "(failed to read error body: "@ + reason@ + ")"@,
                        },
                    ),
                    MAX_ERROR_BODY_BYTES as int,
                )
            },
            Err(_) => false,
        },
{
    if status < 200 || status > 299 {
        let text = match body {
            Ok(text) => text,
            Err(reason) => {
                let mut text = String::new();
                text.append("(failed to read error body: ");
                text.append(reason.as_str());
                text.append(")");
                proof {
                    assert(text@ =~= "(failed to read error body: "@ + reason@ + ")"@);
                }
                text
            },
        };
        return Err(
            PricesFetchError::Http {
                status,
                body: truncate_for_log(text.as_str(), MAX_ERROR_BODY_BYTES),
            },
        );
    }
    match body {
        Ok(text) => Ok(text),
        Err(reason) => Err(PricesFetchError::Network(reason)),
    }
}

/// The prices of a parsed reply, if it has the version that is understood.
/// `parsed` is the version and the prices, or why the text did not parse.
pub fn accept_prices<T>(parsed: Result<(u32, Vec<T>), String>) -> (result: Result<
    Vec<T>,
    PricesFetchError,
>)
    ensures
        match parsed {
            Ok((version, prices)) => if version == SUPPORTED_SCHEMA_VERSION {
                result == Ok::<Vec<T>, PricesFetchError>(prices)
            } else {
                result == Err::<Vec<T>, PricesFetchError>(
                    PricesFetchError::SchemaMismatch { got: version },
                )
            },
            Err(reason) => result == Err::<Vec<T>, PricesFetchError>(
                PricesFetchError::Parse(reason),
            ),
        },
{
    match parsed {
        Ok((version, prices)) => {
            if version != SUPPORTED_SCHEMA_VERSION {
                return Err(PricesFetchError::SchemaMismatch { got: version });
            }
            Ok(prices)
        },
        Err(reason) => Err(PricesFetchError::Parse(reason)),
    }
}

/// A text that fits is not cut.
pub proof fn short_texts_are_not_cut(text: Seq<char>, max: nat)
    requires
        encode_utf8(text).len() <= max,
    ensures
        truncated(encode_utf8(text), max as int) == encode_utf8(text),
{
}

/// A reply is parsed exactly if its status says that it went well and its body
/// could be read; any other status is reported with it.
pub proof fn only_good_replies_are_parsed(
    status: u16,
    body: Result<String, String>,
    result: Result<String, PricesFetchError>,
)
    requires
        read_reply.ensures((status, body), result),
    ensures
        200 <= status < 300 && body is Ok ==> result is Ok && result->Ok_0 == body->Ok_0,
        200 <= status < 300 && body is Err ==> result == Err::<String, PricesFetchError>(
            PricesFetchError::Network(body->Err_0),
        ),
        status < 200 || status >= 300 ==> (result matches Err(
            PricesFetchError::Http { status: code, .. },
        ) && code == status),
{
}

/// Prices count only if the reply has version 1.
pub proof fn only_the_known_version_counts<T>(
    version: u32,
    prices: Vec<T>,
    result: Result<Vec<T>, PricesFetchError>,
)
    requires
        accept_prices::<T>.ensures((Ok((version, prices)),), result),
    ensures
        version == 1 ==> result == Ok::<Vec<T>, PricesFetchError>(prices),
        version != 1 ==> result == Err::<Vec<T>, PricesFetchError>(
            PricesFetchError::SchemaMismatch { got: version },
        ),
{
}

/// The token of the running app goes before the one that it was built with,
/// unless it is empty.
pub proof fn the_running_token_goes_first(
    runtime: Option<String>,
    compiled: Option<&str>,
    token: Option<String>,
)
    requires
        resolve_token_from.ensures((runtime, compiled), token),
    ensures
        runtime matches Some(text) && text@.len() > 0 ==> option_view(token) == Some(runtime->0@),
        !(runtime matches Some(text) && text@.len() > 0) ==> (token is Some <==> compiled is Some),
        !(runtime matches Some(text) && text@.len() > 0) && compiled is Some ==> option_view(token)
            == Some(compiled->0@),
{
}

/// A request carries the token, and without one none is made.
pub proof fn requests_carry_the_token(
    client: PricesClient,
    header: Result<String, PricesFetchError>,
)
    requires
        PricesClient::authorization.ensures((&client,), header),
    ensures
        header is Ok <==> client.token is Some,
        header matches Ok(text) ==> text@ == seq!['B', 'e', 'a', 'r', 'e', 'r', ' ']
            + client.token->0@,
{
    reveal_strlit("Bearer ");
    assert("Bearer "@ =~= seq!['B', 'e', 'a', 'r', 'e', 'r', ' ']);
}

/// What is logged names the error and gives what is known of it.
pub proof fn price_errors_give_the_reason(text: String, status: u16, got: u32)
    ensures
        PricesFetchError::Network(text).message() == "network: "@ + text@,
        PricesFetchError::Parse(text).message() == "parse: "@ + text@,
        (PricesFetchError::Http { status, body: text }).message() == "http "@ + decimal_digits(
            status as nat,
        ) + ": "@ + text@,
        (PricesFetchError::SchemaMismatch { got }).message() == "schema mismatch: got "@
            + decimal_digits(got as nat) + ", expected "@ + decimal_digits(1),
{
}

} // verus!
