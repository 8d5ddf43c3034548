//! The HTTP surface of the gateway, as plain values: which requests are
//! routed, what a preflight request is answered with, and which headers
//! let a browser page talk to the gateway. The server that serves them is
//! the caller's.

use vstd::prelude::*;
use vstd::utf8::*;
use crate::armor::lemma_ascii_is_utf8;
use crate::canonical::string_from_utf8;
use crate::decimal::{decimal_digits, lemma_decimal_digits_ascii, push_decimal_digits};

verus! {

/// The request methods that are routed.
#[derive(Clone, Copy, Debug, PartialEq, Eq, Structural)]
pub enum Method {
    Get,
    Post,
    Options,
}

/// A routed request: its method and its path.
#[derive(Clone, Copy, Debug)]
pub struct Route {
    pub method: Method,
    pub path: &'static str,
}

/// A response header.
#[derive(Clone, Copy, Debug)]
pub struct Header {
    pub name: &'static str,
    pub value: &'static str,
}

/// The headers that allow requests from the page that the gateway serves.
#[derive(Clone, Copy, Debug)]
pub struct CORS;

impl CORS {
    /// The headers that go on every response.
    pub fn headers(&self) -> (headers: Vec<Header>)
        ensures
            headers@.len() == 4,
            headers@[0].name@ == "Access-Control-Allow-Origin"@,
            headers@[0].value@ == "http://localhost:1313"@,
            headers@[1].name@ == "Access-Control-Allow-Methods"@,
            headers@[1].value@ == "POST, GET, PATCH, OPTIONS"@,
            headers@[2].name@ == "Access-Control-Allow-Headers"@,
            headers@[2].value@ == "*"@,
            headers@[3].name@ == "Access-Control-Allow-Credentials"@,
            headers@[3].value@ == "true"@,
    {
        let mut headers: Vec<Header> = Vec::new();
        headers.push(
            Header { name: "Access-Control-Allow-Origin", value: "http://localhost:1313" },
        );
        headers.push(
            Header { name: "Access-Control-Allow-Methods", value: "POST, GET, PATCH, OPTIONS" },
        );
        headers.push(Header { name: "Access-Control-Allow-Headers", value: "*" });
        headers.push(Header { name: "Access-Control-Allow-Credentials", value: "true" });
        headers
    }
}

/// The clock that says how long a request took.
#[derive(Clone, Copy, Debug)]
pub struct RequestTimer;

/// What is reported of a request: where it went and how long it took.
pub open spec fn request_report(uri: Seq<char>, millis: nat) -> Seq<u8> {
    encode_utf8("Request to "@) + encode_utf8(uri) + encode_utf8(" took "@) + decimal_digits(millis)
        + encode_utf8("ms"@)
}

impl RequestTimer {
    /// The milliseconds between the arrival of a request and its answer,
    /// both read off one clock that does not run backwards.
    pub fn elapsed_millis(&self, arrived: u64, answered: u64) -> (millis: u64)
        ensures
            millis == if answered >= arrived {
                answered - arrived
            } else {
                0
            },
    {
        if answered >= arrived {
            answered - arrived
        } else {
            0
        }
    }

    /// The line that reports a request.
    pub fn report(&self, uri: &str, millis: u64) -> (line: String)
        ensures
            encode_utf8(line@) == request_report(uri@, millis as nat),
    {
        let mut bytes: Vec<u8> = vstd::slice::slice_to_vec("Request to ".as_bytes());
        let mut target = vstd::slice::slice_to_vec(uri.as_bytes());
        let mut took = vstd::slice::slice_to_vec(" took ".as_bytes());
        let mut unit = vstd::slice::slice_to_vec("ms".as_bytes());
        bytes.append(&mut target);
        bytes.append(&mut took);
        let ghost front = bytes@;
        push_decimal_digits(&mut bytes, millis);
        let ghost number = bytes@;
        bytes.append(&mut unit);
        proof {
            let digits = decimal_digits(millis as nat);
            assert(bytes@ =~= request_report(uri@, millis as nat));
            encode_utf8_valid_utf8("Request to "@);
            encode_utf8_valid_utf8(uri@);
            encode_utf8_valid_utf8(" took "@);
            encode_utf8_valid_utf8("ms"@);
            lemma_decimal_digits_ascii(millis as nat);
            lemma_ascii_is_utf8(digits);
            valid_utf8_concat(encode_utf8("Request to "@), encode_utf8(uri@));
            valid_utf8_concat(encode_utf8("Request to "@) + encode_utf8(uri@), encode_utf8(" took "@));
            valid_utf8_concat(front, digits);
            valid_utf8_concat(number, encode_utf8("ms"@));
            decode_utf8_encode_utf8(bytes@);
        }
        match string_from_utf8(bytes) {
            Some(line) => line,
            None => String::new(),
        }
    }
}

/// What a request for `/` is answered with.
pub fn index() -> (greeting: &'static str)
    ensures
        greeting@ == "Hello, world!"@,
{
    "Hello, world!"
}

/// What a request for `/message` is answered with.
pub fn get_message() -> (content: &'static str)
    ensures
        content@
            == "Welcome to the Freenet API! This message confirms that the API is functioning correctly."@,
{
    "Welcome to the Freenet API! This message confirms that the API is functioning correctly."
}

/// The status that answers a preflight request for a signature: 200.
pub fn options_sign_certificate() -> (status: u16)
    ensures
        status == 200,
{
    200
}

/// The requests that the gateway routes.
pub fn routes() -> (routes: Vec<Route>)
    ensures
        routes@.len() == 5,
        routes@[0].method == Method::Get && routes@[0].path@ == "/"@,
        routes@[1].method == Method::Get && routes@[1].path@ == "/message"@,
        routes@[2].method == Method::Post && routes@[2].path@ == "/sign-certificate"@,
        routes@[3].method == Method::Options && routes@[3].path@ == "/sign-certificate"@,
        routes@[4].method == Method::Post && routes@[4].path@ == "/create-donation"@,
{
    let mut routes: Vec<Route> = Vec::new();
    routes.push(Route { method: Method::Get, path: "/" });
    routes.push(Route { method: Method::Get, path: "/message" });
    routes.push(Route { method: Method::Post, path: "/sign-certificate" });
    routes.push(Route { method: Method::Options, path: "/sign-certificate" });
    routes.push(Route { method: Method::Post, path: "/create-donation" });
    routes
}

} // verus!
