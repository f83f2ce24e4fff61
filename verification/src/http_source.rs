//! Value-level pieces of the HTTP sources: the accepted methods, default
//! paths, and basic-authentication checking.

use vstd::prelude::*;

use vstd::string::StringSliceAdditionalSpecFns;

use crate::text::str_eq;

verus! {

/// The HTTP methods a simple HTTP source can listen for.
#[derive(Clone, Copy, PartialEq, Eq, Structural, Debug)]
pub enum HttpMethod {
    Head,
    Get,
    Post,
    Put,
    Patch,
    Delete,
}

impl Default for HttpMethod {
    /// Events are posted by default.
    fn default() -> (r: HttpMethod)
        ensures
            r is Post,
    {
        HttpMethod::Post
    }
}

/// The default URL path a simple HTTP source accepts.
pub fn default_path() -> (r: String)
    ensures
        r@ == "/"@,
{
    String::from_str("/")
}

/// The default event key the request path is recorded under.
pub fn default_path_key() -> (r: String)
    ensures
        r@ == "path"@,
{
    String::from_str("path")
}

/// An HTTP error to answer a request with: a status code and a message.
#[derive(Clone, PartialEq, Eq, Debug)]
pub struct ErrorMessage {
    pub code: u16,
    pub message: String,
}

impl ErrorMessage {
    pub fn new(code: u16, message: String) -> (r: ErrorMessage)
        ensures
            r.code == code,
            r.message == message,
    {
        ErrorMessage { code, message }
    }
}

/// Basic-authentication configuration of an HTTP source.
#[derive(Clone, Debug)]
pub struct HttpSourceAuthConfig {
    pub username: String,
    pub password: String,
}

/// The compiled authentication check: the exact authorization header
/// value requests must carry, where authentication is configured.
#[derive(Clone, Debug)]
pub struct HttpSourceAuth {
    pub token: Option<String>,
}

impl HttpSourceAuth {
    /// The check derived from an optional configuration, given the
    /// encoded authorization header value for the configured credentials.
    pub fn from_token(token: Option<String>) -> (r: HttpSourceAuth)
        ensures
            r.token == token,
    {
        HttpSourceAuth { token }
    }

    /// Whether a request carrying the given authorization header may
    /// pass: with no authentication configured everything passes; with
    /// one configured, exactly the matching header passes, a missing or
    /// different one is answered with status 401.
    pub fn is_valid(&self, header: &Option<String>) -> (r: Result<(), ErrorMessage>)
        ensures
            match (&self.token, header) {
                (Some(expected), Some(given)) => (r is Ok <==> expected@ == given@) && (r matches
                    Err(e) ==> e.code == 401),
                (Some(_), None) => r matches Err(e) && e.code == 401,
                (None, _) => r is Ok,
            },
    {
        match (&self.token, header) {
            (Some(token1), Some(token2)) => {
                if str_eq(token1.as_str(), token2.as_str()) {
                    Ok(())
                } else {
                    Err(
                        ErrorMessage {
                            code: 401,
                            message: String::from_str("Invalid username/password"),
                        },
                    )
                }
            },
            (Some(_), None) => Err(
                ErrorMessage { code: 401, message: String::from_str("No authorization header") },
            ),
            (None, _) => Ok(()),
        }
    }
}

/// The query parameter a datadog agent hands its API key in.
#[derive(Clone, PartialEq, Eq, Debug)]
pub struct ApiKeyQueryParams {
    pub dd_api_key: Option<String>,
}

/// An ASCII letter or digit, the only characters an agent URL key may hold.
pub open spec fn spec_alnum(c: char) -> bool {
    ('0' <= c && c <= '9') || ('a' <= c && c <= 'z') || ('A' <= c && c <= 'Z')
}

/// The key captured from an agent URL of the shape `/v1/input/<key>`: the 32
/// alphanumeric characters right after the prefix, where the path carries them.
pub open spec fn spec_api_key_capture(path: Seq<char>) -> Option<Seq<char>> {
    if path.len() >= 42 && path.take(10) == "/v1/input/"@ && (forall|i: int|
        10 <= i < 42 ==> spec_alnum(#[trigger] path[i])) {
        Some(path.subrange(10, 42))
    } else {
        None
    }
}

/// The URL capture of [`spec_api_key_capture`]: `/v1/input/` followed by 32
/// alphanumeric characters.
fn capture_url_key(path: &str) -> (r: Option<String>)
    ensures
        match spec_api_key_capture(path@) {
            Some(k) => (match r {
                Some(s) => s@ == k,
                None => false,
            }),
            None => r is None,
        },
{
    let n = path.unicode_len();
    if n < 42 {
        return None;
    }
    let prefix = path.substring_char(0, 10);
    proof {
        assert(path@.take(10) == path@.subrange(0, 10));
    }
    if !str_eq(prefix, "/v1/input/") {
        return None;
    }
    let mut i: usize = 10;
    while i < 42
        invariant
            10 <= i <= 42,
            path@.len() >= 42,
            path@.take(10) == "/v1/input/"@,
            forall|j: int| 10 <= j < i ==> spec_alnum(#[trigger] path@[j]),
        decreases 42 - i,
    {
        let c = path.get_char(i);
        let ok = ('0' <= c && c <= '9') || ('a' <= c && c <= 'z') || ('A' <= c && c <= 'Z');
        if !ok {
            return None;
        }
        i = i + 1;
    }
    let key = path.substring_char(10, 42);
    Some(key.to_owned())
}

/// The base64 alphabet: the character that stands for a six-bit value.
pub open spec fn spec_b64_char(v: int) -> char {
    if v == 0 { 'A' } else
    if v == 1 { 'B' } else
    if v == 2 { 'C' } else
    if v == 3 { 'D' } else
    if v == 4 { 'E' } else
    if v == 5 { 'F' } else
    if v == 6 { 'G' } else
    if v == 7 { 'H' } else
    if v == 8 { 'I' } else
    if v == 9 { 'J' } else
    if v == 10 { 'K' } else
    if v == 11 { 'L' } else
    if v == 12 { 'M' } else
    if v == 13 { 'N' } else
    if v == 14 { 'O' } else
    if v == 15 { 'P' } else
    if v == 16 { 'Q' } else
    if v == 17 { 'R' } else
    if v == 18 { 'S' } else
    if v == 19 { 'T' } else
    if v == 20 { 'U' } else
    if v == 21 { 'V' } else
    if v == 22 { 'W' } else
    if v == 23 { 'X' } else
    if v == 24 { 'Y' } else
    if v == 25 { 'Z' } else
    if v == 26 { 'a' } else
    if v == 27 { 'b' } else
    if v == 28 { 'c' } else
    if v == 29 { 'd' } else
    if v == 30 { 'e' } else
    if v == 31 { 'f' } else
    if v == 32 { 'g' } else
    if v == 33 { 'h' } else
    if v == 34 { 'i' } else
    if v == 35 { 'j' } else
    if v == 36 { 'k' } else
    if v == 37 { 'l' } else
    if v == 38 { 'm' } else
    if v == 39 { 'n' } else
    if v == 40 { 'o' } else
    if v == 41 { 'p' } else
    if v == 42 { 'q' } else
    if v == 43 { 'r' } else
    if v == 44 { 's' } else
    if v == 45 { 't' } else
    if v == 46 { 'u' } else
    if v == 47 { 'v' } else
    if v == 48 { 'w' } else
    if v == 49 { 'x' } else
    if v == 50 { 'y' } else
    if v == 51 { 'z' } else
    if v == 52 { '0' } else
    if v == 53 { '1' } else
    if v == 54 { '2' } else
    if v == 55 { '3' } else
    if v == 56 { '4' } else
    if v == 57 { '5' } else
    if v == 58 { '6' } else
    if v == 59 { '7' } else
    if v == 60 { '8' } else
    if v == 61 { '9' } else
    if v == 62 { '+' } else
    { '/' }
}

/// The one-character string for a six-bit value.
fn b64_char_str(v: u8) -> (r: &'static str)
    requires
        v < 64,
    ensures
        r@ =~= seq![spec_b64_char(v as int)],
{
    match v {
        0u8 => {
            proof { reveal_strlit("A"); }
            "A"
        },
        1u8 => {
            proof { reveal_strlit("B"); }
            "B"
        },
        2u8 => {
            proof { reveal_strlit("C"); }
            "C"
        },
        3u8 => {
            proof { reveal_strlit("D"); }
            "D"
        },
        4u8 => {
            proof { reveal_strlit("E"); }
            "E"
        },
        5u8 => {
            proof { reveal_strlit("F"); }
            "F"
        },
        6u8 => {
            proof { reveal_strlit("G"); }
            "G"
        },
        7u8 => {
            proof { reveal_strlit("H"); }
            "H"
        },
        8u8 => {
            proof { reveal_strlit("I"); }
            "I"
        },
        9u8 => {
            proof { reveal_strlit("J"); }
            "J"
        },
        10u8 => {
            proof { reveal_strlit("K"); }
            "K"
        },
        11u8 => {
            proof { reveal_strlit("L"); }
            "L"
        },
        12u8 => {
            proof { reveal_strlit("M"); }
            "M"
        },
        13u8 => {
            proof { reveal_strlit("N"); }
            "N"
        },
        14u8 => {
            proof { reveal_strlit("O"); }
            "O"
        },
        15u8 => {
            proof { reveal_strlit("P"); }
            "P"
        },
        16u8 => {
            proof { reveal_strlit("Q"); }
            "Q"
        },
        17u8 => {
            proof { reveal_strlit("R"); }
            "R"
        },
        18u8 => {
            proof { reveal_strlit("S"); }
            "S"
        },
        19u8 => {
            proof { reveal_strlit("T"); }
            "T"
        },
        20u8 => {
            proof { reveal_strlit("U"); }
            "U"
        },
        21u8 => {
            proof { reveal_strlit("V"); }
            "V"
        },
        22u8 => {
            proof { reveal_strlit("W"); }
            "W"
        },
        23u8 => {
            proof { reveal_strlit("X"); }
            "X"
        },
        24u8 => {
            proof { reveal_strlit("Y"); }
            "Y"
        },
        25u8 => {
            proof { reveal_strlit("Z"); }
            "Z"
        },
        26u8 => {
            proof { reveal_strlit("a"); }
            "a"
        },
        27u8 => {
            proof { reveal_strlit("b"); }
            "b"
        },
        28u8 => {
            proof { reveal_strlit("c"); }
            "c"
        },
        29u8 => {
            proof { reveal_strlit("d"); }
            "d"
        },
        30u8 => {
            proof { reveal_strlit("e"); }
            "e"
        },
        31u8 => {
            proof { reveal_strlit("f"); }
            "f"
        },
        32u8 => {
            proof { reveal_strlit("g"); }
            "g"
        },
        33u8 => {
            proof { reveal_strlit("h"); }
            "h"
        },
        34u8 => {
            proof { reveal_strlit("i"); }
            "i"
        },
        35u8 => {
            proof { reveal_strlit("j"); }
            "j"
        },
        36u8 => {
            proof { reveal_strlit("k"); }
            "k"
        },
        37u8 => {
            proof { reveal_strlit("l"); }
            "l"
        },
        38u8 => {
            proof { reveal_strlit("m"); }
            "m"
        },
        39u8 => {
            proof { reveal_strlit("n"); }
            "n"
        },
        40u8 => {
            proof { reveal_strlit("o"); }
            "o"
        },
        41u8 => {
            proof { reveal_strlit("p"); }
            "p"
        },
        42u8 => {
            proof { reveal_strlit("q"); }
            "q"
        },
        43u8 => {
            proof { reveal_strlit("r"); }
            "r"
        },
        44u8 => {
            proof { reveal_strlit("s"); }
            "s"
        },
        45u8 => {
            proof { reveal_strlit("t"); }
            "t"
        },
        46u8 => {
            proof { reveal_strlit("u"); }
            "u"
        },
        47u8 => {
            proof { reveal_strlit("v"); }
            "v"
        },
        48u8 => {
            proof { reveal_strlit("w"); }
            "w"
        },
        49u8 => {
            proof { reveal_strlit("x"); }
            "x"
        },
        50u8 => {
            proof { reveal_strlit("y"); }
            "y"
        },
        51u8 => {
            proof { reveal_strlit("z"); }
            "z"
        },
        52u8 => {
            proof { reveal_strlit("0"); }
            "0"
        },
        53u8 => {
            proof { reveal_strlit("1"); }
            "1"
        },
        54u8 => {
            proof { reveal_strlit("2"); }
            "2"
        },
        55u8 => {
            proof { reveal_strlit("3"); }
            "3"
        },
        56u8 => {
            proof { reveal_strlit("4"); }
            "4"
        },
        57u8 => {
            proof { reveal_strlit("5"); }
            "5"
        },
        58u8 => {
            proof { reveal_strlit("6"); }
            "6"
        },
        59u8 => {
            proof { reveal_strlit("7"); }
            "7"
        },
        60u8 => {
            proof { reveal_strlit("8"); }
            "8"
        },
        61u8 => {
            proof { reveal_strlit("9"); }
            "9"
        },
        62u8 => {
            proof { reveal_strlit("+"); }
            "+"
        },
        63u8 => {
            proof { reveal_strlit("/"); }
            "/"
        },
        _ => {
            proof { assert(false); }
            ""
        },
    }
}

/// The base64 text of a byte string, with `=` padding, as RFC 4648 lays it
/// out: each group of three bytes becomes four alphabet characters; a final
/// group of one or two bytes is padded to four.
pub open spec fn spec_base64(b: Seq<u8>) -> Seq<char>
    decreases b.len(),
{
    if b.len() == 0 {
        Seq::<char>::empty()
    } else if b.len() == 1 {
        let x = b[0] as int;
        seq![spec_b64_char(x / 4), spec_b64_char((x % 4) * 16), '=', '=']
    } else if b.len() == 2 {
        let x = b[0] as int;
        let y = b[1] as int;
        seq![
            spec_b64_char(x / 4),
            spec_b64_char((x % 4) * 16 + y / 16),
            spec_b64_char((y % 16) * 4),
            '=',
        ]
    } else {
        let x = b[0] as int;
        let y = b[1] as int;
        let z = b[2] as int;
        seq![
            spec_b64_char(x / 4),
            spec_b64_char((x % 4) * 16 + y / 16),
            spec_b64_char((y % 16) * 4 + z / 64),
            spec_b64_char(z % 64),
        ] + spec_base64(b.skip(3))
    }
}

/// Encode a byte string as base64 text.
pub fn base64_encode(bytes: &Vec<u8>) -> (r: String)
    ensures
        r@ == spec_base64(bytes@),
{
    let n = bytes.len();
    let mut out = String::new();
    let mut i: usize = 0;
    proof {
        assert(bytes@.skip(0) =~= bytes@);
    }
    while n - i >= 3
        invariant
            i <= n,
            n == bytes@.len(),
            spec_base64(bytes@) =~= out@ + spec_base64(bytes@.skip(i as int)),
        decreases n - i,
    {
        let x = bytes[i];
        let y = bytes[i + 1];
        let z = bytes[i + 2];
        let ghost before = out@;
        out.append(b64_char_str(x / 4));
        out.append(b64_char_str((x % 4) * 16 + y / 16));
        out.append(b64_char_str((y % 16) * 4 + z / 64));
        out.append(b64_char_str(z % 64));
        proof {
            let rest = bytes@.skip(i as int);
            assert(rest[0] == bytes@[i as int]);
            assert(rest[1] == bytes@[i as int + 1]);
            assert(rest[2] == bytes@[i as int + 2]);
            assert(rest.skip(3) =~= bytes@.skip(i as int + 3));
            assert(out@ =~= before + seq![
                spec_b64_char(x as int / 4),
                spec_b64_char((x as int % 4) * 16 + y as int / 16),
                spec_b64_char((y as int % 16) * 4 + z as int / 64),
                spec_b64_char(z as int % 64),
            ]);
        }
        i = i + 3;
    }
    let ghost rest = bytes@.skip(i as int);
    if n - i == 1 {
        let x = bytes[i];
        let ghost before = out@;
        out.append(b64_char_str(x / 4));
        out.append(b64_char_str((x % 4) * 16));
        out.append("=");
        out.append("=");
        proof {
            reveal_strlit("=");
            assert(rest[0] == bytes@[i as int]);
            assert(out@ =~= before + seq![
                spec_b64_char(x as int / 4),
                spec_b64_char((x as int % 4) * 16),
                '=',
                '=',
            ]);
        }
    } else if n - i == 2 {
        let x = bytes[i];
        let y = bytes[i + 1];
        let ghost before = out@;
        out.append(b64_char_str(x / 4));
        out.append(b64_char_str((x % 4) * 16 + y / 16));
        out.append(b64_char_str((y % 16) * 4));
        out.append("=");
        proof {
            reveal_strlit("=");
            assert(rest[0] == bytes@[i as int]);
            assert(rest[1] == bytes@[i as int + 1]);
            assert(out@ =~= before + seq![
                spec_b64_char(x as int / 4),
                spec_b64_char((x as int % 4) * 16 + y as int / 16),
                spec_b64_char((y as int % 16) * 4),
                '=',
            ]);
        }
    } else {
        proof {
            assert(rest.len() == 0);
        }
    }
    out
}

/// The token of an `Authorization` header for HTTP basic authentication:
/// `Basic ` followed by the base64 text of `<username>:<password>`.
pub fn basic_auth_token(username: &str, password: &str) -> (r: String)
    ensures
        r@ == "Basic "@ + spec_base64(
            username.spec_bytes() + seq![58u8] + password.spec_bytes(),
        ),
{
    let mut bytes: Vec<u8> = vstd::slice::slice_to_vec(username.as_bytes());
    bytes.push(58);
    let mut tail: Vec<u8> = vstd::slice::slice_to_vec(password.as_bytes());
    bytes.append(&mut tail);
    proof {
        assert(bytes@ =~= username.spec_bytes() + seq![58u8] + password.spec_bytes());
    }
    let mut out = String::from_str("Basic ");
    let enc = base64_encode(&bytes);
    out.append(enc.as_str());
    out
}

impl HttpSourceAuth {
    /// The authentication state a configuration asks for: no token without a
    /// configuration, else the basic-authentication token of its credentials.
    pub fn from_config(auth: Option<&HttpSourceAuthConfig>) -> (r: HttpSourceAuth)
        ensures
            match auth {
                None => r.token is None,
                Some(c) => (match r.token {
                    Some(t) => t@ == "Basic "@ + spec_base64(
                        vstd::utf8::encode_utf8(c.username@) + seq![58u8]
                            + vstd::utf8::encode_utf8(c.password@),
                    ),
                    None => false,
                }),
            },
    {
        match auth {
            None => HttpSourceAuth { token: None },
            Some(c) => HttpSourceAuth {
                token: Some(basic_auth_token(c.username.as_str(), c.password.as_str())),
            },
        }
    }
}

/// Pulls a datadog agent's API key out of a request, when keys are stored at
/// all: the URL capture wins, then the query parameter, then the header.
pub struct ApiKeyExtractor {
    pub store_api_key: bool,
}

impl ApiKeyExtractor {
    /// The key the request carries: `None` when keys are not stored, else the
    /// URL capture first, the query parameter next, the header last.
    pub fn extract(&self, path: &str, header: Option<String>, query_params: Option<String>) -> (r:
        Option<String>)
        ensures
            !self.store_api_key ==> r is None,
            self.store_api_key ==> (match spec_api_key_capture(path@) {
                Some(k) => (match r {
                    Some(s) => s@ == k,
                    None => false,
                }),
                None => (match query_params {
                    Some(q) => (match r {
                        Some(s) => s@ == q@,
                        None => false,
                    }),
                    None => r == header,
                }),
            }),
    {
        if !self.store_api_key {
            return None;
        }
        if let Some(key) = capture_url_key(path) {
            return Some(key);
        }
        if let Some(q) = query_params {
            return Some(q);
        }
        header
    }
}

} // verus!
