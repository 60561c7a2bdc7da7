//! The loopback authorization-code flow: the single-use random state token,
//! the authorization URL, the parsing of the one callback request, and the
//! credential encodings for the token exchange.

use vstd::prelude::*;
use vstd::string::*;

use rand::Rng;

use crate::percent::{pct_decode, percent_decode, url_encode, urlenc_of};
use crate::scan::{find_byte, find_byte_from, lemma_find_byte_from, param_value, second_token,
    spec_param_value, spec_second_token};

verus! {

/// An ASCII letter or digit.
pub open spec fn is_alnum(c: char) -> bool {
    (65 <= c as u32 && c as u32 <= 90) || (97 <= c as u32 && c as u32 <= 122) || (48 <= c as u32
        && c as u32 <= 57)
}

/// Relies on rand's `Alphanumeric` distribution: every sampled byte is an
/// ASCII letter or digit, so the collected string has exactly `len` such
/// characters.
#[verifier::external_body]
fn random_alphanumeric_string(len: usize) -> (r: String)
    ensures
        r@.len() == len as nat,
        forall|i: int| 0 <= i < r@.len() ==> is_alnum(r@[i]),
{
    rand::thread_rng().sample_iter(&rand::distributions::Alphanumeric).take(len).map(
        char::from,
    ).collect()
}

/// The single-use anti-forgery token bound to one authorization round-trip.
/// It is generated before the browser redirect and consumed when checked
/// against the value the redirect echoes back.
pub struct AuthorizationState {
    pub value: String,
}

impl AuthorizationState {
    /// A well-formed state token: at least 16 alphanumeric characters.
    pub open spec fn wf(self) -> bool {
        self.value@.len() >= 16 && forall|i: int| 0 <= i < self.value@.len() ==> is_alnum(
            self.value@[i],
        )
    }

    /// Generates a fresh random state token of 16 alphanumeric characters.
    pub fn generate() -> (r: Self)
        ensures
            r.wf(),
            r.value@.len() == 16,
    {
        AuthorizationState { value: random_alphanumeric_string(16) }
    }

    /// Consumes the state and compares it against the echoed value, so one
    /// generated token can be checked at most once.
    pub fn matches_echo(self, echoed: &String) -> (r: bool)
        ensures
            r == (self.value@ == echoed@),
    {
        self.value == *echoed
    }
}

/// The authorization URL the user's browser is sent to: client id and state
/// stand as given, the redirect URI and the fixed scope list are
/// percent-encoded.
pub fn build_auth_url(client_id: &str, redirect_uri: &str, state: &AuthorizationState) -> (r:
    String)
    ensures
        r@ == "https://accounts.spotify.com/authorize?client_id="@ + client_id@
            + "&response_type=code&redirect_uri="@ + urlenc_of(redirect_uri.spec_bytes())
            + "&scope="@ + urlenc_of(
            "playlist-modify-private playlist-modify-public".spec_bytes(),
        ) + "&state="@ + state.value@,
{
    let mut url = String::from_str("https://accounts.spotify.com/authorize?client_id=");
    url.append(client_id);
    url.append("&response_type=code&redirect_uri=");
    let enc_uri = url_encode(redirect_uri.as_bytes());
    url.append(enc_uri.as_str());
    url.append("&scope=");
    let enc_scope = url_encode("playlist-modify-private playlist-modify-public".as_bytes());
    url.append(enc_scope.as_str());
    url.append("&state=");
    url.append(state.value.as_str());
    proof {
        assert(url@ =~= "https://accounts.spotify.com/authorize?client_id="@ + client_id@
            + "&response_type=code&redirect_uri="@ + urlenc_of(redirect_uri.spec_bytes())
            + "&scope="@ + urlenc_of(
            "playlist-modify-private playlist-modify-public".spec_bytes(),
        ) + "&state="@ + state.value@);
    }
    url
}

/// How the one-shot callback handler can fail.
#[derive(Clone, Copy, Debug, PartialEq, Eq, Structural)]
pub enum AuthFlowError {
    /// The request line has no path token.
    CallbackMalformed,
    /// The `code` value is not decodable percent-encoding.
    CallbackUnparseable,
    /// The redirect carries no `code` parameter.
    MissingAuthorizationCode,
}

/// The bytes of the query key `code`.
pub open spec fn code_key() -> Seq<u8> {
    seq![99u8, 111u8, 100u8, 101u8]
}

/// What the callback handler extracts from the one HTTP request line it ever
/// sees: the decoded `code` query parameter of the redirect target, or the
/// exact failure. The path is the second whitespace-separated token; its
/// query is everything after the first `?`.
pub open spec fn spec_callback(line: Seq<u8>) -> Result<Seq<u8>, AuthFlowError> {
    match spec_second_token(line) {
        None => Err(AuthFlowError::CallbackMalformed),
        Some(path) => {
            let q = find_byte_from(path, 0, 63);
            if q == path.len() {
                Err(AuthFlowError::MissingAuthorizationCode)
            } else {
                let query = path.subrange(q + 1, path.len() as int);
                match spec_param_value(query, code_key()) {
                    None => Err(AuthFlowError::MissingAuthorizationCode),
                    Some(raw) => match pct_decode(raw) {
                        Some(v) => Ok(v),
                        None => Err(AuthFlowError::CallbackUnparseable),
                    },
                }
            }
        },
    }
}

/// Parses the request line of the single loopback callback and extracts the
/// authorization code.
pub fn handle_callback(line: &[u8]) -> (r: Result<Vec<u8>, AuthFlowError>)
    ensures
        spec_callback(line@) == (match r {
            Ok(v) => Ok::<Seq<u8>, AuthFlowError>(v@),
            Err(e) => Err(e),
        }),
{
    let path = match second_token(line) {
        None => {
            return Err(AuthFlowError::CallbackMalformed);
        },
        Some(p) => p,
    };
    proof {
        lemma_find_byte_from(path@, 0, 63);
    }
    let q = find_byte(path.as_slice(), 0, 63);
    if q == path.len() {
        return Err(AuthFlowError::MissingAuthorizationCode);
    }
    let query = vstd::slice::slice_subrange(path.as_slice(), q + 1, path.len());
    let name: Vec<u8> = vec![99u8, 111u8, 100u8, 101u8];
    let raw = match param_value(query, name.as_slice()) {
        None => {
            return Err(AuthFlowError::MissingAuthorizationCode);
        },
        Some(raw) => raw,
    };
    match percent_decode(raw.as_slice()) {
        None => Err(AuthFlowError::CallbackUnparseable),
        Some(v) => Ok(v),
    }
}

/// The form body of the token-exchange POST: the fixed grant type, the
/// authorization code and the redirect URI, the latter two percent-encoded.
pub fn build_token_request(code: &[u8], redirect_uri: &str) -> (r: String)
    ensures
        r@ == "grant_type=authorization_code&code="@ + urlenc_of(code@) + "&redirect_uri="@
            + urlenc_of(redirect_uri.spec_bytes()),
{
    let mut body = String::from_str("grant_type=authorization_code&code=");
    let enc_code = url_encode(code);
    body.append(enc_code.as_str());
    body.append("&redirect_uri=");
    let enc_uri = url_encode(redirect_uri.as_bytes());
    body.append(enc_uri.as_str());
    proof {
        assert(body@ =~= "grant_type=authorization_code&code="@ + urlenc_of(code@)
            + "&redirect_uri="@ + urlenc_of(redirect_uri.spec_bytes()));
    }
    body
}

/// What the standard base64 encoding of a byte sequence is; stated by the
/// trusted wrapper below, used by the contracts that build on it.
pub uninterp spec fn base64_of(bs: Seq<u8>) -> Seq<char>;

/// Relies on base64's `STANDARD` engine `encode`: the result is a function
/// of the input bytes alone.
#[verifier::external_body]
fn base64_encode(bs: &[u8]) -> (r: String)
    ensures
        r@ == base64_of(bs@),
{
    base64::Engine::encode(&base64::engine::general_purpose::STANDARD, bs)
}

/// The `Authorization` header value for HTTP Basic auth: `Basic` and the
/// base64 encoding of `client_id:client_secret`.
pub fn basic_auth_value(client_id: &str, client_secret: &str) -> (r: String)
    ensures
        r@ == "Basic "@ + base64_of(
            client_id.spec_bytes() + seq![58u8] + client_secret.spec_bytes(),
        ),
{
    let mut creds: Vec<u8> = client_id.as_bytes_vec();
    creds.push(58);
    let mut secret_bytes: Vec<u8> = client_secret.as_bytes_vec();
    creds.append(&mut secret_bytes);
    proof {
        assert(creds@ =~= client_id.spec_bytes() + seq![58u8] + client_secret.spec_bytes());
    }
    let mut r = String::from_str("Basic ");
    let encoded = base64_encode(creds.as_slice());
    r.append(encoded.as_str());
    r
}

} // verus!
