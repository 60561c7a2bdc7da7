use music_discovery::auth::{
    basic_auth_value, build_auth_url, build_token_request, handle_callback, AuthFlowError,
    AuthorizationState,
};

#[test]
fn callback_extracts_code() {
    let line = b"GET /callback?code=ABC123&state=XYZ HTTP/1.1".to_vec();
    let r = handle_callback(&line);
    assert_eq!(r, Ok(b"ABC123".to_vec()));
}

#[test]
fn callback_without_code_is_missing_code() {
    let line = b"GET /callback?state=XYZ HTTP/1.1".to_vec();
    let r = handle_callback(&line);
    assert_eq!(r, Err(AuthFlowError::MissingAuthorizationCode));
}

#[test]
fn callback_without_query_is_missing_code() {
    let line = b"GET /callback HTTP/1.1".to_vec();
    let r = handle_callback(&line);
    assert_eq!(r, Err(AuthFlowError::MissingAuthorizationCode));
}

#[test]
fn callback_without_path_is_malformed() {
    assert_eq!(
        handle_callback(&b"GET".to_vec()),
        Err(AuthFlowError::CallbackMalformed)
    );
    assert_eq!(
        handle_callback(&b"".to_vec()),
        Err(AuthFlowError::CallbackMalformed)
    );
    assert_eq!(
        handle_callback(&b"   \r\n".to_vec()),
        Err(AuthFlowError::CallbackMalformed)
    );
}

#[test]
fn callback_with_bad_escape_is_unparseable() {
    let line = b"GET /callback?code=%G1&state=XYZ HTTP/1.1".to_vec();
    assert_eq!(
        handle_callback(&line),
        Err(AuthFlowError::CallbackUnparseable)
    );
    let truncated = b"GET /callback?code=%2 HTTP/1.1".to_vec();
    assert_eq!(
        handle_callback(&truncated),
        Err(AuthFlowError::CallbackUnparseable)
    );
}

#[test]
fn callback_decodes_percent_escapes_and_plus() {
    let line = b"GET /callback?code=A%20B%2Bc+d&state=XYZ HTTP/1.1".to_vec();
    assert_eq!(handle_callback(&line), Ok(b"A B+c d".to_vec()));
}

#[test]
fn callback_takes_first_code_pair() {
    let line = b"GET /callback?state=s&code=first&code=second HTTP/1.1".to_vec();
    assert_eq!(handle_callback(&line), Ok(b"first".to_vec()));
}

#[test]
fn generated_state_is_long_and_alphanumeric() {
    let st = AuthorizationState::generate();
    assert_eq!(st.value.len(), 16);
    assert!(st.value.chars().all(|c| c.is_ascii_alphanumeric()));
}

#[test]
fn two_generated_states_differ() {
    let a = AuthorizationState::generate();
    let b = AuthorizationState::generate();
    assert_ne!(a.value, b.value);
}

#[test]
fn state_check_consumes_and_compares() {
    let st = AuthorizationState {
        value: "STATE1234567890A".to_string(),
    };
    assert!(st.matches_echo(&"STATE1234567890A".to_string()));
    let st2 = AuthorizationState {
        value: "STATE1234567890A".to_string(),
    };
    assert!(!st2.matches_echo(&"other".to_string()));
}

#[test]
fn auth_url_is_exact() {
    let st = AuthorizationState {
        value: "STATE1234567890A".to_string(),
    };
    let url = build_auth_url("cid", "http://localhost:8888/callback", &st);
    assert_eq!(
        url,
        "https://accounts.spotify.com/authorize?client_id=cid\
         &response_type=code\
         &redirect_uri=http%3A%2F%2Flocalhost%3A8888%2Fcallback\
         &scope=playlist-modify-private%20playlist-modify-public\
         &state=STATE1234567890A"
    );
}

#[test]
fn token_request_is_exact() {
    let body = build_token_request(&b"ABC123".to_vec(), "http://localhost:8888/callback");
    assert_eq!(
        body,
        "grant_type=authorization_code&code=ABC123\
         &redirect_uri=http%3A%2F%2Flocalhost%3A8888%2Fcallback"
    );
}

#[test]
fn token_request_encodes_code_bytes() {
    let body = build_token_request(&b"a b/c".to_vec(), "u");
    assert_eq!(body, "grant_type=authorization_code&code=a%20b%2Fc&redirect_uri=u");
}

#[test]
fn basic_auth_is_exact_base64() {
    assert_eq!(basic_auth_value("id", "secret"), "Basic aWQ6c2VjcmV0");
}
