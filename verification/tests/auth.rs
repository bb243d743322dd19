use pakstak::auth::{
    auth_header_from_unauthorized, bearer_challenge_from, challenge_from_unauthorized,
    parse_bearer_challenge, select_token, token_query, AuthChallenge, AuthError, ParsedChallenge,
};

#[test]
fn parses_bearer_challenge() {
    let challenge = parse_bearer_challenge(
        "Bearer realm=\"https://auth.example.test/token\",service=\"registry.example.test\",scope=\"repository:namespace/app:pull,push\"",
    )
    .unwrap();

    assert_eq!(challenge.realm, "https://auth.example.test/token");
    assert_eq!(challenge.service.as_deref(), Some("registry.example.test"));
    assert_eq!(
        challenge.scopes,
        vec!["repository:namespace/app:pull,push".to_string()]
    );
}

#[test]
fn bearer_scheme_is_matched_ignoring_case() {
    let challenge =
        parse_bearer_challenge("Basic realm=\"x\", bEaReR realm=\"https://r\", scope=\"a\", scope=\"b\"")
            .unwrap();
    assert_eq!(challenge.realm, "https://r");
    assert_eq!(challenge.service, None);
    assert_eq!(challenge.scopes, vec!["a".to_string(), "b".to_string()]);
}

#[test]
fn unescapes_quoted_values() {
    let challenge = parse_bearer_challenge("Bearer realm=\"a\\\"b\"").unwrap();
    assert_eq!(challenge.realm, "a\"b");
}

#[test]
fn rejects_header_without_bearer() {
    assert!(matches!(
        parse_bearer_challenge("Basic realm=\"x\""),
        Err(AuthError::UnsupportedChallenge { .. })
    ));
}

#[test]
fn rejects_unparsable_header() {
    assert!(matches!(
        parse_bearer_challenge("Bearer realm=\"x\", error error"),
        Err(AuthError::InvalidChallenge { .. })
    ));
}

#[test]
fn rejects_bearer_without_realm() {
    assert!(matches!(
        parse_bearer_challenge("Bearer service=\"x\""),
        Err(AuthError::MissingRealm)
    ));
}

#[test]
fn later_realm_wins() {
    let parsed = Ok(vec![ParsedChallenge {
        scheme: "Bearer".to_owned(),
        params: vec![
            ("realm".to_owned(), "one".to_owned()),
            ("other".to_owned(), "ignored".to_owned()),
            ("realm".to_owned(), "two".to_owned()),
        ],
    }]);
    let challenge = bearer_challenge_from("h", parsed).unwrap();
    assert_eq!(challenge.realm, "two");
}

#[test]
fn empty_realm_is_refused_after_401() {
    assert!(matches!(
        challenge_from_unauthorized(Some("Bearer realm=\"\""), None),
        Err(AuthError::EmptyRealm)
    ));
    assert!(matches!(
        challenge_from_unauthorized(None, None),
        Err(AuthError::MissingAuthenticateHeader)
    ));
    let challenge = challenge_from_unauthorized(None, Some("Bearer realm=\"https://r\"")).unwrap();
    assert_eq!(challenge.realm, "https://r");
}

#[test]
fn header_lookup_prefers_first_name() {
    assert_eq!(auth_header_from_unauthorized(Some("a"), Some("b")).unwrap(), "a");
    assert_eq!(auth_header_from_unauthorized(None, Some("b")).unwrap(), "b");
}

#[test]
fn token_query_lists_client_service_and_scopes() {
    let challenge = AuthChallenge {
        realm: "https://auth".to_owned(),
        service: Some("registry".to_owned()),
        scopes: vec!["s1".to_owned(), "s2".to_owned()],
    };
    let pairs = |v: &[(&str, &str)]| -> Vec<(String, String)> {
        v.iter().map(|(k, x)| (k.to_string(), x.to_string())).collect()
    };
    assert_eq!(
        token_query(&challenge),
        pairs(&[("client_id", "pakstak"), ("service", "registry"), ("scope", "s1"), ("scope", "s2")])
    );
    let bare = AuthChallenge { realm: "r".to_owned(), service: None, scopes: vec![] };
    assert_eq!(token_query(&bare), pairs(&[("client_id", "pakstak")]));
}

#[test]
fn token_prefers_token_field() {
    assert_eq!(select_token(Some("a".into()), Some("b".into())).unwrap(), "a");
    assert_eq!(select_token(None, Some("b".into())).unwrap(), "b");
    assert!(matches!(select_token(None, None), Err(AuthError::MissingToken)));
}
