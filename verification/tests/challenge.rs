use minibox::challenge::{build_challenge_url, parse_challenge};
use minibox::PullError;

#[test]
fn challenge_parses_realm_and_params() {
    let h = "Bearer realm=\"https://auth.docker.io/token\",service=\"registry.docker.io\",scope=\"repository:library/ubuntu:pull\"";
    let c = parse_challenge(h).unwrap();
    assert_eq!(c.realm, "https://auth.docker.io/token");
    assert_eq!(c.params.len(), 2);
    assert_eq!(c.params[0].0, "service");
    assert_eq!(c.params[0].1, "registry.docker.io");
    assert_eq!(c.params[1].0, "scope");
    assert_eq!(c.params[1].1, "repository:library/ubuntu:pull");
}

#[test]
fn challenge_url_form_encodes_the_query() {
    let h = "Bearer realm=\"https://auth.docker.io/token\",service=\"registry.docker.io\",scope=\"repository:library/ubuntu:pull\"";
    let u = build_challenge_url(h).unwrap();
    assert_eq!(
        u,
        "https://auth.docker.io/token?service=registry.docker.io&scope=repository%3Alibrary%2Fubuntu%3Apull"
    );
}

#[test]
fn challenge_url_without_params_is_the_realm() {
    let u = build_challenge_url("Bearer realm=\"https://auth.example/token\"").unwrap();
    assert_eq!(u, "https://auth.example/token");
}

#[test]
fn challenge_url_appends_to_an_existing_query() {
    let u = build_challenge_url("Bearer realm=\"https://auth.example/token?a=1\",service=\"s\"")
        .unwrap();
    assert_eq!(u, "https://auth.example/token?a=1&service=s");
}

#[test]
fn repeated_realm_keeps_the_last_value() {
    let c = parse_challenge("Bearer realm=\"first\",realm=\"second\"").unwrap();
    assert_eq!(c.realm, "second");
    assert_eq!(c.params.len(), 0);
}

#[test]
fn malformed_challenges_are_refused() {
    assert_eq!(parse_challenge("Bearer"), Err(PullError::AuthChallenge));
    assert_eq!(
        parse_challenge("Bearer service=\"s\""),
        Err(PullError::AuthChallenge)
    );
    assert_eq!(
        parse_challenge("Bearer realm=unquoted"),
        Err(PullError::AuthChallenge)
    );
    assert_eq!(
        parse_challenge("Bearer realm"),
        Err(PullError::AuthChallenge)
    );
}
