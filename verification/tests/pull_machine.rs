use minibox::pull::{authorization_value, PullAction, PullEvent, PullSession};
use minibox::reference::ImageIdentifier;
use minibox::PullError;

fn img() -> ImageIdentifier {
    ImageIdentifier::from_string(&"library/ubuntu:latest".to_string()).unwrap()
}

const MANIFEST: &str =
    "{\"fsLayers\":[{\"blobSum\":\"A\"},{\"blobSum\":\"B\"},{\"blobSum\":\"C\"}]}";

fn ok_response(body: &str) -> PullEvent {
    PullEvent::Response { status: 200, www_authenticate: None, body: body.to_string() }
}

fn applied_ok() -> PullEvent {
    PullEvent::LayerApplied { tar_exit: Some(0) }
}

fn expect_layer(a: PullAction) -> (String, String, Option<String>) {
    match a {
        PullAction::FetchLayer { url, token, digest, .. } => (url, digest, token),
        _ => panic!("expected a layer fetch"),
    }
}

#[test]
fn success_status_causes_no_token_fetch_and_layers_come_in_order() {
    let (mut s, a0) = PullSession::new(img());
    match a0 {
        PullAction::FetchManifest { url, token, delay_ms } => {
            assert_eq!(url, "https://registry.hub.docker.com/v2/library/ubuntu/manifests/latest");
            assert!(token.is_none());
            assert_eq!(delay_ms, 0);
        },
        _ => panic!("expected a manifest fetch"),
    }
    let (url1, d1, t1) = expect_layer(s.step(ok_response(MANIFEST)));
    assert_eq!(url1, "https://registry.hub.docker.com/v2/library/ubuntu/blobs/A");
    assert_eq!(d1, "A");
    assert!(t1.is_none());
    let (_, d2, _) = expect_layer(s.step(applied_ok()));
    assert_eq!(d2, "B");
    let (_, d3, _) = expect_layer(s.step(applied_ok()));
    assert_eq!(d3, "C");
    match s.step(applied_ok()) {
        PullAction::Done => (),
        _ => panic!("expected the pull to be done"),
    }
}

#[test]
fn unauthorized_manifest_causes_exactly_one_token_fetch_with_bearer_retry() {
    let (mut s, _) = PullSession::new(img());
    let challenge =
        "Bearer realm=\"https://auth.docker.io/token\",service=\"registry.docker.io\"";
    let a1 = s.step(PullEvent::Response {
        status: 401,
        www_authenticate: Some(challenge.to_string()),
        body: "".to_string(),
    });
    match a1 {
        PullAction::FetchToken { url } => {
            assert_eq!(url, "https://auth.docker.io/token?service=registry.docker.io");
        },
        _ => panic!("expected a token fetch"),
    }
    let a2 = s.step(ok_response("{\"token\":\"tok123\"}"));
    match a2 {
        PullAction::FetchManifest { url, token, delay_ms } => {
            assert_eq!(url, "https://registry.hub.docker.com/v2/library/ubuntu/manifests/latest");
            assert_eq!(token.as_deref(), Some("tok123"));
            assert_eq!(delay_ms, 0);
        },
        _ => panic!("expected the retried manifest fetch"),
    }
    let (url, d, t) = expect_layer(s.step(ok_response(MANIFEST)));
    assert_eq!(url, "https://registry.hub.docker.com/v2/library/ubuntu/blobs/A");
    assert_eq!(d, "A");
    assert_eq!(t.as_deref(), Some("tok123"));
}

#[test]
fn bearer_header_value_is_formatted() {
    assert_eq!(authorization_value("tok123"), "Bearer tok123");
}

#[test]
fn missing_challenge_header_fails_the_pull() {
    let (mut s, _) = PullSession::new(img());
    match s.step(PullEvent::Response { status: 401, www_authenticate: None, body: "".to_string() })
    {
        PullAction::Fail { error } => assert_eq!(error, PullError::AuthChallenge),
        _ => panic!("expected a failure"),
    }
}

#[test]
fn bad_manifest_body_is_a_parse_error() {
    let (mut s, _) = PullSession::new(img());
    match s.step(ok_response("{}")) {
        PullAction::Fail { error } => assert_eq!(error, PullError::ManifestParse),
        _ => panic!("expected a failure"),
    }
}

#[test]
fn empty_manifest_finishes_at_once() {
    let (mut s, _) = PullSession::new(img());
    match s.step(ok_response("{\"fsLayers\":[]}")) {
        PullAction::Done => (),
        _ => panic!("expected the pull to be done"),
    }
}

#[test]
fn transient_network_failures_back_off_then_give_up() {
    let (mut s, _) = PullSession::new(img());
    match s.step(PullEvent::NetworkFailed) {
        PullAction::FetchManifest { delay_ms, .. } => assert_eq!(delay_ms, 100),
        _ => panic!("expected a retried fetch"),
    }
    match s.step(PullEvent::NetworkFailed) {
        PullAction::FetchManifest { delay_ms, .. } => assert_eq!(delay_ms, 200),
        _ => panic!("expected a retried fetch"),
    }
    match s.step(PullEvent::NetworkFailed) {
        PullAction::Fail { error } => assert_eq!(error, PullError::Network),
        _ => panic!("expected the pull to give up"),
    }
}

#[test]
fn layer_retry_refetches_the_same_digest() {
    let (mut s, _) = PullSession::new(img());
    expect_layer(s.step(ok_response(MANIFEST)));
    let (_, d, _) = expect_layer(s.step(PullEvent::NetworkFailed));
    assert_eq!(d, "A");
    let (_, d2, _) = expect_layer(s.step(applied_ok()));
    assert_eq!(d2, "B");
}

#[test]
fn nonzero_extraction_exit_fails_the_pull() {
    let (mut s, _) = PullSession::new(img());
    expect_layer(s.step(ok_response(MANIFEST)));
    match s.step(PullEvent::LayerApplied { tar_exit: Some(2) }) {
        PullAction::Fail { error } => assert_eq!(error, PullError::Extraction),
        _ => panic!("expected a failure"),
    }
}

#[test]
fn extraction_killed_by_signal_fails_the_pull() {
    let (mut s, _) = PullSession::new(img());
    expect_layer(s.step(ok_response(MANIFEST)));
    match s.step(PullEvent::LayerApplied { tar_exit: None }) {
        PullAction::Fail { error } => assert_eq!(error, PullError::Extraction),
        _ => panic!("expected a failure"),
    }
}

#[test]
fn unsaved_blob_fails_the_pull() {
    let (mut s, _) = PullSession::new(img());
    expect_layer(s.step(ok_response(MANIFEST)));
    match s.step(PullEvent::LayerSaveFailed) {
        PullAction::Fail { error } => assert_eq!(error, PullError::BlobDownload),
        _ => panic!("expected a failure"),
    }
}
