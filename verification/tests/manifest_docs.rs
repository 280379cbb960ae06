use minibox::manifest::{layers_from_body, token_from_body};
use minibox::PullError;

#[test]
fn manifest_layers_come_in_document_order() {
    let body = "{\"name\":\"x\",\"fsLayers\":[{\"blobSum\":\"sha256:aaa\"},{\"blobSum\":\"sha256:bbb\"},{\"blobSum\":\"sha256:ccc\"}]}";
    let ls = layers_from_body(body).unwrap();
    assert_eq!(
        ls,
        vec![
            "sha256:aaa".to_string(),
            "sha256:bbb".to_string(),
            "sha256:ccc".to_string()
        ]
    );
}

#[test]
fn empty_layer_list_is_accepted() {
    assert_eq!(layers_from_body("{\"fsLayers\":[]}").unwrap().len(), 0);
}

#[test]
fn malformed_manifests_are_refused() {
    assert_eq!(layers_from_body("not json"), Err(PullError::ManifestParse));
    assert_eq!(layers_from_body("{}"), Err(PullError::ManifestParse));
    assert_eq!(layers_from_body("[]"), Err(PullError::ManifestParse));
    assert_eq!(
        layers_from_body("{\"fsLayers\":[{\"digest\":\"x\"}]}"),
        Err(PullError::ManifestParse)
    );
    assert_eq!(
        layers_from_body("{\"fsLayers\":[{\"blobSum\":7}]}"),
        Err(PullError::ManifestParse)
    );
    assert_eq!(
        layers_from_body("{\"fsLayers\":{\"blobSum\":\"x\"}}"),
        Err(PullError::ManifestParse)
    );
}

#[test]
fn token_is_read_from_the_token_field() {
    assert_eq!(token_from_body("{\"token\":\"abc123\"}").unwrap(), "abc123");
}

#[test]
fn bodies_without_a_token_are_refused() {
    assert_eq!(token_from_body("{}"), Err(PullError::AuthChallenge));
    assert_eq!(
        token_from_body("{\"access_token\":\"abc\"}"),
        Err(PullError::AuthChallenge)
    );
    assert_eq!(token_from_body("{\"token\":5}"), Err(PullError::AuthChallenge));
    assert_eq!(token_from_body("no"), Err(PullError::AuthChallenge));
}
