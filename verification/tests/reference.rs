use minibox::reference::ImageIdentifier;
use minibox::PullError;

#[test]
fn test_parse_image_name() {
    assert_eq!(
        ImageIdentifier::from_string(&"library/ubuntu:latest".to_string()).unwrap(),
        ImageIdentifier {
            author: "library".to_string(),
            name: "ubuntu".to_string(),
            tag: "latest".to_string()
        }
    );

    assert_eq!(
        ImageIdentifier::from_string(&"alpine".to_string()).unwrap(),
        ImageIdentifier {
            author: "library".to_string(),
            name: "alpine".to_string(),
            tag: "latest".to_string(),
        }
    );

    assert_eq!(
        ImageIdentifier::from_string(&"ghcr.io/dusk-labs/dim:dev".to_string()).unwrap(),
        ImageIdentifier {
            author: "dusk-labs".to_string(),
            name: "dim".to_string(),
            tag: "dev".to_string()
        }
    );

    assert_eq!(
        ImageIdentifier::from_string(&"bitnami/redis:7.0".to_string()).unwrap(),
        ImageIdentifier {
            author: "bitnami".to_string(),
            name: "redis".to_string(),
            tag: "7.0".to_string()
        }
    );
}

#[test]
fn parse_fills_defaults_separately() {
    assert_eq!(
        ImageIdentifier::from_string(&"alpine:3.19".to_string()).unwrap(),
        ImageIdentifier {
            author: "library".to_string(),
            name: "alpine".to_string(),
            tag: "3.19".to_string()
        }
    );
    assert_eq!(
        ImageIdentifier::from_string(&"bitnami/redis".to_string()).unwrap(),
        ImageIdentifier {
            author: "bitnami".to_string(),
            name: "redis".to_string(),
            tag: "latest".to_string()
        }
    );
}

#[test]
fn parse_refuses_empty_name() {
    assert_eq!(
        ImageIdentifier::from_string(&"".to_string()),
        Err(PullError::ReferenceParse)
    );
    assert_eq!(
        ImageIdentifier::from_string(&"bitnami/:7.0".to_string()),
        Err(PullError::ReferenceParse)
    );
    assert_eq!(
        ImageIdentifier::from_string(&":latest".to_string()),
        Err(PullError::ReferenceParse)
    );
}
