use k8s_version_checker::registry::{
    get_latest_image_version, get_registry_host_and_image, parse_image_definition, Image,
    ParseError,
};

fn parsed(raw: &str) -> Image {
    get_registry_host_and_image(raw).expect("expected the reference to parse")
}

#[test]
fn single_name_gets_default_registry_and_library_namespace() {
    let img = parsed("postgresql");
    assert_eq!(img.registry, "registry-1.docker.io");
    assert_eq!(img.name, "library/postgresql");
}

#[test]
fn two_segments_without_dot_keep_default_registry() {
    let img = parsed("test/image");
    assert_eq!(img.registry, "registry-1.docker.io");
    assert_eq!(img.name, "test/image");
}

#[test]
fn three_segments_name_their_registry() {
    let img = parsed("registry.example.com/repo/image");
    assert_eq!(img.registry, "registry.example.com");
    assert_eq!(img.name, "repo/image");
}

#[test]
fn two_segments_with_dotted_host_name_their_registry() {
    let img = parsed("k8s.gcr.io/etcd");
    assert_eq!(img.registry, "k8s.gcr.io");
    assert_eq!(img.name, "etcd");
}

#[test]
fn four_segments_are_rejected() {
    match get_registry_host_and_image("a/b/c/d") {
        Err(ParseError::InvalidImageFormat(raw)) => assert_eq!(raw, "a/b/c/d"),
        other => panic!("expected InvalidImageFormat, got {:?}", other),
    }
}

#[test]
fn empty_host_segment_is_rejected() {
    match get_registry_host_and_image("/a/b") {
        Err(ParseError::InvalidImageFormat(raw)) => assert_eq!(raw, "/a/b"),
        other => panic!("expected InvalidImageFormat, got {:?}", other),
    }
}

#[test]
fn empty_name_after_host_is_rejected() {
    match get_registry_host_and_image("k8s.gcr.io/") {
        Err(ParseError::InvalidImageFormat(raw)) => assert_eq!(raw, "k8s.gcr.io/"),
        other => panic!("expected InvalidImageFormat, got {:?}", other),
    }
}

#[test]
fn parsed_fields_are_never_empty() {
    for raw in ["postgresql", "test/image", "registry.example.com/repo/image", "k8s.gcr.io/etcd"] {
        let img = parsed(raw);
        assert!(!img.registry.is_empty());
        assert!(!img.name.is_empty());
    }
}

#[test]
fn versioned_reference_splits_image_and_tag() {
    let vi = parse_image_definition("nginx:1.21").expect("expected the reference to parse");
    assert_eq!(vi.image, parsed("nginx"));
    assert_eq!(vi.version, "1.21");
}

#[test]
fn versioned_reference_without_tag_is_rejected() {
    match parse_image_definition("nginx") {
        Err(ParseError::MissingTag(raw)) => assert_eq!(raw, "nginx"),
        other => panic!("expected MissingTag, got {:?}", other),
    }
}

#[test]
fn versioned_reference_accepts_empty_tag() {
    let vi = parse_image_definition("nginx:").expect("expected the reference to parse");
    assert_eq!(vi.image, parsed("nginx"));
    assert_eq!(vi.version, "");
}

#[test]
fn versioned_reference_propagates_image_error() {
    match parse_image_definition("a/b/c/d:1.0") {
        Err(ParseError::InvalidImageFormat(raw)) => assert_eq!(raw, "a/b/c/d"),
        other => panic!("expected InvalidImageFormat, got {:?}", other),
    }
}

#[test]
fn versioned_reference_splits_on_first_colon() {
    // A registry host with an explicit port is ambiguous under the
    // first-colon rule: the port is taken for the tag separator.
    let vi = parse_image_definition("myregistry.local:5000/image:tag")
        .expect("expected the reference to parse");
    assert_eq!(vi.image.registry, "registry-1.docker.io");
    assert_eq!(vi.image.name, "library/myregistry.local");
    assert_eq!(vi.version, "5000/image:tag");
}

#[test]
fn reparsing_a_qualified_reference_is_a_fixed_point() {
    let img = parsed("k8s.gcr.io/etcd");
    let again = parsed(img.full_reference().as_str());
    assert_eq!(again, img);
}

#[test]
fn single_name_normalization_is_one_way_but_stable() {
    let img = parsed("postgresql");
    let full = img.full_reference();
    assert_eq!(full, "registry-1.docker.io/library/postgresql");
    assert_ne!(full, "postgresql");
    let again = parsed(full.as_str());
    assert_eq!(again, img);
}

#[test]
fn reparsing_a_default_registry_pair_is_a_fixed_point() {
    let img = parsed("test/image");
    let again = parsed(img.full_reference().as_str());
    assert_eq!(again, img);
}

#[test]
fn latest_version_lookup_is_unimplemented() {
    let img = parsed("nginx");
    assert_eq!(get_latest_image_version(img), None);
}

#[test]
fn error_messages_name_the_offending_input() {
    let invalid = get_registry_host_and_image("a/b/c/d").unwrap_err();
    assert_eq!(invalid.message(), "Invalid image name format: a/b/c/d");
    let missing = parse_image_definition("nginx").unwrap_err();
    assert_eq!(
        missing.message(),
        "Unable to extract image and version from: nginx"
    );
}
