use dex_cfg::manifest::{attribute, parse_permissions, permission, strip_prefix, Element, Node};

fn element(tag: &str, attributes: &[(&str, &str)]) -> Node {
    Node::Element(Element {
        tag: tag.to_string(),
        attributes: attributes
            .iter()
            .map(|(name, value)| (name.to_string(), value.to_string()))
            .collect(),
    })
}

#[test]
fn prefix_is_taken_off() {
    assert_eq!(
        strip_prefix("android.permission.INTERNET", "android.permission."),
        Some("INTERNET".to_string())
    );
    assert_eq!(strip_prefix("android.permission.", "android.permission."), Some(String::new()));
    assert_eq!(strip_prefix("com.example.PERMISSION", "android.permission."), None);
    assert_eq!(strip_prefix("android", "android.permission."), None);
    assert_eq!(strip_prefix("anything", ""), Some("anything".to_string()));
    assert_eq!(strip_prefix("früh.x", "früh."), Some("x".to_string()));
}

#[test]
fn attribute_is_found_by_name() {
    let attributes = vec![
        ("android:maxSdkVersion".to_string(), "18".to_string()),
        ("android:name".to_string(), "android.permission.CAMERA".to_string()),
    ];
    assert_eq!(
        attribute(&attributes, "android:name"),
        Some(&"android.permission.CAMERA".to_string())
    );
    assert_eq!(attribute(&attributes, "android:maxSdkVersion"), Some(&"18".to_string()));
    assert_eq!(attribute(&attributes, "name"), None);
    assert_eq!(attribute(&vec![], "android:name"), None);
}

#[test]
fn permission_of_a_node() {
    let asked = element("uses-permission", &[("android:name", "android.permission.INTERNET")]);
    assert_eq!(permission(&asked), Some("INTERNET".to_string()));
    let other_tag = element("uses-feature", &[("android:name", "android.permission.INTERNET")]);
    assert_eq!(permission(&other_tag), None);
    let unnamed = element("uses-permission", &[("android:maxSdkVersion", "18")]);
    assert_eq!(permission(&unnamed), None);
    let foreign = element("uses-permission", &[("android:name", "com.example.READ")]);
    assert_eq!(permission(&foreign), None);
    assert_eq!(permission(&Node::Cdata("uses-permission".to_string())), None);
}

#[test]
fn permissions_of_a_manifest() {
    let children = vec![
        element("uses-sdk", &[("android:minSdkVersion", "21")]),
        element("uses-permission", &[("android:name", "android.permission.INTERNET")]),
        Node::Cdata("text".to_string()),
        element("uses-permission", &[("android:name", "com.example.READ")]),
        element(
            "uses-permission",
            &[("android:maxSdkVersion", "18"), ("android:name", "android.permission.CAMERA")],
        ),
        element("application", &[("android:name", "android.permission.FAKE")]),
    ];
    assert_eq!(
        parse_permissions(Some(&children)),
        Some(vec!["INTERNET".to_string(), "CAMERA".to_string()])
    );
    assert_eq!(parse_permissions(Some(&vec![])), Some(vec![]));
    assert_eq!(parse_permissions(None), None);
}
