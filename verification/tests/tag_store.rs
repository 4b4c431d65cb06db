use osm2lanes::{TagKey, Tags};

fn sample() -> Tags {
    let mut tags = Tags::new();
    tags.insert("highway", "primary");
    tags.insert("cycleway:left", "lane");
    tags.insert("cycleway:left:oneway", "no");
    tags.insert("cycleways", "many");
    tags
}

#[test]
fn get_finds_what_insert_put() {
    let tags = sample();
    assert_eq!(tags.get("highway"), Some("primary"));
    assert_eq!(tags.get("Highway"), None);
    assert_eq!(tags.get("cycleway"), None);
}

#[test]
fn insert_replaces_and_hands_back_the_old_value() {
    let mut tags = sample();
    assert_eq!(tags.insert("highway", "secondary"), Some("primary".to_string()));
    assert_eq!(tags.insert("lanes", "2"), None);
    assert_eq!(tags.get("highway"), Some("secondary"));
    assert_eq!(tags.get("lanes"), Some("2"));
    assert_eq!(tags.get("cycleway:left"), Some("lane"));
}

#[test]
fn is_and_is_any_compare_values() {
    let tags = sample();
    assert!(tags.is("highway", "primary"));
    assert!(!tags.is("highway", "prim"));
    assert!(!tags.is("lanes", "2"));
    assert!(tags.is_any("highway", &["secondary", "primary"]));
    assert!(!tags.is_any("highway", &["secondary", "tertiary"]));
    assert!(!tags.is_any("highway", &[]));
}

#[test]
fn subset_keeps_the_named_keys_only() {
    let tags = sample();
    let some = tags.subset(&["highway", "lanes", "cycleway:left:oneway"]);
    assert_eq!(some.get("highway"), Some("primary"));
    assert_eq!(some.get("cycleway:left:oneway"), Some("no"));
    assert_eq!(some.get("cycleway:left"), None);
    assert_eq!(some.get("lanes"), None);
    assert!(tags.subset(&[]).is_empty());
    assert!(!tags.is_empty());
}

#[test]
fn subtree_holds_the_keys_below_a_prefix() {
    let tags = sample();
    let below = tags.subtree("cycleway").unwrap();
    assert_eq!(below.get("cycleway:left"), Some("lane"));
    assert_eq!(below.get("cycleway:left:oneway"), Some("no"));
    assert_eq!(below.get("cycleways"), None);
    assert_eq!(below.get("highway"), None);
    let exact = tags.subtree("highway").unwrap();
    assert_eq!(exact.get("highway"), Some("primary"));
    assert!(tags.subtree("busway").is_none());
    assert!(tags.subtree("cycle").is_none());
}

#[test]
fn tag_key_composes_with_colons() {
    let key = TagKey::from("cycleway").add("left").add("oneway");
    assert_eq!(key.as_str(), "cycleway:left:oneway");
    assert_eq!(sample().get(key.as_str()), Some("no"));
}

#[test]
fn clone_holds_the_same_tags() {
    let tags = sample();
    assert_eq!(tags.clone(), tags);
}

#[test]
fn entries_list_every_tag_once() {
    let mut tags = sample();
    tags.insert("highway", "secondary");
    let entries: Vec<(String, String)> =
        tags.entries().into_iter().map(|tag| (tag.key, tag.value)).collect();
    assert_eq!(
        entries,
        vec![
            ("highway".to_string(), "secondary".to_string()),
            ("cycleway:left".to_string(), "lane".to_string()),
            ("cycleway:left:oneway".to_string(), "no".to_string()),
            ("cycleways".to_string(), "many".to_string()),
        ]
    );
    assert!(Tags::new().entries().is_empty());
}
