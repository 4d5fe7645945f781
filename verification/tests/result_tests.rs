use empede::result::CommandResult;

fn props(pairs: &[(&str, &str)]) -> Vec<(String, String)> {
    pairs.iter().map(|(k, v)| (k.to_string(), v.to_string())).collect()
}

#[test]
fn properties_keep_arrival_order() {
    let r = CommandResult::new(props(&[("b", "2"), ("a", "1"), ("b", "3")]));
    let expect = props(&[("b", "2"), ("a", "1"), ("b", "3")]);
    assert_eq!(r.properties(), &expect);
}

#[test]
fn into_hashmap_later_duplicate_wins() {
    let m = CommandResult::new(props(&[("k", "old"), ("other", "x"), ("k", "new")]))
        .into_hashmap();
    assert_eq!(m.get("k"), Some(&"new".to_string()));
    assert_eq!(m.get("other"), Some(&"x".to_string()));
    assert_eq!(m.get("absent"), None);
    assert!(m.contains("k"));
    assert!(!m.contains("absent"));
    assert!(!m.is_empty());
}

#[test]
fn empty_result_makes_an_empty_map() {
    let m = CommandResult::new(Vec::new()).into_hashmap();
    assert!(m.is_empty());
}

#[test]
fn into_hashmaps_splits_at_boundary_keys() {
    let groups = CommandResult::new(props(&[
        ("file", "a.mp3"),
        ("Title", "A"),
        ("file", "b.mp3"),
        ("directory", "Sub"),
    ]))
    .into_hashmaps(&["file", "directory", "playlist"]);
    assert_eq!(groups.len(), 3);
    assert_eq!(groups[0].get("file"), Some(&"a.mp3".to_string()));
    assert_eq!(groups[0].get("Title"), Some(&"A".to_string()));
    assert_eq!(groups[1].get("file"), Some(&"b.mp3".to_string()));
    assert_eq!(groups[1].get("Title"), None);
    assert_eq!(groups[2].get("directory"), Some(&"Sub".to_string()));
}

#[test]
fn into_hashmaps_drops_properties_before_the_first_boundary() {
    let groups = CommandResult::new(props(&[("stray", "x"), ("file", "a.mp3")]))
        .into_hashmaps(&["file"]);
    assert_eq!(groups.len(), 1);
    assert_eq!(groups[0].get("stray"), None);
    assert_eq!(groups[0].get("file"), Some(&"a.mp3".to_string()));
}

#[test]
fn into_hashmaps_of_nothing_is_empty() {
    let groups = CommandResult::new(Vec::new()).into_hashmaps(&["file"]);
    assert!(groups.is_empty());
}

#[test]
fn binary_result_carries_its_payload() {
    let r = CommandResult::new_binary(props(&[("binary", "3")]), vec![1u8, 2u8, 3u8]);
    assert_eq!(r.binary().as_ref(), Some(&vec![1u8, 2u8, 3u8]));
    let (ps, payload) = r.into_parts();
    assert_eq!(ps, props(&[("binary", "3")]));
    assert_eq!(payload, Some(vec![1u8, 2u8, 3u8]));
}
