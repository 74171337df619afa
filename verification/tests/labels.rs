use minik8s::objects::{Labels, LabelsError};

fn parse(s: &str) -> Labels {
    Labels::try_from(s.to_string()).unwrap()
}

#[test]
fn try_from_reads_key_value_pairs() {
    let labels = parse("key1=value1,key2=value2");
    assert_eq!(labels.get("key1"), Some("value1".to_string()));
    assert_eq!(labels.get("key2"), Some("value2".to_string()));
    assert_eq!(labels.len(), 2);
}

#[test]
fn try_from_rejects_a_piece_without_value() {
    let labels = Labels::try_from("key1=value1,key2".to_string());
    assert_eq!(labels, Err(LabelsError::MissingValue));
}

#[test]
fn try_from_rejects_the_empty_text() {
    assert_eq!(Labels::try_from(String::new()), Err(LabelsError::MissingValue));
}

#[test]
fn try_from_later_piece_overrides_and_extra_equals_is_ignored() {
    let labels = parse("a=1,b=2=3,a=4");
    assert_eq!(labels.get("a"), Some("4".to_string()));
    assert_eq!(labels.get("b"), Some("2".to_string()));
    assert_eq!(labels.len(), 2);
}

#[test]
fn matches_examples_of_the_documentation() {
    let labels1 = parse("app=frontend,env=prod");
    let labels2 = parse("app=frontend");
    assert!(labels1.matches(&labels2));

    let labels2 = Labels::new();
    assert!(labels1.matches(&labels2));

    let labels1 = parse("app=frontend,env=prod");
    let labels2 = parse("app=frontend,env=dev");
    assert!(!labels1.matches(&labels2));

    let labels1 = parse("app=frontend");
    let labels2 = parse("app=frontend,env=prod");
    assert!(!labels1.matches(&labels2));
}

#[test]
fn matches_is_reflexive_and_transitive() {
    let a = parse("app=web,env=prod,tier=1");
    let b = parse("app=web,env=prod");
    let c = parse("app=web");
    assert!(a.matches(&a));
    assert!(a.matches(&b) && b.matches(&c));
    assert!(a.matches(&c));
}

#[test]
fn to_string_joins_entries_in_insertion_order() {
    let mut labels = Labels::new();
    labels.insert("app", "web").insert("env", "prod");
    assert_eq!(labels.to_string(), "app=web,env=prod");
    assert_eq!(Labels::new().to_string(), "");
}

#[test]
fn insert_of_a_present_key_keeps_its_place() {
    let mut labels = Labels::new();
    labels.insert("a", "1").insert("b", "2").insert("a", "3");
    assert_eq!(labels.to_string(), "a=3,b=2");
}

#[test]
fn printing_and_parsing_gives_the_labels_back() {
    let mut labels = Labels::new();
    labels.insert("app", "web").insert("env", "prod");
    let again = parse(&labels.to_string());
    assert!(again.matches(&labels) && labels.matches(&again));
    assert_eq!(again.to_string(), labels.to_string());
}
