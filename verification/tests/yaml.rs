use sitegen::error::BuildError;
use sitegen::yaml::{first_document, split_front_matter, YamlValue};

fn as_text(value: Option<&YamlValue>) -> Option<&str> {
    match value {
        Some(YamlValue::Text(s)) => Some(s.as_str()),
        _ => None,
    }
}

#[test]
fn first_document_mirrors_the_parsed_tree() {
    let doc = first_document("title: My Site\ncount: 3\nratio: 1.5\nflag: true\nnothing: ~\nlist: [a, 2]\nnested:\n  key: value\n").unwrap();
    assert_eq!(as_text(doc.get("title")), Some("My Site"));
    assert!(matches!(doc.get("count"), Some(YamlValue::Integer(3))));
    assert!(matches!(doc.get("ratio"), Some(YamlValue::Real(r)) if r == "1.5"));
    assert!(matches!(doc.get("flag"), Some(YamlValue::Boolean(true))));
    assert!(matches!(doc.get("nothing"), Some(YamlValue::Null)));
    match doc.get("list") {
        Some(YamlValue::Array(items)) => {
            assert_eq!(items.len(), 2);
            assert!(matches!(&items[0], YamlValue::Text(s) if s == "a"));
            assert!(matches!(&items[1], YamlValue::Integer(2)));
        }
        other => panic!("no list: {:?}", other),
    }
    match doc.get("nested") {
        Some(inner) => assert_eq!(as_text(inner.get("key")), Some("value")),
        None => panic!("no nested hash"),
    }
    assert!(doc.get("absent").is_none());
}

#[test]
fn hash_entries_keep_document_order() {
    let doc = first_document("b: 1\na: 2\nc: 3\n").unwrap();
    match doc {
        YamlValue::Hash(entries) => {
            let keys: Vec<String> = entries
                .iter()
                .map(|(k, _)| match k {
                    YamlValue::Text(s) => s.clone(),
                    _ => String::new(),
                })
                .collect();
            assert_eq!(keys, vec!["b".to_string(), "a".to_string(), "c".to_string()]);
        }
        other => panic!("no hash: {:?}", other),
    }
}

#[test]
fn first_document_of_several() {
    let doc = first_document("title: one\n---\ntitle: two\n").unwrap();
    assert_eq!(as_text(doc.get("title")), Some("one"));
}

#[test]
fn first_document_fails_without_a_document() {
    assert!(first_document("").is_none());
    assert!(first_document("title: \"unclosed").is_none());
}

#[test]
fn get_on_what_is_no_hash_finds_nothing() {
    assert!(YamlValue::Text("title".to_string()).get("title").is_none());
    assert!(YamlValue::Array(vec![]).get("title").is_none());
    assert!(YamlValue::Null.get("title").is_none());
}

#[test]
fn as_text_and_as_items_tell_the_variants_apart() {
    assert_eq!(YamlValue::Text("x".to_string()).as_text(), Some(&"x".to_string()));
    assert!(YamlValue::Integer(1).as_text().is_none());
    assert!(YamlValue::Real("1.0".to_string()).as_text().is_none());
    assert!(YamlValue::Array(vec![YamlValue::Null]).as_items().is_some());
    assert!(YamlValue::Text("x".to_string()).as_items().is_none());
}

#[test]
fn split_agrees_with_the_frontmatter_crate() {
    let samples = [
        "---\ntitle: Valid Yaml Test\n---\nsomething that's not yaml",
        "something that's not yaml even if it has\n---\nsome: yaml\n--",
        "---\n---\nsomething that's not yaml",
        "---\ntitle: a\n---\n",
        "---\n",
        "---\n---\n",
        "",
        "---\ntitle: é\n---\nbody → here\n---\nmore",
        "--- \ntitle: a\n---\nbody",
        "---\ntitle: a\n----\nbody\n---\nrest",
    ];
    for sample in samples {
        match (frontmatter::parse_and_find_content(sample), split_front_matter(sample)) {
            (Ok((their_doc, their_body)), Ok((our_doc, our_body))) => {
                assert_eq!(our_body, their_body, "body of {:?}", sample);
                assert_eq!(our_doc.is_some(), their_doc.is_some(), "document of {:?}", sample);
            }
            (Err(_), Err(e)) => assert_eq!(e, BuildError::MalformedFrontMatter),
            (theirs, ours) => panic!("{:?}: {:?} but {:?}", sample, theirs, ours),
        }
    }
}

#[test]
fn fence_inside_a_longer_run_of_hyphens_closes_the_block() {
    // The block ends at the first fence, which here starts at the second
    // hyphen of the four: what is left is no YAML.
    assert_eq!(
        split_front_matter("---\ntitle: a\n----\nbody\n---\nrest").err(),
        Some(BuildError::MalformedFrontMatter)
    );
}

#[test]
fn split_takes_the_last_document_of_the_block() {
    let (doc, body) = split_front_matter("---\ntitle: one\n--- \ntitle: two\n---\nbody").unwrap();
    assert_eq!(as_text(doc.unwrap().get("title")), Some("two"));
    assert_eq!(body, "body");
}

#[test]
fn split_fails_on_a_block_that_is_no_yaml() {
    assert_eq!(split_front_matter("---\ntitle: \"unclosed\n---\nbody").err(), Some(BuildError::MalformedFrontMatter));
}
