use docs_test_gen::links::{
    check_status, external_links, external_links_of_markdown, is_excluded_host, link_action, LinkAction,
    LinkError,
};

#[test]
fn excluded_host() {
    assert!(is_excluded_host("crates.io"));
    assert!(!is_excluded_host("docs.rs"));
    assert!(!is_excluded_host(""));
}

#[test]
fn link_actions() {
    assert_eq!(link_action("https://crates.io/crates/serde"), Ok(LinkAction::Skip));
    assert_eq!(link_action("https://example.com/page"), Ok(LinkAction::Fetch));
    assert_eq!(link_action("not a url"), Err(LinkError::InvalidUrl("not a url".to_string())));
}

#[test]
fn statuses() {
    assert_eq!(check_status("u", 200), Ok(()));
    assert_eq!(check_status("u", 299), Ok(()));
    assert_eq!(check_status("u", 199), Err(LinkError::Broken("u".to_string(), 199)));
    assert_eq!(check_status("u", 300), Err(LinkError::Broken("u".to_string(), 300)));
    assert_eq!(check_status("u", 404), Err(LinkError::Broken("u".to_string(), 404)));
}

#[test]
fn external_links_kept_in_order() {
    let urls = vec!["/local".to_string(), "https://a.org".to_string(), "http://b.org".to_string(), "ftp://c".to_string()];
    assert_eq!(external_links(&urls), vec!["https://a.org".to_string(), "http://b.org".to_string()]);
}

#[test]
fn markdown_links_and_images() {
    let doc = "See [a](https://x.org) and ![i](http://y.org/p.png) or [b](/local).\n";
    assert_eq!(
        external_links_of_markdown(doc),
        vec!["https://x.org".to_string(), "http://y.org/p.png".to_string()]
    );
}
