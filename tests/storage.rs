use webtags_host::codec::{decode_document, encode_document};
use webtags_host::storage::{
    create_bookmark, create_tag, decimal_string, validate_bookmark_url, BookmarkAttributes,
    BookmarksData, KindMismatch, ParentRelationship, Resource, ResourceIdentifier, TagAttributes,
    TagRelationships, Timestamp, ValidationError,
};

fn tag_id(r: &Resource) -> String {
    if let Resource::Tag { id, .. } = r {
        id.clone()
    } else {
        panic!("Expected tag");
    }
}

fn plain_tag(id: &str, name: &str, parent: Option<&str>) -> Resource {
    Resource::Tag {
        id: id.to_string(),
        attributes: TagAttributes { name: name.to_string(), color: None, description: None },
        relationships: parent.map(|p| TagRelationships {
            parent: Some(ParentRelationship {
                data: Some(ResourceIdentifier { resource_type: "tag".to_string(), id: p.to_string() }),
            }),
        }),
    }
}

fn plain_bookmark(id: &str, url: &str, title: &str) -> Resource {
    Resource::Bookmark {
        id: id.to_string(),
        attributes: BookmarkAttributes {
            url: url.to_string(),
            title: title.to_string(),
            created: Timestamp { secs: 1705314600, nanos: 0 },
            modified: None,
            notes: None,
        },
        relationships: None,
    }
}

#[test]
fn test_new_bookmarks_data() {
    let data = BookmarksData::new();
    assert_eq!(data.jsonapi.version, "1.1");
    assert!(data.data.is_empty());
    assert!(data.included.is_none());
}

#[test]
fn test_add_bookmark() {
    let mut data = BookmarksData::new();
    let bookmark = create_bookmark("https://example.com".to_string(), "Example".to_string(), vec![]).unwrap();
    data.add_bookmark(bookmark).unwrap();
    assert_eq!(data.data.len(), 1);
}

#[test]
fn test_add_tag() {
    let mut data = BookmarksData::new();
    let tag = create_tag("rust".to_string(), Some("#3b82f6".to_string()), None).unwrap();
    data.add_tag(tag).unwrap();
    assert!(data.included.is_some());
    assert_eq!(data.included.as_ref().unwrap().len(), 1);
}

#[test]
fn test_hierarchical_tags() {
    let mut data = BookmarksData::new();
    let parent_tag = create_tag("programming".to_string(), None, None).unwrap();
    let parent_id = tag_id(&parent_tag);
    data.add_tag(parent_tag).unwrap();
    let child_tag = create_tag("rust".to_string(), None, Some(parent_id.clone())).unwrap();
    data.add_tag(child_tag).unwrap();
    let hierarchy = data.get_tag_hierarchy();
    assert!(hierarchy.contains_key(&parent_id));
    assert_eq!(hierarchy.get(&parent_id).unwrap().len(), 1);
}

#[test]
fn test_tag_breadcrumb() {
    let mut data = BookmarksData::new();
    let tech_tag = create_tag("tech".to_string(), None, None).unwrap();
    let tech_id = tag_id(&tech_tag);
    data.add_tag(tech_tag).unwrap();
    let prog_tag = create_tag("programming".to_string(), None, Some(tech_id.clone())).unwrap();
    let prog_id = tag_id(&prog_tag);
    data.add_tag(prog_tag).unwrap();
    let rust_tag = create_tag("rust".to_string(), None, Some(prog_id.clone())).unwrap();
    let rust_id = tag_id(&rust_tag);
    data.add_tag(rust_tag).unwrap();
    let breadcrumb = data.get_tag_breadcrumb(&rust_id);
    assert_eq!(breadcrumb, vec!["tech", "programming", "rust"]);
}

#[test]
fn test_validate_duplicate_ids() {
    let mut data = BookmarksData::new();
    let bookmark1 = Resource::Bookmark {
        id: "same-id".to_string(),
        attributes: BookmarkAttributes {
            url: "https://example.com".to_string(),
            title: "Example".to_string(),
            created: Timestamp::now(),
            modified: None,
            notes: None,
        },
        relationships: None,
    };
    let bookmark2 = Resource::Bookmark {
        id: "same-id".to_string(),
        attributes: BookmarkAttributes {
            url: "https://example2.com".to_string(),
            title: "Example 2".to_string(),
            created: Timestamp::now(),
            modified: None,
            notes: None,
        },
        relationships: None,
    };
    data.data.push(bookmark1);
    data.data.push(bookmark2);
    assert!(data.validate().is_err());
}

#[test]
fn test_get_bookmarks_only() {
    let mut data = BookmarksData::new();
    let bookmark = create_bookmark("https://example.com".to_string(), "Example".to_string(), vec![]).unwrap();
    data.add_bookmark(bookmark).unwrap();
    let tag = create_tag("test".to_string(), None, None).unwrap();
    data.add_tag(tag).unwrap();
    let bookmarks = data.get_bookmarks();
    assert_eq!(bookmarks.len(), 1);
}

#[test]
fn test_circular_reference_in_breadcrumb() {
    let mut data = BookmarksData::new();
    let tag1 = plain_tag("tag1", "Tag 1", Some("tag2"));
    let tag2 = plain_tag("tag2", "Tag 2", Some("tag1"));
    data.add_tag(tag1).unwrap();
    data.add_tag(tag2).unwrap();
    let breadcrumb = data.get_tag_breadcrumb("tag1");
    assert!(!breadcrumb.is_empty());
}

#[test]
fn test_hierarchical_tags_integration() {
    let mut data = BookmarksData::new();
    let tech_tag = create_tag("tech".to_string(), Some("#10b981".to_string()), None).unwrap();
    let tech_id = tag_id(&tech_tag);
    data.add_tag(tech_tag).unwrap();
    let prog_tag =
        create_tag("programming".to_string(), Some("#3b82f6".to_string()), Some(tech_id.clone())).unwrap();
    let prog_id = tag_id(&prog_tag);
    data.add_tag(prog_tag).unwrap();
    let rust_tag = create_tag("rust".to_string(), Some("#f97316".to_string()), Some(prog_id.clone())).unwrap();
    let rust_id = tag_id(&rust_tag);
    data.add_tag(rust_tag).unwrap();

    let hierarchy = data.get_tag_hierarchy();
    assert!(hierarchy.contains_key(&tech_id));
    assert!(hierarchy.contains_key(&prog_id));
    let tech_children = hierarchy.get(&tech_id).unwrap();
    assert_eq!(tech_children.len(), 1);
    assert_eq!(tech_children[0], prog_id);
    let prog_children = hierarchy.get(&prog_id).unwrap();
    assert_eq!(prog_children.len(), 1);
    assert_eq!(prog_children[0], rust_id);

    let breadcrumb = data.get_tag_breadcrumb(&rust_id);
    assert_eq!(breadcrumb, vec!["tech", "programming", "rust"]);

    let json = encode_document(&data).unwrap();
    let parsed: BookmarksData = decode_document(&json).unwrap();
    assert_eq!(parsed.get_tags().len(), 3);
    let parsed_breadcrumb = parsed.get_tag_breadcrumb(&rust_id);
    assert_eq!(parsed_breadcrumb, breadcrumb);
}

#[test]
fn test_multiple_bookmarks_and_tags() {
    let mut data = BookmarksData::new();
    let web_tag = create_tag("web".to_string(), None, None).unwrap();
    let web_id = tag_id(&web_tag);
    data.add_tag(web_tag).unwrap();
    let frontend_tag = create_tag("frontend".to_string(), None, Some(web_id.clone())).unwrap();
    let frontend_id = tag_id(&frontend_tag);
    data.add_tag(frontend_tag).unwrap();
    let backend_tag = create_tag("backend".to_string(), None, Some(web_id.clone())).unwrap();
    let backend_id = tag_id(&backend_tag);
    data.add_tag(backend_tag).unwrap();

    let bookmark1 = create_bookmark("https://react.dev".to_string(), "React".to_string(), vec![frontend_id.clone()]).unwrap();
    data.add_bookmark(bookmark1).unwrap();
    let bookmark2 = create_bookmark("https://nodejs.org".to_string(), "Node.js".to_string(), vec![backend_id.clone()]).unwrap();
    data.add_bookmark(bookmark2).unwrap();
    let bookmark3 = create_bookmark(
        "https://developer.mozilla.org".to_string(),
        "MDN Web Docs".to_string(),
        vec![frontend_id.clone(), backend_id.clone()],
    ).unwrap();
    data.add_bookmark(bookmark3).unwrap();

    data.validate().unwrap();
    assert_eq!(data.get_bookmarks().len(), 3);
    assert_eq!(data.get_tags().len(), 3);
    let hierarchy = data.get_tag_hierarchy();
    assert_eq!(hierarchy.get(&web_id).unwrap().len(), 2);
    let frontend_breadcrumb = data.get_tag_breadcrumb(&frontend_id);
    assert_eq!(frontend_breadcrumb, vec!["web", "frontend"]);
    let backend_breadcrumb = data.get_tag_breadcrumb(&backend_id);
    assert_eq!(backend_breadcrumb, vec!["web", "backend"]);
}

#[test]
fn add_rejects_the_wrong_kind() {
    let mut data = BookmarksData::new();
    assert_eq!(data.add_bookmark(plain_tag("t", "t", None)), Err(KindMismatch::ExpectedBookmark));
    assert_eq!(data.add_tag(plain_bookmark("b", "https://a.b", "x")), Err(KindMismatch::ExpectedTag));
    assert!(data.data.is_empty());
    assert!(data.included.is_none());
}

#[test]
fn tags_come_from_both_lists_primary_first() {
    let mut data = BookmarksData::new();
    data.add_tag(plain_tag("aux", "aux", None)).unwrap();
    data.data.push(plain_tag("prim", "prim", None));
    data.data.push(plain_bookmark("b", "https://a.b", "x"));
    let ids: Vec<String> = data
        .get_tags()
        .iter()
        .map(|r| if let Resource::Tag { id, .. } = r { id.clone() } else { String::new() })
        .collect();
    assert_eq!(ids, vec!["prim", "aux"]);
    assert_eq!(data.get_bookmarks().len(), 1);
}

#[test]
fn hierarchy_keeps_document_order_of_children() {
    let mut data = BookmarksData::new();
    data.add_tag(plain_tag("c2", "c2", Some("p"))).unwrap();
    data.add_tag(plain_tag("p", "p", None)).unwrap();
    data.add_tag(plain_tag("c1", "c1", Some("p"))).unwrap();
    data.add_tag(plain_tag("d", "d", Some("missing"))).unwrap();
    let h = data.get_tag_hierarchy();
    assert_eq!(h.len(), 2);
    assert_eq!(h.get("p").unwrap(), &vec!["c2".to_string(), "c1".to_string()]);
    assert_eq!(h.get("missing").unwrap(), &vec!["d".to_string()]);
    assert!(h.get("c1").is_none());
    assert!(!h.contains_key("d"));
}

#[test]
fn breadcrumb_on_cycle_is_finite_and_ordered() {
    let mut data = BookmarksData::new();
    data.add_tag(plain_tag("tag1", "Tag 1", Some("tag2"))).unwrap();
    data.add_tag(plain_tag("tag2", "Tag 2", Some("tag1"))).unwrap();
    assert_eq!(data.get_tag_breadcrumb("tag1"), vec!["Tag 2", "Tag 1"]);
    data.add_tag(plain_tag("self", "Self", Some("self"))).unwrap();
    assert_eq!(data.get_tag_breadcrumb("self"), vec!["Self"]);
}

#[test]
fn breadcrumb_of_unknown_tag_is_empty() {
    let mut data = BookmarksData::new();
    data.add_tag(plain_tag("a", "A", None)).unwrap();
    data.add_bookmark(plain_bookmark("b", "https://a.b", "x")).unwrap();
    assert!(data.get_tag_breadcrumb("zzz").is_empty());
    assert!(data.get_tag_breadcrumb("b").is_empty());
}

#[test]
fn breadcrumb_stops_at_a_missing_parent() {
    let mut data = BookmarksData::new();
    data.add_tag(plain_tag("a", "A", Some("gone"))).unwrap();
    assert_eq!(data.get_tag_breadcrumb("a"), vec!["A"]);
}

#[test]
fn breadcrumb_uses_the_last_tag_of_an_identifier() {
    let mut data = BookmarksData::new();
    data.data.push(plain_tag("x", "first", None));
    data.add_tag(plain_tag("x", "second", None)).unwrap();
    assert_eq!(data.get_tag_breadcrumb("x"), vec!["second"]);
}

#[test]
fn validation_names_each_broken_rule() {
    let ok = |r: Resource| {
        let mut d = BookmarksData::new();
        d.data.push(r);
        d.validate()
    };
    assert_eq!(ok(plain_bookmark("a", "ftp://example.com", "x")), Err(ValidationError::UnsafeScheme));
    assert_eq!(ok(plain_tag("t", "a<b", None)), Err(ValidationError::TagNameHtml));
    assert_eq!(ok(plain_tag("t", "a>b", None)), Err(ValidationError::TagNameHtml));
    assert_eq!(ok(plain_bookmark("a", "https://x.y", &"t".repeat(501))), Err(ValidationError::TitleTooLong));
    assert_eq!(ok(plain_bookmark("a", "https://x.y", &"t".repeat(500))), Ok(()));
    assert_eq!(ok(plain_bookmark("a", "", "x")), Err(ValidationError::EmptyUrl));
    let long = format!("https://x.y/{}", "a".repeat(2048));
    assert_eq!(ok(plain_bookmark("a", &long, "x")), Err(ValidationError::UrlTooLong));
    assert_eq!(ok(plain_bookmark("a", "not a url", "x")), Err(ValidationError::InvalidUrl));
    assert_eq!(ok(plain_tag("t", "", None)), Err(ValidationError::TagNameLength));
    assert_eq!(ok(plain_tag("t", &"n".repeat(101), None)), Err(ValidationError::TagNameLength));
    assert_eq!(ok(plain_tag("t", &"n".repeat(100), None)), Ok(()));

    let mut dup = BookmarksData::new();
    dup.data.push(plain_bookmark("same", "https://a.b", "x"));
    dup.add_tag(plain_tag("same", "t", None)).unwrap();
    assert_eq!(dup.validate(), Err(ValidationError::DuplicateId));

    let mut version = BookmarksData::new();
    version.jsonapi.version = "1.0".to_string();
    assert_eq!(version.validate(), Err(ValidationError::UnsupportedVersion));
}

#[test]
fn validation_checks_auxiliary_resources_too() {
    let mut d = BookmarksData::new();
    d.add_tag(plain_tag("t", "<b>", None)).unwrap();
    assert_eq!(d.validate(), Err(ValidationError::TagNameHtml));
}

#[test]
fn validation_reports_the_first_rule_broken() {
    let mut d = BookmarksData::new();
    d.data.push(plain_bookmark("a", "https://a.b", "x"));
    d.data.push(plain_bookmark("a", "ftp://a.b", "x"));
    assert_eq!(d.validate(), Err(ValidationError::UnsafeScheme));
}

#[test]
fn url_check_reads_the_parsed_scheme() {
    assert_eq!(validate_bookmark_url("https://example.com"), Ok(()));
    assert_eq!(validate_bookmark_url("HTTP://example.com"), Ok(()));
    assert_eq!(validate_bookmark_url("javascript:alert(1)"), Err(ValidationError::UnsafeScheme));
    assert_eq!(validate_bookmark_url("/relative"), Err(ValidationError::InvalidUrl));
}

#[test]
fn created_resources_carry_their_fields() {
    let b = create_bookmark("https://a.b".to_string(), "T".to_string(), vec!["t1".to_string(), "t2".to_string()]).unwrap();
    if let Resource::Bookmark { id, attributes, relationships } = &b {
        assert_eq!(id.len(), 36);
        assert_eq!(attributes.url, "https://a.b");
        let refs = &relationships.as_ref().unwrap().tags.as_ref().unwrap().data;
        assert_eq!(refs.len(), 2);
        assert_eq!(refs[1].id, "t2");
        assert_eq!(refs[0].resource_type, "tag");
    } else {
        panic!("Expected bookmark");
    }
    let other = create_bookmark("https://a.b".to_string(), "T".to_string(), vec![]).unwrap();
    if let (Resource::Bookmark { id: a, relationships, .. }, Resource::Bookmark { id: c, .. }) = (&other, &b) {
        assert!(relationships.is_none());
        assert_ne!(a, c);
    }
    let t = create_tag("n".to_string(), None, Some("p".to_string())).unwrap();
    if let Resource::Tag { relationships, attributes, .. } = &t {
        assert_eq!(attributes.name, "n");
        let parent = relationships.as_ref().unwrap().parent.as_ref().unwrap().data.as_ref().unwrap();
        assert_eq!(parent.id, "p");
    } else {
        panic!("Expected tag");
    }
}

#[test]
fn commit_message_counts_bookmarks_and_tags() {
    let mut d = BookmarksData::new();
    d.add_bookmark(plain_bookmark("a", "https://a.b", "x")).unwrap();
    assert_eq!(d.commit_message(), "Update bookmarks: 1 bookmarks, 0 tags");
    d.add_tag(plain_tag("t", "t", None)).unwrap();
    d.add_bookmark(plain_bookmark("c", "https://a.b", "x")).unwrap();
    assert_eq!(d.commit_message(), "Update bookmarks: 2 bookmarks, 1 tags");
}

#[test]
fn decimal_rendering() {
    assert_eq!(decimal_string(0), "0");
    assert_eq!(decimal_string(7), "7");
    assert_eq!(decimal_string(10), "10");
    assert_eq!(decimal_string(1234567890), "1234567890");
    assert_eq!(decimal_string(usize::MAX), usize::MAX.to_string());
}
