use wallabag::endpoint::{next_page, EndPoint, UrlBuilder};
use wallabag::errors::{auth_error_of, classify_status, ClientError, ResponseError, ResponseKind, TagStringError};
use wallabag::strutil::{i64_to_string, str_contains, str_eq_nocase, u64_to_string, vec_to_str};
use wallabag::types::{EntriesFilter, Format, SortBy, SortOrder, TagString, ID};

#[test]
fn it_works() {
    assert_eq!(2 + 2, 4);
}

#[test]
fn entries_filter_init_test() {
    let filter = EntriesFilter {
        archive: None,
        starred: Some(true),
        sort: SortBy::Created,
        order: SortOrder::Desc,
        tags: vec![],
        since: 0,
        public: None,
    };
    assert_eq!(filter.since, 0);
}

#[test]
fn entries_filter_default_test() {
    let filter = EntriesFilter::default();
    assert_eq!(filter.since, 0);
    assert!(filter.archive.is_none());
    assert!(filter.starred.is_none());
    assert!(filter.public.is_none());
    assert!(filter.tags.is_empty());
    assert!(matches!(filter.sort, SortBy::Created));
    assert!(matches!(filter.order, SortOrder::Desc));
}

#[test]
fn test_create_format_from_str() {
    assert_eq!(Format::try_from("csv"), Some(Format::CSV));
    assert_eq!(Format::try_from("Csv"), Some(Format::CSV));
    assert_eq!(Format::try_from("EPUB"), Some(Format::EPUB));
    assert_eq!(Format::try_from("EPUB_"), None);
    assert_eq!(Format::try_from("wat"), None);
    assert_eq!(Format::try_from(""), None);
}

#[test]
fn format_as_str_round_trip() {
    let formats = vec![
        Format::XML,
        Format::JSON,
        Format::TXT,
        Format::CSV,
        Format::PDF,
        Format::EPUB,
        Format::MOBI,
    ];
    for f in formats {
        assert_eq!(Format::try_from(f.as_str()), Some(f));
    }
    assert_eq!(Format::JSON.as_str(), "json");
}

#[test]
fn test_build_token_url() {
    let builder = UrlBuilder::new("https://example.com".to_owned());
    assert_eq!(
        "https://example.com/oauth/v2/token",
        builder.build(EndPoint::Token)
    );
}

// The same check as `test_build_token_url`, under the name the utility
// module uses for it.
#[test]
fn utils_test_build_token_url() {
    let builder = UrlBuilder::new("https://example.com".to_owned());
    assert_eq!(
        "https://example.com/oauth/v2/token",
        builder.build(EndPoint::Token)
    );
}

#[test]
fn endpoint_paths_with_ids() {
    assert_eq!(EndPoint::Entry(ID(42)).to_path(), "/api/entries/42.json");
    assert_eq!(
        EndPoint::DeleteEntryTag(ID(3), ID(9)).to_path(),
        "/api/entries/3/tags/9.json"
    );
    assert_eq!(
        EndPoint::Export(ID(7), Format::EPUB).to_path(),
        "/api/entries/7/export.epub"
    );
    assert_eq!(
        EndPoint::Annotation(ID(-5)).to_path(),
        "/api/annotations/-5.json"
    );
    assert_eq!(EndPoint::Entries.to_path(), "/api/entries.json");
}

#[test]
fn test_flexible_id() {
    // An `ID` converts freely from either integer width, and hands its
    // integer back through `as_int`.
    assert_eq!(ID(234).as_int(), 234);
    assert_eq!(ID(234), 234i64.into());
    let from_small: ID = 234i32.into();
    assert_eq!(from_small, ID(234));
}

#[test]
fn tag_string_accepts_plain_labels() {
    let t = TagString::try_from("vim".to_owned()).unwrap();
    assert_eq!(t.as_str(), "vim");
    assert_eq!(t.into_string(), "vim");
}

#[test]
fn tag_string_rejects_commas() {
    let r = TagString::try_from("tag1,tag2".to_owned());
    assert!(matches!(r, Err(TagStringError::ContainsComma)));
}

#[test]
fn number_rendering() {
    assert_eq!(u64_to_string(0), "0");
    assert_eq!(u64_to_string(90210), "90210");
    assert_eq!(i64_to_string(-1), "-1");
    assert_eq!(i64_to_string(i64::MIN), "-9223372036854775808");
    assert_eq!(i64_to_string(i64::MAX), "9223372036854775807");
}

#[test]
fn join_tags_with_commas() {
    assert_eq!(vec_to_str(&vec![]), "");
    assert_eq!(vec_to_str(&vec!["a".to_owned()]), "a");
    assert_eq!(
        vec_to_str(&vec!["a".to_owned(), "b".to_owned(), "c".to_owned()]),
        "a,b,c"
    );
}

#[test]
fn case_insensitive_comparison() {
    assert!(str_eq_nocase("HeLLo", "hello"));
    assert!(!str_eq_nocase("hello", "hello!"));
    assert!(!str_eq_nocase("hell", "hello"));
}

#[test]
fn substring_search() {
    assert!(str_contains("The access token expired", "expired"));
    assert!(str_contains("abc", ""));
    assert!(!str_contains("ab", "abc"));
    assert!(!str_contains("token rotated", "expired"));
}

#[test]
fn response_status_classification() {
    assert_eq!(classify_status(200), ResponseKind::Success);
    assert_eq!(classify_status(204), ResponseKind::Success);
    assert_eq!(classify_status(401), ResponseKind::AuthFailure);
    assert_eq!(classify_status(403), ResponseKind::Forbidden);
    assert_eq!(classify_status(404), ResponseKind::NotFound);
    assert_eq!(classify_status(304), ResponseKind::NotModified);
    assert_eq!(classify_status(500), ResponseKind::Other);
}

#[test]
fn expired_tokens_are_told_apart() {
    let expired = auth_error_of(ResponseError {
        error: "invalid_grant".to_owned(),
        error_description: "The access token expired".to_owned(),
    });
    assert!(matches!(expired, ClientError::ExpiredToken));
    let other = auth_error_of(ResponseError {
        error: "invalid_grant".to_owned(),
        error_description: "Bad credentials".to_owned(),
    });
    assert!(matches!(other, ClientError::Unauthorized(_)));
}

#[test]
fn pagination_decision() {
    assert_eq!(next_page(1, 3), Some(2));
    assert_eq!(next_page(3, 3), None);
    assert_eq!(next_page(5, 3), None);
    assert_eq!(next_page(1, 1), None);
}

#[test]
fn patch_entry_default_changes_nothing() {
    let p = wallabag::entry::PatchEntry::default();
    assert!(p.title.is_none());
    assert!(p.tags.is_none());
    assert!(p.archive.is_none());
    assert!(p.starred.is_none());
    assert!(p.public.is_none());
    assert!(p.content.is_none());
    assert!(p.origin_url.is_none());
}
