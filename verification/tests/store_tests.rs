use wallabag::annotations::{Annotation, Range};
use wallabag::entry::Entry;
use wallabag::errors::DBClientError;
use wallabag::store::DB;
use wallabag::types::{Tag, ID};

fn entry(id: i64, updated_at: i64, tags: Vec<Tag>) -> Entry {
    Entry {
        id: ID(id),
        title: Some(format!("entry {}", id)),
        url: Some(format!("https://example.com/{}", id)),
        content: None,
        created_at: 1000,
        updated_at,
        is_archived: false,
        is_starred: false,
        is_public: false,
        domain_name: None,
        mimetype: None,
        language: None,
        reading_time: None,
        preview_picture: None,
        origin_url: None,
        published_at: None,
        published_by: None,
        starred_at: None,
        user_id: ID(1),
        user_email: None,
        user_name: None,
        tags,
        annotations: None,
    }
}

fn tag(id: i64, label: &str) -> Tag {
    Tag {
        id: ID(id),
        label: label.to_owned(),
        slug: label.to_owned(),
    }
}

fn annotation(id: i64, updated_at: i64, text: &str) -> Annotation {
    Annotation {
        id: ID(id),
        annotator_schema_version: "v1.0".to_owned(),
        created_at: 500,
        updated_at,
        quote: Some("quoted".to_owned()),
        ranges: vec![Range {
            start: Some("/p[1]".to_owned()),
            end: Some("/p[1]".to_owned()),
            start_offset: 0,
            end_offset: 4,
        }],
        text: text.to_owned(),
        user: None,
    }
}

#[test]
fn save_and_get_entry() {
    let mut db = DB::new();
    db.save_entry(entry(10, 7, vec![]));
    let got = db.get_entry(ID(10)).expect("entry saved");
    assert_eq!(got.id, ID(10));
    assert_eq!(got.updated_at, 7);
    assert_eq!(got.title.as_deref(), Some("entry 10"));
    assert!(db.get_entry(ID(11)).is_none());
}

#[test]
fn save_entry_is_an_upsert() {
    let mut db = DB::new();
    db.save_entry(entry(10, 1, vec![]));
    db.save_entry(entry(10, 2, vec![]));
    assert_eq!(db.get_all_entries().len(), 1);
    assert_eq!(db.get_entry(ID(10)).unwrap().updated_at, 2);
}

#[test]
fn tag_consistency_after_save_entry() {
    // The normalized link table must read back exactly the entry's
    // denormalized tag list.
    let mut db = DB::new();
    db.save_entry(entry(1, 1, vec![tag(100, "rust"), tag(200, "vim")]));
    let tags = db.get_tags_for_entry(ID(1));
    assert_eq!(tags.len(), 2);
    assert_eq!(tags[0].id, ID(100));
    assert_eq!(tags[0].label, "rust");
    assert_eq!(tags[1].id, ID(200));
    assert_eq!(tags[1].label, "vim");

    // Re-saving with a different tag list drops and rebuilds the links.
    db.save_entry(entry(1, 2, vec![tag(200, "vim")]));
    let tags = db.get_tags_for_entry(ID(1));
    assert_eq!(tags.len(), 1);
    assert_eq!(tags[0].id, ID(200));
}

#[test]
fn delete_unused_tags_removes_exactly_the_orphans() {
    let mut db = DB::new();
    db.save_entry(entry(1, 1, vec![tag(100, "keep")]));
    db.save_entry(entry(2, 1, vec![tag(300, "gone")]));
    // Dropping entry 2's links orphans tag 300.
    db.drop_tag_links_for_entry(ID(2));
    db.delete_unused_tags();
    let tags = db.get_tags();
    assert_eq!(tags.len(), 1);
    assert_eq!(tags[0].id, ID(100));
}

#[test]
fn delete_entry_cascades_and_is_idempotent() {
    let mut db = DB::new();
    db.save_entry(entry(1, 1, vec![tag(100, "t")]));
    db.save_annotation(annotation(50, 1, "note"), ID(1));
    db.save_annotation(annotation(51, 1, "other"), ID(2));
    db.delete_entry(ID(1));
    assert!(db.get_entry(ID(1)).is_none());
    assert!(db.get_annotation(ID(50)).is_none());
    assert!(db.get_annotation(ID(51)).is_some());
    assert_eq!(db.get_tags_for_entry(ID(1)).len(), 0);
    // Deleting a nonexistent id is not an error.
    db.delete_entry(ID(1));
    db.delete_entry(ID(77));
}

#[test]
fn annotations_by_id_and_since() {
    let mut db = DB::new();
    db.save_annotation(annotation(7, 10, "old"), ID(1));
    db.save_annotation(annotation(8, 20, "new"), ID(1));
    assert_eq!(db.get_annotation(ID(7)).unwrap().text, "old");
    let recent = db.get_annotations_since(15);
    assert_eq!(recent.len(), 1);
    assert_eq!(recent[0].id, ID(8));
    // Upsert by annotation id.
    db.save_annotation(annotation(7, 30, "edited"), ID(1));
    assert_eq!(db.get_annotation(ID(7)).unwrap().text, "edited");
    assert_eq!(db.get_all_annotation_ids().len(), 2);
    db.delete_annotation(ID(7));
    assert!(db.get_annotation(ID(7)).is_none());
}

#[test]
fn entries_since_filters_by_updated_at() {
    let mut db = DB::new();
    db.save_entry(entry(1, 10, vec![]));
    db.save_entry(entry(2, 20, vec![]));
    db.save_entry(entry(3, 30, vec![]));
    let recent = db.get_entries_since(20);
    assert_eq!(recent.len(), 2);
    assert_eq!(recent[0].id, ID(2));
    assert_eq!(recent[1].id, ID(3));
}

#[test]
fn init_fails_loudly_on_existing_store() {
    let mut db = DB::new();
    assert!(db.init().is_ok());
    assert_eq!(db.init(), Err(DBClientError::DBExists));
    // Reset recreates the schema destructively and leaves it initialized.
    db.save_entry(entry(1, 1, vec![]));
    db.reset();
    assert!(db.get_all_entries().is_empty());
    assert_eq!(db.get_last_sync(), 0);
    assert_eq!(db.init(), Err(DBClientError::DBExists));
}

#[test]
fn pending_queues_hold_their_records() {
    let mut db = DB::new();
    db.add_new_url("https://example.com/a".to_owned());
    db.add_new_url("https://example.com/b".to_owned());
    {
        let urls = db.get_new_urls();
        assert_eq!(urls.len(), 2);
        assert_eq!(urls[0].id, 1);
        assert_eq!(urls[0].url, "https://example.com/a");
        assert_eq!(urls[1].id, 2);
    }
    db.remove_new_url(1);
    {
        let urls = db.get_new_urls();
        assert_eq!(urls.len(), 1);
        assert_eq!(urls[0].id, 2);
    }

    db.add_delete_entry(ID(5));
    db.add_delete_entry(ID(5));
    assert_eq!(db.get_entry_deletes(), vec![ID(5)]);
    db.remove_delete_entry(ID(5));
    assert!(db.get_entry_deletes().is_empty());

    db.add_delete_annotation(ID(9));
    assert_eq!(db.get_annotation_deletes(), vec![ID(9)]);
    db.remove_delete_annotation(ID(9));
    assert!(db.get_annotation_deletes().is_empty());

    let payload = wallabag::annotations::NewAnnotation {
        quote: "q".to_owned(),
        ranges: vec![],
        text: "t".to_owned(),
    };
    db.add_new_annotation(ID(3), payload);
    {
        let rows = db.get_new_annotations();
        assert_eq!(rows.len(), 1);
        assert_eq!(rows[0].entry_id, ID(3));
        assert_eq!(rows[0].payload.text, "t");
    }
    db.remove_new_annotation(1);
    assert!(db.get_new_annotations().is_empty());
}

#[test]
fn watermark_is_read_back() {
    let mut db = DB::new();
    assert_eq!(db.get_last_sync(), 0);
    db.touch_last_sync(12345);
    assert_eq!(db.get_last_sync(), 12345);
}

#[test]
fn save_tag_and_link_by_hand() {
    let mut db = DB::new();
    db.save_entry(entry(1, 1, vec![]));
    let t = tag(100, "manual");
    db.save_tag(t.clone());
    db.save_tag_link(ID(1), &t);
    // A second identical link is not duplicated.
    db.save_tag_link(ID(1), &t);
    let tags = db.get_tags_for_entry(ID(1));
    assert_eq!(tags.len(), 1);
    assert_eq!(tags[0].label, "manual");
}
