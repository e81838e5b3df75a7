use wallabag::annotations::Annotation;
use wallabag::backend::Backend;
use wallabag::entry::Entry;
use wallabag::errors::{BackendError, SyncError};
use wallabag::resolver::{resolve_annotation, resolve_entry, ResolveAction};
use wallabag::store::DB;
use wallabag::sync::{RemoteAction, RemoteEvent, SyncSession};
use wallabag::types::{Tag, ID};

fn entry(id: i64, updated_at: i64) -> Entry {
    Entry {
        id: ID(id),
        title: Some(format!("entry {}", id)),
        url: Some(format!("https://example.com/{}", id)),
        content: None,
        created_at: 1,
        updated_at,
        is_archived: false,
        is_starred: false,
        is_public: false,
        domain_name: None,
        mimetype: None,
        language: None,
        reading_time: None,
        preview_picture: None,
        origin_url: None,
        published_at: None,
        published_by: None,
        starred_at: None,
        user_id: ID(1),
        user_email: None,
        user_name: None,
        tags: vec![],
        annotations: None,
    }
}

fn annotation(id: i64, updated_at: i64, text: &str) -> Annotation {
    Annotation {
        id: ID(id),
        annotator_schema_version: "v1.0".to_owned(),
        created_at: 1,
        updated_at,
        quote: None,
        ranges: vec![],
        text: text.to_owned(),
        user: None,
    }
}

/// Feed the session one event, then keep feeding `Proceed` until it asks
/// for actual remote work (or reports the run finished).
fn run_until_remote(s: &mut SyncSession, db: &mut DB, ev: RemoteEvent) -> RemoteAction {
    let mut ev = ev;
    loop {
        let a = s.step(db, ev).expect("session refused the event");
        match a {
            RemoteAction::Continue => {
                ev = RemoteEvent::Proceed;
            }
            other => return other,
        }
    }
}

#[test]
fn resolver_idempotence() {
    let e = entry(1, 100);
    assert_eq!(resolve_entry(Some(&e), &e), ResolveAction::NoOp);
    let older = entry(1, 50);
    assert_eq!(resolve_entry(Some(&older), &e), ResolveAction::Pull);
    assert_eq!(resolve_entry(Some(&e), &older), ResolveAction::Push);
    assert_eq!(resolve_entry(None, &e), ResolveAction::Pull);

    let a = annotation(5, 10, "x");
    assert_eq!(resolve_annotation(Some(&a), &a), ResolveAction::NoOp);
    let newer = annotation(5, 20, "y");
    assert_eq!(resolve_annotation(Some(&a), &newer), ResolveAction::Pull);
    assert_eq!(resolve_annotation(Some(&newer), &a), ResolveAction::Push);
}

#[test]
fn incremental_pull_overwrites_older_local() {
    // Local id=10 at T1; the remote copy at T2 > T1 wins and lands
    // locally, content and all.
    let mut db = DB::new();
    db.save_entry(entry(10, 100));

    let mut remote_entry = entry(10, 200);
    remote_entry.content = Some("fresh content".to_owned());

    let mut s = SyncSession::start(wallabag::sync::SyncMode::Normal);
    let a = run_until_remote(&mut s, &mut db, RemoteEvent::Proceed);
    match a {
        RemoteAction::ListEntries(f) => assert_eq!(f.since, 0),
        other => panic!("expected a listing request, got {:?}", other),
    }
    let a = run_until_remote(&mut s, &mut db, RemoteEvent::Entries(vec![remote_entry]));
    assert!(matches!(a, RemoteAction::ReadClock));
    let a = run_until_remote(&mut s, &mut db, RemoteEvent::Time(300));
    assert!(matches!(a, RemoteAction::Finished));
    assert!(s.is_done());

    let got = db.get_entry(ID(10)).unwrap();
    assert_eq!(got.updated_at, 200);
    assert_eq!(got.content.as_deref(), Some("fresh content"));
    assert_eq!(db.get_last_sync(), 300);
}

#[test]
fn equal_entries_still_reconcile_annotations() {
    // An entry equal on both sides is a no-op, but its embedded
    // annotations are still resolved on their own timestamps.
    let mut db = DB::new();
    db.save_entry(entry(10, 100));
    db.save_annotation(annotation(5, 10, "stale note"), ID(10));

    let mut remote_entry = entry(10, 100);
    remote_entry.annotations = Some(vec![annotation(5, 20, "newer note")]);

    let mut s = SyncSession::start(wallabag::sync::SyncMode::Normal);
    let a = run_until_remote(&mut s, &mut db, RemoteEvent::Proceed);
    assert!(matches!(a, RemoteAction::ListEntries(_)));
    let a = run_until_remote(&mut s, &mut db, RemoteEvent::Entries(vec![remote_entry]));
    assert!(matches!(a, RemoteAction::ReadClock));
    run_until_remote(&mut s, &mut db, RemoteEvent::Time(200));

    assert_eq!(db.get_annotation(ID(5)).unwrap().text, "newer note");
    // The entry itself kept its revision.
    assert_eq!(db.get_entry(ID(10)).unwrap().updated_at, 100);
}

#[test]
fn newer_local_entry_is_pushed_then_repulled() {
    let mut db = DB::new();
    let mut local = entry(10, 300);
    local.title = Some("local title".to_owned());
    db.save_entry(local);

    let mut s = SyncSession::start(wallabag::sync::SyncMode::Normal);
    let a = run_until_remote(&mut s, &mut db, RemoteEvent::Proceed);
    assert!(matches!(a, RemoteAction::ListEntries(_)));
    // The remote copy is older, so the session pushes the local state.
    let a = run_until_remote(&mut s, &mut db, RemoteEvent::Entries(vec![entry(10, 200)]));
    match a {
        RemoteAction::UpdateEntry(id, patch) => {
            assert_eq!(id, ID(10));
            assert_eq!(patch.title.as_deref(), Some("local title"));
            assert_eq!(patch.archive, Some(false));
        }
        other => panic!("expected a push, got {:?}", other),
    }
    // The server canonicalizes and answers with a newer revision, which
    // is pulled back in.
    let mut canonical = entry(10, 350);
    canonical.title = Some("canonical title".to_owned());
    let a = run_until_remote(&mut s, &mut db, RemoteEvent::Entry(canonical));
    assert!(matches!(a, RemoteAction::ReadClock));
    run_until_remote(&mut s, &mut db, RemoteEvent::Time(400));

    let got = db.get_entry(ID(10)).unwrap();
    assert_eq!(got.updated_at, 350);
    assert_eq!(got.title.as_deref(), Some("canonical title"));
}

#[test]
fn full_sync_detects_remote_deletions() {
    // Local ids {1,2,3}; the complete remote enumeration returns only
    // {1,3}: entity 2 goes, 1 and 3 stay untouched.
    let mut db = DB::new();
    db.save_entry(entry(1, 100));
    db.save_entry(entry(2, 100));
    db.save_entry(entry(3, 100));

    let mut s = SyncSession::start(wallabag::sync::SyncMode::Full);
    let a = run_until_remote(&mut s, &mut db, RemoteEvent::Proceed);
    assert!(matches!(a, RemoteAction::ListAllEntries));
    let a = run_until_remote(
        &mut s,
        &mut db,
        RemoteEvent::Entries(vec![entry(1, 100), entry(3, 100)]),
    );
    assert!(matches!(a, RemoteAction::ReadClock));
    run_until_remote(&mut s, &mut db, RemoteEvent::Time(500));

    assert!(db.get_entry(ID(2)).is_none());
    let e1 = db.get_entry(ID(1)).unwrap();
    assert_eq!(e1.updated_at, 100);
    assert_eq!(e1.title.as_deref(), Some("entry 1"));
    assert!(db.get_entry(ID(3)).is_some());
    assert_eq!(db.get_all_entries().len(), 2);
}

#[test]
fn full_sync_detects_remotely_deleted_annotations() {
    let mut db = DB::new();
    db.save_entry(entry(1, 100));
    db.save_annotation(annotation(5, 10, "kept"), ID(1));
    db.save_annotation(annotation(6, 10, "deleted remotely"), ID(1));

    let mut remote_entry = entry(1, 100);
    remote_entry.annotations = Some(vec![annotation(5, 10, "kept")]);

    let mut s = SyncSession::start(wallabag::sync::SyncMode::Full);
    let a = run_until_remote(&mut s, &mut db, RemoteEvent::Proceed);
    assert!(matches!(a, RemoteAction::ListAllEntries));
    let a = run_until_remote(&mut s, &mut db, RemoteEvent::Entries(vec![remote_entry]));
    assert!(matches!(a, RemoteAction::ReadClock));
    run_until_remote(&mut s, &mut db, RemoteEvent::Time(500));

    assert!(db.get_annotation(ID(5)).is_some());
    assert!(db.get_annotation(ID(6)).is_none());
}

#[test]
fn pending_deletes_survive_failure_and_retry() {
    // A pending record goes away only when the remote call succeeded; an
    // aborted run leaves it queued, and the retry re-attempts exactly
    // that record.
    let mut db = DB::new();
    db.add_delete_annotation(ID(7));
    db.add_delete_entry(ID(3));

    {
        let mut s1 = SyncSession::start(wallabag::sync::SyncMode::Normal);
        let a = s1.step(&mut db, RemoteEvent::Proceed).unwrap();
        assert!(matches!(a, RemoteAction::DeleteAnnotation(ID(7))));
        // The remote call fails: the session is dropped, nothing is fed
        // back.
    }
    assert_eq!(db.get_annotation_deletes(), vec![ID(7)]);
    assert_eq!(db.get_entry_deletes(), vec![ID(3)]);
    assert_eq!(db.get_last_sync(), 0);

    let mut s2 = SyncSession::start(wallabag::sync::SyncMode::Normal);
    let a = s2.step(&mut db, RemoteEvent::Proceed).unwrap();
    assert!(matches!(a, RemoteAction::DeleteAnnotation(ID(7))));
    let a = run_until_remote(&mut s2, &mut db, RemoteEvent::Ack);
    assert!(matches!(a, RemoteAction::DeleteEntry(ID(3))));
    let a = run_until_remote(&mut s2, &mut db, RemoteEvent::Ack);
    assert!(matches!(a, RemoteAction::ListEntries(_)));
    assert!(db.get_annotation_deletes().is_empty());
    assert!(db.get_entry_deletes().is_empty());
}

#[test]
fn pending_url_becomes_entry() {
    // A queued URL is created remotely; the returned entry lands in the
    // store and the queue record goes away.
    let mut backend = Backend::new();
    backend.add_url("https://example.com").unwrap();
    // The URL was validated and normalized on the way in.
    assert_eq!(backend.db.get_new_urls()[0].url, "https://example.com/");

    let mut s = backend.sync();
    let a = run_until_remote(&mut s, &mut backend.db, RemoteEvent::Proceed);
    assert!(matches!(a, RemoteAction::ListEntries(_)));
    let a = run_until_remote(&mut s, &mut backend.db, RemoteEvent::Entries(vec![]));
    match a {
        RemoteAction::CreateEntry(ne) => assert_eq!(ne.url, "https://example.com/"),
        other => panic!("expected a creation, got {:?}", other),
    }
    let a = run_until_remote(&mut s, &mut backend.db, RemoteEvent::Entry(entry(99, 400)));
    assert!(matches!(a, RemoteAction::ReadClock));
    run_until_remote(&mut s, &mut backend.db, RemoteEvent::Time(500));

    assert!(backend.db.get_entry(ID(99)).is_some());
    assert!(backend.db.get_new_urls().is_empty());
}

#[test]
fn pending_annotation_becomes_annotation() {
    let mut db = DB::new();
    db.save_entry(entry(3, 100));
    // The entry itself is older than the watermark, so only the queued
    // annotation is left to push.
    db.touch_last_sync(150);
    db.add_new_annotation(
        ID(3),
        wallabag::annotations::NewAnnotation {
            quote: "q".to_owned(),
            ranges: vec![],
            text: "note to create".to_owned(),
        },
    );

    let mut s = SyncSession::start(wallabag::sync::SyncMode::Normal);
    let a = run_until_remote(&mut s, &mut db, RemoteEvent::Proceed);
    assert!(matches!(a, RemoteAction::ListEntries(_)));
    let a = run_until_remote(&mut s, &mut db, RemoteEvent::Entries(vec![]));
    match a {
        RemoteAction::CreateAnnotation(eid, payload) => {
            assert_eq!(eid, ID(3));
            assert_eq!(payload.text, "note to create");
        }
        other => panic!("expected an annotation creation, got {:?}", other),
    }
    let a = run_until_remote(&mut s, &mut db, RemoteEvent::Ann(annotation(71, 200, "note to create")));
    assert!(matches!(a, RemoteAction::ReadClock));
    run_until_remote(&mut s, &mut db, RemoteEvent::Time(300));

    assert_eq!(db.get_annotation(ID(71)).unwrap().text, "note to create");
    assert!(db.get_new_annotations().is_empty());
}

#[test]
fn locally_changed_records_are_pushed() {
    // A local edit the incremental window did not surface remotely is
    // pushed, and the server's canonicalized response is pulled back in.
    let mut db = DB::new();
    db.save_entry(entry(20, 50));
    db.save_annotation(annotation(9, 40, "local note"), ID(20));
    db.touch_last_sync(10);

    let mut s = SyncSession::start(wallabag::sync::SyncMode::Normal);
    let a = run_until_remote(&mut s, &mut db, RemoteEvent::Proceed);
    match a {
        RemoteAction::ListEntries(f) => assert_eq!(f.since, 10),
        other => panic!("expected a listing request, got {:?}", other),
    }
    let a = run_until_remote(&mut s, &mut db, RemoteEvent::Entries(vec![]));
    match a {
        RemoteAction::UpdateEntry(id, _) => assert_eq!(id, ID(20)),
        other => panic!("expected an entry push, got {:?}", other),
    }
    let a = run_until_remote(&mut s, &mut db, RemoteEvent::Entry(entry(20, 60)));
    match a {
        RemoteAction::UpdateAnnotation(out) => assert_eq!(out.id, ID(9)),
        other => panic!("expected an annotation push, got {:?}", other),
    }
    let a = run_until_remote(
        &mut s,
        &mut db,
        RemoteEvent::Ann(annotation(9, 60, "canonical note")),
    );
    assert!(matches!(a, RemoteAction::ReadClock));
    run_until_remote(&mut s, &mut db, RemoteEvent::Time(70));

    // Each record was pushed once, and holds the canonicalized revision
    // the server answered with.
    assert_eq!(db.get_entry(ID(20)).unwrap().updated_at, 60);
    let ann = db.get_annotation(ID(9)).unwrap();
    assert_eq!(ann.updated_at, 60);
    assert_eq!(ann.text, "canonical note");
    // The saved response still belongs to the entry it was pushed for.
    let rows = db.get_annotations();
    let row = rows.iter().find(|r| r.ann.id == ID(9)).unwrap();
    assert_eq!(row.entry_id, ID(20));
}

#[test]
fn watermark_is_monotonic_across_runs() {
    let mut db = DB::new();
    for t in [100i64, 250i64] {
        let mut s = SyncSession::start(wallabag::sync::SyncMode::Normal);
        let a = run_until_remote(&mut s, &mut db, RemoteEvent::Proceed);
        assert!(matches!(a, RemoteAction::ListEntries(_)));
        let a = run_until_remote(&mut s, &mut db, RemoteEvent::Entries(vec![]));
        assert!(matches!(a, RemoteAction::ReadClock));
        run_until_remote(&mut s, &mut db, RemoteEvent::Time(t));
        assert_eq!(db.get_last_sync(), t);
    }

    // A run that aborts before the commit leaves the watermark alone.
    let mut s = SyncSession::start(wallabag::sync::SyncMode::Normal);
    let a = run_until_remote(&mut s, &mut db, RemoteEvent::Proceed);
    assert!(matches!(a, RemoteAction::ListEntries(_)));
    drop(s);
    assert_eq!(db.get_last_sync(), 250);
}

#[test]
fn unexpected_events_are_refused() {
    let mut db = DB::new();
    db.save_entry(entry(1, 1));
    let mut s = SyncSession::start(wallabag::sync::SyncMode::Normal);
    // The session starts by asking for pending deletions; a time event
    // is not what it waits for.
    let r = s.step(&mut db, RemoteEvent::Time(5));
    assert!(matches!(r, Err(SyncError::UnexpectedEvent)));
    assert_eq!(db.get_all_entries().len(), 1);
    assert_eq!(db.get_last_sync(), 0);
}

#[test]
fn orphaned_tags_are_collected_at_the_end_of_a_run() {
    let mut db = DB::new();
    let mut tagged = entry(1, 100);
    tagged.tags = vec![Tag {
        id: ID(77),
        label: "stale".to_owned(),
        slug: "stale".to_owned(),
    }];
    db.save_entry(tagged);
    assert_eq!(db.get_tags().len(), 1);

    // The remote copy of the entry lost its tag; pulling it rebuilds the
    // links, and the end-of-run collection drops the orphan.
    let mut s = SyncSession::start(wallabag::sync::SyncMode::Normal);
    let a = run_until_remote(&mut s, &mut db, RemoteEvent::Proceed);
    assert!(matches!(a, RemoteAction::ListEntries(_)));
    let a = run_until_remote(&mut s, &mut db, RemoteEvent::Entries(vec![entry(1, 200)]));
    assert!(matches!(a, RemoteAction::ReadClock));
    run_until_remote(&mut s, &mut db, RemoteEvent::Time(300));

    assert!(db.get_tags().is_empty());
    assert!(db.get_tags_for_entry(ID(1)).is_empty());
}

#[test]
fn invalid_urls_are_refused() {
    let mut backend = Backend::new();
    let r = backend.add_url("not a url at all");
    assert!(matches!(r, Err(BackendError::InvalidUrl)));
    assert!(backend.db.get_new_urls().is_empty());
}

#[test]
fn export_attaches_annotations() {
    let mut backend = Backend::new();
    backend.db.save_entry(entry(1, 100));
    backend.db.save_entry(entry(2, 100));
    backend.db.save_annotation(annotation(5, 10, "first"), ID(1));
    backend.db.save_annotation(annotation(6, 20, "second"), ID(1));

    let exported = backend.export();
    assert_eq!(exported.len(), 2);
    let e1 = exported.iter().find(|e| e.id == ID(1)).unwrap();
    let anns = e1.annotations.as_ref().unwrap();
    assert_eq!(anns.len(), 2);
    assert_eq!(anns[0].text, "first");
    assert_eq!(anns[1].text, "second");
    let e2 = exported.iter().find(|e| e.id == ID(2)).unwrap();
    assert_eq!(e2.annotations.as_ref().unwrap().len(), 0);
}
