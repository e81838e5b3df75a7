//! The local store: cached entries, annotations, tags and tag links,
//! the pending-change queues, and the sync watermark.
//!
//! Rows live in vectors with at most one row per key, exactly as the
//! relational tables they stand for.  Durable persistence is the caller's
//! business: a front end loads a store from disk, lets this module do every
//! read and write, and saves it back.

use vstd::prelude::*;

use crate::annotations::{Annotation, NewAnnotation};
use crate::entry::Entry;
use crate::errors::DBClientError;
use crate::table::{
    find_key, has_key, lemma_lookup_in, lemma_lookup_remove, lemma_lookup_unique, lookup,
    remove_key, unique_keys, upsert, Keyed,
};
use crate::types::{Tag, TagView, ID};

verus! {

broadcast use crate::table::lemma_vec_deep_view;

impl Keyed for Entry {
    open spec fn key(self) -> int {
        self.id.0 as int
    }

    fn exec_key(&self) -> (k: i64) {
        self.id.0
    }
}

impl Keyed for Tag {
    open spec fn key(self) -> int {
        self.id.0 as int
    }

    fn exec_key(&self) -> (k: i64) {
        self.id.0
    }
}

impl Keyed for ID {
    open spec fn key(self) -> int {
        self.0 as int
    }

    fn exec_key(&self) -> (k: i64) {
        self.0
    }
}

/// An annotation row: the annotation plus the id of the entry it belongs
/// to, which the payload itself does not carry.
#[derive(Debug)]
pub struct AnnotationRow {
    pub entry_id: ID,
    pub ann: Annotation,
}

impl Keyed for AnnotationRow {
    open spec fn key(self) -> int {
        self.ann.id.0 as int
    }

    fn exec_key(&self) -> (k: i64) {
        self.ann.id.0
    }
}

/// A link row tying one entry to one tag.
#[derive(Debug, Clone, Copy)]
pub struct TagLink {
    pub entry_id: ID,
    pub tag_id: ID,
}

/// A URL waiting to be created remotely, with its local queue id.
#[derive(Debug)]
pub struct NewUrl {
    /// Local auto-increment id of the queue record.
    pub id: i64,
    pub url: String,
}

impl Keyed for NewUrl {
    open spec fn key(self) -> int {
        self.id as int
    }

    fn exec_key(&self) -> (k: i64) {
        self.id
    }
}

/// An annotation waiting to be created remotely, with its local queue id
/// and the remote id of the entry it belongs to.
#[derive(Debug)]
pub struct NewAnnotationRow {
    /// Local auto-increment id of the queue record.
    pub id: i64,
    pub entry_id: ID,
    pub payload: NewAnnotation,
}

impl Keyed for NewAnnotationRow {
    open spec fn key(self) -> int {
        self.id as int
    }

    fn exec_key(&self) -> (k: i64) {
        self.id
    }
}

/// The tag ids linked to entry `eid`, in link-table order.
pub open spec fn links_of(s: Seq<TagLink>, eid: int) -> Seq<int>
    decreases s.len(),
{
    if s.len() == 0 {
        Seq::empty()
    } else if s.last().entry_id.0 as int == eid {
        links_of(s.drop_last(), eid).push(s.last().tag_id.0 as int)
    } else {
        links_of(s.drop_last(), eid)
    }
}

/// Whether the link table ties entry `eid` to tag `tid`.
pub open spec fn has_link(s: Seq<TagLink>, eid: int, tid: int) -> bool {
    exists|i: int|
        0 <= i < s.len() && s[i].entry_id.0 as int == eid && s[i].tag_id.0 as int == tid
}

/// Whether any entry links to tag `tid`.
pub open spec fn spec_tag_linked(s: Seq<TagLink>, tid: int) -> bool {
    exists|i: int| 0 <= i < s.len() && s[i].tag_id.0 as int == tid
}

/// The tags named by `tids`, looked up in the tag table; dangling ids are
/// skipped, as an inner join would.
pub open spec fn spec_tags_for(tids: Seq<int>, tags: Seq<Tag>) -> Seq<TagView>
    decreases tids.len(),
{
    if tids.len() == 0 {
        Seq::empty()
    } else {
        let rest = spec_tags_for(tids.drop_last(), tags);
        match lookup(tags, tids.last()) {
            Some(t) => rest.push(t@),
            None => rest,
        }
    }
}

/// Two tag tables that agree on every id in `tids` resolve `tids` to the
/// same tags.
pub proof fn lemma_tags_for_agree(tids: Seq<int>, t1: Seq<Tag>, t2: Seq<Tag>)
    requires
        forall|j: int| 0 <= j < tids.len() ==> lookup(t1, tids[j]) == lookup(t2, tids[j]),
    ensures
        spec_tags_for(tids, t1) == spec_tags_for(tids, t2),
    decreases tids.len(),
{
    if tids.len() > 0 {
        assert(forall|j: int| 0 <= j < tids.drop_last().len() ==> tids.drop_last()[j] == tids[j]);
        lemma_tags_for_agree(tids.drop_last(), t1, t2);
    }
}

/// The ids of the given tags, in order.
pub open spec fn spec_tag_ids(tags: Seq<TagView>) -> Seq<int> {
    tags.map_values(|t: TagView| t.id)
}

/// How a tag list's id sequence lines up with the tags.
pub proof fn lemma_tag_ids_index(tv: Seq<TagView>, i: int)
    requires
        0 <= i < tv.len(),
    ensures
        spec_tag_ids(tv).len() == tv.len(),
        spec_tag_ids(tv)[i] == tv[i].id,
{
}

/// No two of the given tags share an id.
pub open spec fn spec_unique_tag_ids(tags: Seq<TagView>) -> bool {
    forall|i: int, j: int| 0 <= i < j < tags.len() ==> tags[i].id != tags[j].id
}

/// The ids of the entries in a table, in order.
pub open spec fn spec_ids_of_entries(s: Seq<Entry>) -> Seq<ID> {
    s.map_values(|e: Entry| e.id)
}

/// The ids of the annotations in a table, in order.
pub open spec fn spec_ids_of_annotations(s: Seq<AnnotationRow>) -> Seq<ID> {
    s.map_values(|r: AnnotationRow| r.ann.id)
}

/// The entries of `s` with `updated_at` at or after `since`, in order.
pub open spec fn spec_entries_since(s: Seq<Entry>, since: i64) -> Seq<Entry>
    decreases s.len(),
{
    if s.len() == 0 {
        Seq::empty()
    } else if s.last().updated_at >= since {
        spec_entries_since(s.drop_last(), since).push(s.last())
    } else {
        spec_entries_since(s.drop_last(), since)
    }
}

/// The annotation rows of `s` with `updated_at` at or after `since`.
pub open spec fn spec_annotations_since(s: Seq<AnnotationRow>, since: i64) -> Seq<AnnotationRow>
    decreases s.len(),
{
    if s.len() == 0 {
        Seq::empty()
    } else if s.last().ann.updated_at >= since {
        spec_annotations_since(s.drop_last(), since).push(s.last())
    } else {
        spec_annotations_since(s.drop_last(), since)
    }
}

/// The local store. One instance stands for one database file.
#[derive(Debug)]
pub struct DB {
    entries: Vec<Entry>,
    annotations: Vec<AnnotationRow>,
    tags: Vec<Tag>,
    tag_links: Vec<TagLink>,
    new_urls: Vec<NewUrl>,
    new_annotations: Vec<NewAnnotationRow>,
    entry_deletes: Vec<ID>,
    annotation_deletes: Vec<ID>,
    last_sync: i64,
    next_url_id: i64,
    next_new_annotation_id: i64,
    initialized: bool,
}

impl DB {
    /// The entry table.
    pub closed spec fn entries_seq(self) -> Seq<Entry> {
        self.entries@
    }

    /// The annotation table.
    pub closed spec fn annotations_seq(self) -> Seq<AnnotationRow> {
        self.annotations@
    }

    /// The normalized tag table.
    pub closed spec fn tags_seq(self) -> Seq<Tag> {
        self.tags@
    }

    /// The tag link table.
    pub closed spec fn links_seq(self) -> Seq<TagLink> {
        self.tag_links@
    }

    /// The queue of URLs waiting to be created remotely.
    pub closed spec fn new_urls_seq(self) -> Seq<NewUrl> {
        self.new_urls@
    }

    /// The queue of annotations waiting to be created remotely.
    pub closed spec fn new_annotations_seq(self) -> Seq<NewAnnotationRow> {
        self.new_annotations@
    }

    /// The queue of entry deletions waiting to be confirmed remotely.
    pub closed spec fn entry_deletes_seq(self) -> Seq<ID> {
        self.entry_deletes@
    }

    /// The queue of annotation deletions waiting to be confirmed remotely.
    pub closed spec fn annotation_deletes_seq(self) -> Seq<ID> {
        self.annotation_deletes@
    }

    /// The sync watermark: the instant below which the local copy is
    /// assumed consistent with the remote store.
    pub closed spec fn spec_last_sync(self) -> i64 {
        self.last_sync
    }

    /// The queue id the next new URL will receive.
    pub closed spec fn spec_next_url_id(self) -> i64 {
        self.next_url_id
    }

    /// The queue id the next new annotation will receive.
    pub closed spec fn spec_next_new_annotation_id(self) -> i64 {
        self.next_new_annotation_id
    }

    /// Whether the schema has been created.
    pub closed spec fn spec_initialized(self) -> bool {
        self.initialized
    }

    /// The store's structural invariant: every table keyed at most once,
    /// queue ids below their counters, and entry rows never embedding
    /// annotations (those live in their own table).
    pub open spec fn wf(self) -> bool {
        &&& unique_keys(self.entries_seq())
        &&& unique_keys(self.annotations_seq())
        &&& unique_keys(self.tags_seq())
        &&& unique_keys(self.new_urls_seq())
        &&& unique_keys(self.new_annotations_seq())
        &&& unique_keys(self.entry_deletes_seq())
        &&& unique_keys(self.annotation_deletes_seq())
        &&& forall|i: int|
            0 <= i < self.new_urls_seq().len() ==> self.new_urls_seq()[i].id
                < self.spec_next_url_id()
        &&& forall|i: int|
            0 <= i < self.new_annotations_seq().len() ==> self.new_annotations_seq()[i].id
                < self.spec_next_new_annotation_id()
        &&& forall|k: int|
            #[trigger] lookup(self.entries_seq(), k) is Some ==> lookup(
                self.entries_seq(),
                k,
            ).unwrap().annotations is None
    }

    /// Whether the entry tables agree between two store values.
    pub open spec fn entries_same(a: DB, b: DB) -> bool {
        a.entries_seq() == b.entries_seq()
    }

    /// Whether the annotation tables agree between two store values.
    pub open spec fn annotations_same(a: DB, b: DB) -> bool {
        a.annotations_seq() == b.annotations_seq()
    }

    /// Whether tag and link tables agree between two store values.
    pub open spec fn tags_same(a: DB, b: DB) -> bool {
        a.tags_seq() == b.tags_seq() && a.links_seq() == b.links_seq()
    }

    /// Whether all four pending-change queues agree between two store
    /// values.
    pub open spec fn queues_same(a: DB, b: DB) -> bool {
        &&& a.new_urls_seq() == b.new_urls_seq()
        &&& a.new_annotations_seq() == b.new_annotations_seq()
        &&& a.entry_deletes_seq() == b.entry_deletes_seq()
        &&& a.annotation_deletes_seq() == b.annotation_deletes_seq()
        &&& a.spec_next_url_id() == b.spec_next_url_id()
        &&& a.spec_next_new_annotation_id() == b.spec_next_new_annotation_id()
    }

    /// Whether watermark and initialization flag agree between two store
    /// values.
    pub open spec fn meta_same(a: DB, b: DB) -> bool {
        a.spec_last_sync() == b.spec_last_sync() && a.spec_initialized() == b.spec_initialized()
    }

    /// A fresh, empty, uninitialized store.
    pub fn new() -> (r: DB)
        ensures
            r.wf(),
            r.entries_seq().len() == 0,
            r.annotations_seq().len() == 0,
            r.tags_seq().len() == 0,
            r.links_seq().len() == 0,
            r.new_urls_seq().len() == 0,
            r.new_annotations_seq().len() == 0,
            r.entry_deletes_seq().len() == 0,
            r.annotation_deletes_seq().len() == 0,
            r.spec_last_sync() == 0,
            r.spec_next_url_id() == 1,
            r.spec_next_new_annotation_id() == 1,
            !r.spec_initialized(),
    {
        DB {
            entries: Vec::new(),
            annotations: Vec::new(),
            tags: Vec::new(),
            tag_links: Vec::new(),
            new_urls: Vec::new(),
            new_annotations: Vec::new(),
            entry_deletes: Vec::new(),
            annotation_deletes: Vec::new(),
            last_sync: 0,
            next_url_id: 1,
            next_new_annotation_id: 1,
            initialized: false,
        }
    }

    /// Create the schema of a fresh store; fail loudly if it already
    /// exists, so that data is never silently lost.
    pub fn init(&mut self) -> (r: Result<(), DBClientError>)
        ensures
            final(self).wf() == old(self).wf(),
            DB::entries_same(*old(self), *final(self)),
            DB::annotations_same(*old(self), *final(self)),
            DB::tags_same(*old(self), *final(self)),
            DB::queues_same(*old(self), *final(self)),
            final(self).spec_last_sync() == old(self).spec_last_sync(),
            match r {
                Ok(()) => !old(self).spec_initialized() && final(self).spec_initialized(),
                Err(e) => old(self).spec_initialized() && e == DBClientError::DBExists
                    && final(self).spec_initialized(),
            },
    {
        if self.initialized {
            Err(DBClientError::DBExists)
        } else {
            self.initialized = true;
            Ok(())
        }
    }

    /// Reset the store to a clean, initialized state. All data is lost.
    pub fn reset(&mut self)
        ensures
            final(self).wf(),
            final(self).entries_seq().len() == 0,
            final(self).annotations_seq().len() == 0,
            final(self).tags_seq().len() == 0,
            final(self).links_seq().len() == 0,
            final(self).new_urls_seq().len() == 0,
            final(self).new_annotations_seq().len() == 0,
            final(self).entry_deletes_seq().len() == 0,
            final(self).annotation_deletes_seq().len() == 0,
            final(self).spec_last_sync() == 0,
            final(self).spec_initialized(),
    {
        let mut fresh = DB::new();
        fresh.initialized = true;
        *self = fresh;
    }

    /// The sync watermark.
    pub fn get_last_sync(&self) -> (r: i64)
        ensures
            r == self.spec_last_sync(),
    {
        self.last_sync
    }

    /// Set the watermark to the given instant, `now` at the end of a
    /// successful sync run. Nothing else changes.
    pub fn touch_last_sync(&mut self, now: i64)
        ensures
            final(self).spec_last_sync() == now,
            final(self).wf() == old(self).wf(),
            DB::entries_same(*old(self), *final(self)),
            DB::annotations_same(*old(self), *final(self)),
            DB::tags_same(*old(self), *final(self)),
            DB::queues_same(*old(self), *final(self)),
            final(self).spec_initialized() == old(self).spec_initialized(),
    {
        self.last_sync = now;
    }

    /// Look an entry up by id.
    pub fn get_entry(&self, id: ID) -> (r: Option<&Entry>)
        ensures
            match r {
                Some(e) => lookup(self.entries_seq(), id.0 as int) == Some(*e),
                None => lookup(self.entries_seq(), id.0 as int) is None,
            },
    {
        match find_key(&self.entries, id.0) {
            Some(i) => Some(&self.entries[i]),
            None => None,
        }
    }

    /// All cached entries, in table order.
    pub fn get_all_entries(&self) -> (r: &Vec<Entry>)
        ensures
            r@ == self.entries_seq(),
    {
        &self.entries
    }

    /// The ids of all cached entries, in table order.
    pub fn get_all_entry_ids(&self) -> (r: Vec<ID>)
        ensures
            r@ == spec_ids_of_entries(self.entries_seq()),
    {
        let mut r: Vec<ID> = Vec::new();
        let mut i: usize = 0;
        while i < self.entries.len()
            invariant
                i <= self.entries@.len(),
                r@ == spec_ids_of_entries(self.entries@.take(i as int)),
            decreases self.entries@.len() - i,
        {
            r.push(self.entries[i].id);
            proof {
                assert(r@ =~= spec_ids_of_entries(self.entries@.take(i + 1)));
            }
            i = i + 1;
        }
        proof {
            assert(self.entries@.take(self.entries@.len() as int) =~= self.entries@);
        }
        r
    }

    /// All entries with `updated_at` at or after `since`, in table order.
    pub fn get_entries_since(&self, since: i64) -> (r: Vec<&Entry>)
        ensures
            r@.len() == spec_entries_since(self.entries_seq(), since).len(),
            forall|j: int|
                0 <= j < r@.len() ==> *r@[j] == spec_entries_since(self.entries_seq(), since)[j],
    {
        let mut r: Vec<&Entry> = Vec::new();
        let mut i: usize = 0;
        while i < self.entries.len()
            invariant
                i <= self.entries@.len(),
                r@.len() == spec_entries_since(self.entries@.take(i as int), since).len(),
                forall|j: int|
                    0 <= j < r@.len() ==> *r@[j] == spec_entries_since(
                        self.entries@.take(i as int),
                        since,
                    )[j],
            decreases self.entries@.len() - i,
        {
            proof {
                assert(self.entries@.take(i + 1).drop_last() =~= self.entries@.take(i as int));
            }
            if self.entries[i].updated_at >= since {
                r.push(&self.entries[i]);
            }
            i = i + 1;
        }
        proof {
            assert(self.entries@.take(self.entries@.len() as int) =~= self.entries@);
        }
        r
    }

    /// Upsert an entry by id: store the row (without any embedded
    /// annotations), rewrite its denormalized tag list, and drop and
    /// rebuild its normalized tag rows and links, keeping the two
    /// representations consistent.
    pub fn save_entry(&mut self, e: Entry)
        requires
            old(self).wf(),
        ensures
            final(self).wf(),
            lookup(final(self).entries_seq(), e@.id) == Some((Entry { annotations: None, ..e })),
            forall|k: int|
                k != e@.id ==> lookup(final(self).entries_seq(), k) == lookup(
                    old(self).entries_seq(),
                    k,
                ),
            links_of(final(self).links_seq(), e@.id) == spec_tag_ids(e@.tags),
            forall|eid: int|
                eid != e@.id ==> links_of(final(self).links_seq(), eid) == links_of(
                    old(self).links_seq(),
                    eid,
                ),
            forall|k: int|
                !spec_tag_ids(e@.tags).contains(k) ==> lookup(final(self).tags_seq(), k) == lookup(
                    old(self).tags_seq(),
                    k,
                ),
            spec_unique_tag_ids(e@.tags) ==> spec_tags_for(
                links_of(final(self).links_seq(), e@.id),
                final(self).tags_seq(),
            ) == e@.tags,
            DB::annotations_same(*old(self), *final(self)),
            DB::queues_same(*old(self), *final(self)),
            final(self).spec_last_sync() == old(self).spec_last_sync(),
            final(self).spec_initialized() == old(self).spec_initialized(),
    {
        let id = e.id;
        let mut row = e;
        row.annotations = None;
        let tags_copy = crate::entry::clone_tags(&row.tags);
        proof {
            assert(tags_copy.deep_view() == e@.tags);
        }
        upsert(&mut self.entries, row);
        remove_links_for(&mut self.tag_links, id);
        rebuild_tag_rows(&mut self.tags, &mut self.tag_links, id, tags_copy);
        proof {
            assert forall|k: int| #[trigger]
                lookup(self.entries_seq(), k) is Some implies lookup(
                self.entries_seq(),
                k,
            ).unwrap().annotations is None by {
                if k != e@.id {
                    assert(lookup(self.entries_seq(), k) == lookup(old(self).entries_seq(), k));
                }
            }
        }
    }

    /// Remove an entry and, as the relational schema's foreign keys
    /// cascade, its tag links and its annotations. Idempotent: removing an
    /// absent id changes nothing.
    pub fn delete_entry(&mut self, id: ID)
        requires
            old(self).wf(),
        ensures
            final(self).wf(),
            lookup(final(self).entries_seq(), id.0 as int) is None,
            forall|k: int|
                k != id.0 as int ==> lookup(final(self).entries_seq(), k) == lookup(
                    old(self).entries_seq(),
                    k,
                ),
            links_of(final(self).links_seq(), id.0 as int) == Seq::<int>::empty(),
            forall|eid: int|
                eid != id.0 as int ==> links_of(final(self).links_seq(), eid) == links_of(
                    old(self).links_seq(),
                    eid,
                ),
            forall|k: int|
                lookup(final(self).annotations_seq(), k) == (match lookup(
                    old(self).annotations_seq(),
                    k,
                ) {
                    Some(r) => if r.entry_id.0 == id.0 {
                        None
                    } else {
                        Some(r)
                    },
                    None => None,
                }),
            final(self).tags_seq() == old(self).tags_seq(),
            DB::queues_same(*old(self), *final(self)),
            final(self).spec_last_sync() == old(self).spec_last_sync(),
            final(self).spec_initialized() == old(self).spec_initialized(),
    {
        remove_key(&mut self.entries, id.0);
        remove_links_for(&mut self.tag_links, id);
        purge_annotations_of(&mut self.annotations, id);
        proof {
            assert forall|k: int| #[trigger]
                lookup(self.entries_seq(), k) is Some implies lookup(
                self.entries_seq(),
                k,
            ).unwrap().annotations is None by {
                if k != id.0 as int {
                    assert(lookup(self.entries_seq(), k) == lookup(old(self).entries_seq(), k));
                }
            }
        }
    }

    /// Look an annotation up by id.
    pub fn get_annotation(&self, id: ID) -> (r: Option<&Annotation>)
        ensures
            match r {
                Some(a) => lookup(self.annotations_seq(), id.0 as int) matches Some(row)
                    && row.ann == *a,
                None => lookup(self.annotations_seq(), id.0 as int) is None,
            },
    {
        match find_key(&self.annotations, id.0) {
            Some(i) => Some(&self.annotations[i].ann),
            None => None,
        }
    }

    /// All annotation rows, each with the id of its entry.
    pub fn get_annotations(&self) -> (r: &Vec<AnnotationRow>)
        ensures
            r@ == self.annotations_seq(),
    {
        &self.annotations
    }

    /// The ids of all annotations, in table order.
    pub fn get_all_annotation_ids(&self) -> (r: Vec<ID>)
        ensures
            r@ == spec_ids_of_annotations(self.annotations_seq()),
    {
        let mut r: Vec<ID> = Vec::new();
        let mut i: usize = 0;
        while i < self.annotations.len()
            invariant
                i <= self.annotations@.len(),
                r@ == spec_ids_of_annotations(self.annotations@.take(i as int)),
            decreases self.annotations@.len() - i,
        {
            r.push(self.annotations[i].ann.id);
            proof {
                assert(r@ =~= spec_ids_of_annotations(self.annotations@.take(i + 1)));
            }
            i = i + 1;
        }
        proof {
            assert(self.annotations@.take(self.annotations@.len() as int) =~= self.annotations@);
        }
        r
    }

    /// All annotations with `updated_at` at or after `since`.
    pub fn get_annotations_since(&self, since: i64) -> (r: Vec<&Annotation>)
        ensures
            r@.len() == spec_annotations_since(self.annotations_seq(), since).len(),
            forall|j: int|
                0 <= j < r@.len() ==> *r@[j] == spec_annotations_since(
                    self.annotations_seq(),
                    since,
                )[j].ann,
    {
        let mut r: Vec<&Annotation> = Vec::new();
        let mut i: usize = 0;
        while i < self.annotations.len()
            invariant
                i <= self.annotations@.len(),
                r@.len() == spec_annotations_since(self.annotations@.take(i as int), since).len(),
                forall|j: int|
                    0 <= j < r@.len() ==> *r@[j] == spec_annotations_since(
                        self.annotations@.take(i as int),
                        since,
                    )[j].ann,
            decreases self.annotations@.len() - i,
        {
            proof {
                assert(self.annotations@.take(i + 1).drop_last() =~= self.annotations@.take(
                    i as int,
                ));
            }
            if self.annotations[i].ann.updated_at >= since {
                r.push(&self.annotations[i].ann);
            }
            i = i + 1;
        }
        proof {
            assert(self.annotations@.take(self.annotations@.len() as int) =~= self.annotations@);
        }
        r
    }

    /// Upsert an annotation by id, under the entry the caller names.
    pub fn save_annotation(&mut self, ann: Annotation, entry_id: ID)
        requires
            old(self).wf(),
        ensures
            final(self).wf(),
            lookup(final(self).annotations_seq(), ann@.id) == Some(
                (AnnotationRow { entry_id, ann }),
            ),
            forall|k: int|
                k != ann@.id ==> lookup(final(self).annotations_seq(), k) == lookup(
                    old(self).annotations_seq(),
                    k,
                ),
            DB::entries_same(*old(self), *final(self)),
            DB::tags_same(*old(self), *final(self)),
            DB::queues_same(*old(self), *final(self)),
            final(self).spec_last_sync() == old(self).spec_last_sync(),
            final(self).spec_initialized() == old(self).spec_initialized(),
    {
        upsert(&mut self.annotations, AnnotationRow { entry_id, ann });
    }

    /// Remove an annotation by id. Idempotent.
    pub fn delete_annotation(&mut self, id: ID)
        requires
            old(self).wf(),
        ensures
            final(self).wf(),
            lookup(final(self).annotations_seq(), id.0 as int) is None,
            forall|k: int|
                k != id.0 as int ==> lookup(final(self).annotations_seq(), k) == lookup(
                    old(self).annotations_seq(),
                    k,
                ),
            DB::entries_same(*old(self), *final(self)),
            DB::tags_same(*old(self), *final(self)),
            DB::queues_same(*old(self), *final(self)),
            final(self).spec_last_sync() == old(self).spec_last_sync(),
            final(self).spec_initialized() == old(self).spec_initialized(),
    {
        remove_key(&mut self.annotations, id.0);
    }

    /// All tags in the normalized tag table.
    pub fn get_tags(&self) -> (r: &Vec<Tag>)
        ensures
            r@ == self.tags_seq(),
    {
        &self.tags
    }

    /// Upsert a tag by id.
    pub fn save_tag(&mut self, tag: Tag)
        requires
            old(self).wf(),
        ensures
            final(self).wf(),
            lookup(final(self).tags_seq(), tag@.id) == Some(tag),
            forall|k: int|
                k != tag@.id ==> lookup(final(self).tags_seq(), k) == lookup(
                    old(self).tags_seq(),
                    k,
                ),
            final(self).links_seq() == old(self).links_seq(),
            DB::entries_same(*old(self), *final(self)),
            DB::annotations_same(*old(self), *final(self)),
            DB::queues_same(*old(self), *final(self)),
            final(self).spec_last_sync() == old(self).spec_last_sync(),
            final(self).spec_initialized() == old(self).spec_initialized(),
    {
        upsert(&mut self.tags, tag);
    }

    /// Tie an entry to a tag, unless that link already exists.
    pub fn save_tag_link(&mut self, entry_id: ID, tag: &Tag)
        requires
            old(self).wf(),
        ensures
            final(self).wf(),
            has_link(final(self).links_seq(), entry_id.0 as int, tag@.id),
            if has_link(old(self).links_seq(), entry_id.0 as int, tag@.id) {
                final(self).links_seq() == old(self).links_seq()
            } else {
                final(self).links_seq() == old(self).links_seq().push(
                    (TagLink { entry_id, tag_id: tag.id }),
                )
            },
            final(self).tags_seq() == old(self).tags_seq(),
            DB::entries_same(*old(self), *final(self)),
            DB::annotations_same(*old(self), *final(self)),
            DB::queues_same(*old(self), *final(self)),
            final(self).spec_last_sync() == old(self).spec_last_sync(),
            final(self).spec_initialized() == old(self).spec_initialized(),
    {
        if !link_exists(&self.tag_links, entry_id, tag.id) {
            self.tag_links.push(TagLink { entry_id, tag_id: tag.id });
            proof {
                let s = self.tag_links@;
                assert(s[s.len() - 1].entry_id.0 as int == entry_id.0 as int && s[s.len()
                    - 1].tag_id.0 as int == tag@.id);
            }
        }
    }

    /// Drop every tag link of the given entry.
    pub fn drop_tag_links_for_entry(&mut self, entry_id: ID)
        requires
            old(self).wf(),
        ensures
            final(self).wf(),
            links_of(final(self).links_seq(), entry_id.0 as int) == Seq::<int>::empty(),
            forall|k: int|
                k != entry_id.0 as int ==> links_of(final(self).links_seq(), k) == links_of(
                    old(self).links_seq(),
                    k,
                ),
            final(self).tags_seq() == old(self).tags_seq(),
            DB::entries_same(*old(self), *final(self)),
            DB::annotations_same(*old(self), *final(self)),
            DB::queues_same(*old(self), *final(self)),
            final(self).spec_last_sync() == old(self).spec_last_sync(),
            final(self).spec_initialized() == old(self).spec_initialized(),
    {
        remove_links_for(&mut self.tag_links, entry_id);
    }

    /// The tags of an entry, read back through the normalized link table.
    pub fn get_tags_for_entry(&self, id: ID) -> (r: Vec<Tag>)
        ensures
            r.deep_view() == spec_tags_for(
                links_of(self.links_seq(), id.0 as int),
                self.tags_seq(),
            ),
    {
        let mut r: Vec<Tag> = Vec::new();
        let mut i: usize = 0;
        while i < self.tag_links.len()
            invariant
                i <= self.tag_links@.len(),
                r.deep_view() == spec_tags_for(
                    links_of(self.tag_links@.take(i as int), id.0 as int),
                    self.tags@,
                ),
            decreases self.tag_links@.len() - i,
        {
            let ghost pre = self.tag_links@.take(i as int);
            let ghost cur = self.tag_links@.take(i + 1);
            proof {
                assert(cur.drop_last() =~= pre);
                assert(cur.last() == self.tag_links@[i as int]);
            }
            let l = self.tag_links[i];
            if l.entry_id.0 == id.0 {
                let ghost tids = links_of(cur, id.0 as int);
                proof {
                    assert(tids == links_of(pre, id.0 as int).push(l.tag_id.0 as int));
                    assert(tids.drop_last() =~= links_of(pre, id.0 as int));
                }
                match find_key(&self.tags, l.tag_id.0) {
                    Some(j) => {
                        let t = self.tags[j].clone();
                        r.push(t);
                        proof {
                            assert(r.deep_view() =~= spec_tags_for(tids, self.tags@));
                        }
                    },
                    None => {
                        proof {
                            assert(r.deep_view() =~= spec_tags_for(tids, self.tags@));
                        }
                    },
                }
            } else {
                proof {
                    assert(links_of(cur, id.0 as int) == links_of(pre, id.0 as int));
                }
            }
            i = i + 1;
        }
        proof {
            assert(self.tag_links@.take(self.tag_links@.len() as int) =~= self.tag_links@);
        }
        r
    }

    /// Purge every tag that no entry links to.
    pub fn delete_unused_tags(&mut self)
        requires
            old(self).wf(),
        ensures
            final(self).wf(),
            forall|k: int|
                lookup(final(self).tags_seq(), k) == (if spec_tag_linked(
                    old(self).links_seq(),
                    k,
                ) {
                    lookup(old(self).tags_seq(), k)
                } else {
                    None
                }),
            final(self).links_seq() == old(self).links_seq(),
            DB::entries_same(*old(self), *final(self)),
            DB::annotations_same(*old(self), *final(self)),
            DB::queues_same(*old(self), *final(self)),
            final(self).spec_last_sync() == old(self).spec_last_sync(),
            final(self).spec_initialized() == old(self).spec_initialized(),
    {
        purge_unlinked_tags(&mut self.tags, &self.tag_links);
    }

    /// Whether another URL can still be queued (the local id counter
    /// has room). A caller outside verified code tests this before
    /// queueing.
    pub fn can_queue_url(&self) -> (r: bool)
        ensures
            r == (self.spec_next_url_id() < i64::MAX),
    {
        self.next_url_id < i64::MAX
    }

    /// Whether another annotation can still be queued.
    pub fn can_queue_annotation(&self) -> (r: bool)
        ensures
            r == (self.spec_next_new_annotation_id() < i64::MAX),
    {
        self.next_new_annotation_id < i64::MAX
    }

    /// Queue a URL for remote creation at the next sync.
    pub fn add_new_url(&mut self, url: String)
        requires
            old(self).wf(),
            old(self).spec_next_url_id() < i64::MAX,
        ensures
            final(self).wf(),
            final(self).new_urls_seq() == old(self).new_urls_seq().push(
                (NewUrl { id: old(self).spec_next_url_id(), url }),
            ),
            final(self).spec_next_url_id() == old(self).spec_next_url_id() + 1,
            final(self).new_annotations_seq() == old(self).new_annotations_seq(),
            final(self).spec_next_new_annotation_id() == old(self).spec_next_new_annotation_id(),
            final(self).entry_deletes_seq() == old(self).entry_deletes_seq(),
            final(self).annotation_deletes_seq() == old(self).annotation_deletes_seq(),
            DB::entries_same(*old(self), *final(self)),
            DB::annotations_same(*old(self), *final(self)),
            DB::tags_same(*old(self), *final(self)),
            final(self).spec_last_sync() == old(self).spec_last_sync(),
            final(self).spec_initialized() == old(self).spec_initialized(),
    {
        let id = self.next_url_id;
        self.next_url_id = self.next_url_id + 1;
        self.new_urls.push(NewUrl { id, url });
        proof {
            let s = self.new_urls@;
            assert forall|i: int, j: int| 0 <= i < j < s.len() implies s[i].key()
                != s[j].key() by {
                if j < s.len() - 1 {
                    assert(s[i] == old(self).new_urls_seq()[i]);
                    assert(s[j] == old(self).new_urls_seq()[j]);
                } else {
                    assert(s[i] == old(self).new_urls_seq()[i]);
                }
            }
        }
    }

    /// The queued URLs, oldest first.
    pub fn get_new_urls(&self) -> (r: &Vec<NewUrl>)
        ensures
            r@ == self.new_urls_seq(),
    {
        &self.new_urls
    }

    /// Drop a queued URL: its entry has been created remotely.
    pub fn remove_new_url(&mut self, id: i64)
        requires
            old(self).wf(),
        ensures
            final(self).wf(),
            lookup(final(self).new_urls_seq(), id as int) is None,
            forall|k: int|
                k != id as int ==> lookup(final(self).new_urls_seq(), k) == lookup(
                    old(self).new_urls_seq(),
                    k,
                ),
            match lookup(old(self).new_urls_seq(), id as int) {
                Some(_) => exists|i: int|
                    0 <= i < old(self).new_urls_seq().len() && old(self).new_urls_seq()[i].key()
                        == id as int && final(self).new_urls_seq() == old(self).new_urls_seq().remove(i),
                None => final(self).new_urls_seq() == old(self).new_urls_seq(),
            },
            final(self).spec_next_url_id() == old(self).spec_next_url_id(),
            final(self).new_annotations_seq() == old(self).new_annotations_seq(),
            final(self).spec_next_new_annotation_id() == old(self).spec_next_new_annotation_id(),
            final(self).entry_deletes_seq() == old(self).entry_deletes_seq(),
            final(self).annotation_deletes_seq() == old(self).annotation_deletes_seq(),
            DB::entries_same(*old(self), *final(self)),
            DB::annotations_same(*old(self), *final(self)),
            DB::tags_same(*old(self), *final(self)),
            final(self).spec_last_sync() == old(self).spec_last_sync(),
            final(self).spec_initialized() == old(self).spec_initialized(),
    {
        remove_key(&mut self.new_urls, id);
        proof {
            let s0 = old(self).new_urls_seq();
            let s1 = self.new_urls@;
            if lookup(s0, id as int) is Some {
                let i = choose|i: int|
                    0 <= i < s0.len() && s0[i].key() == id as int && s1 == s0.remove(i);
                assert forall|j: int| 0 <= j < s1.len() implies s1[j].id
                    < self.next_url_id by {
                    if j < i {
                        assert(s1[j] == s0[j]);
                    } else {
                        assert(s1[j] == s0[j + 1]);
                    }
                }
            }
        }
    }

    /// Queue an annotation for remote creation at the next sync, under the
    /// entry with the given remote id.
    pub fn add_new_annotation(&mut self, entry_id: ID, payload: NewAnnotation)
        requires
            old(self).wf(),
            old(self).spec_next_new_annotation_id() < i64::MAX,
        ensures
            final(self).wf(),
            final(self).new_annotations_seq() == old(self).new_annotations_seq().push(
                (NewAnnotationRow {
                    id: old(self).spec_next_new_annotation_id(),
                    entry_id,
                    payload,
                }),
            ),
            final(self).spec_next_new_annotation_id() == old(self).spec_next_new_annotation_id()
                + 1,
            final(self).new_urls_seq() == old(self).new_urls_seq(),
            final(self).spec_next_url_id() == old(self).spec_next_url_id(),
            final(self).entry_deletes_seq() == old(self).entry_deletes_seq(),
            final(self).annotation_deletes_seq() == old(self).annotation_deletes_seq(),
            DB::entries_same(*old(self), *final(self)),
            DB::annotations_same(*old(self), *final(self)),
            DB::tags_same(*old(self), *final(self)),
            final(self).spec_last_sync() == old(self).spec_last_sync(),
            final(self).spec_initialized() == old(self).spec_initialized(),
    {
        let id = self.next_new_annotation_id;
        self.next_new_annotation_id = self.next_new_annotation_id + 1;
        self.new_annotations.push(NewAnnotationRow { id, entry_id, payload });
        proof {
            let s = self.new_annotations@;
            assert forall|i: int, j: int| 0 <= i < j < s.len() implies s[i].key()
                != s[j].key() by {
                if j < s.len() - 1 {
                    assert(s[i] == old(self).new_annotations_seq()[i]);
                    assert(s[j] == old(self).new_annotations_seq()[j]);
                } else {
                    assert(s[i] == old(self).new_annotations_seq()[i]);
                }
            }
        }
    }

    /// The queued annotations, oldest first, each with its entry id.
    pub fn get_new_annotations(&self) -> (r: &Vec<NewAnnotationRow>)
        ensures
            r@ == self.new_annotations_seq(),
    {
        &self.new_annotations
    }

    /// Drop a queued annotation: it has been created remotely.
    pub fn remove_new_annotation(&mut self, id: i64)
        requires
            old(self).wf(),
        ensures
            final(self).wf(),
            lookup(final(self).new_annotations_seq(), id as int) is None,
            forall|k: int|
                k != id as int ==> lookup(final(self).new_annotations_seq(), k) == lookup(
                    old(self).new_annotations_seq(),
                    k,
                ),
            match lookup(old(self).new_annotations_seq(), id as int) {
                Some(_) => exists|i: int|
                    0 <= i < old(self).new_annotations_seq().len() && old(self).new_annotations_seq()[i].key() == id as int && final(self).new_annotations_seq() == old(self).new_annotations_seq().remove(i),
                None => final(self).new_annotations_seq() == old(self).new_annotations_seq(),
            },
            final(self).spec_next_new_annotation_id() == old(self).spec_next_new_annotation_id(),
            final(self).new_urls_seq() == old(self).new_urls_seq(),
            final(self).spec_next_url_id() == old(self).spec_next_url_id(),
            final(self).entry_deletes_seq() == old(self).entry_deletes_seq(),
            final(self).annotation_deletes_seq() == old(self).annotation_deletes_seq(),
            DB::entries_same(*old(self), *final(self)),
            DB::annotations_same(*old(self), *final(self)),
            DB::tags_same(*old(self), *final(self)),
            final(self).spec_last_sync() == old(self).spec_last_sync(),
            final(self).spec_initialized() == old(self).spec_initialized(),
    {
        remove_key(&mut self.new_annotations, id);
        proof {
            let s0 = old(self).new_annotations_seq();
            let s1 = self.new_annotations@;
            if lookup(s0, id as int) is Some {
                let i = choose|i: int|
                    0 <= i < s0.len() && s0[i].key() == id as int && s1 == s0.remove(i);
                assert forall|j: int| 0 <= j < s1.len() implies s1[j].id
                    < self.next_new_annotation_id by {
                    if j < i {
                        assert(s1[j] == s0[j]);
                    } else {
                        assert(s1[j] == s0[j + 1]);
                    }
                }
            }
        }
    }

    /// Record that the user deleted this entry locally, so the deletion
    /// still has to be pushed to the remote side.
    pub fn add_delete_entry(&mut self, id: ID)
        requires
            old(self).wf(),
        ensures
            final(self).wf(),
            has_key(final(self).entry_deletes_seq(), id.0 as int),
            if has_key(old(self).entry_deletes_seq(), id.0 as int) {
                final(self).entry_deletes_seq() == old(self).entry_deletes_seq()
            } else {
                final(self).entry_deletes_seq() == old(self).entry_deletes_seq().push(id)
            },
            final(self).annotation_deletes_seq() == old(self).annotation_deletes_seq(),
            final(self).new_urls_seq() == old(self).new_urls_seq(),
            final(self).spec_next_url_id() == old(self).spec_next_url_id(),
            final(self).new_annotations_seq() == old(self).new_annotations_seq(),
            final(self).spec_next_new_annotation_id() == old(self).spec_next_new_annotation_id(),
            DB::entries_same(*old(self), *final(self)),
            DB::annotations_same(*old(self), *final(self)),
            DB::tags_same(*old(self), *final(self)),
            final(self).spec_last_sync() == old(self).spec_last_sync(),
            final(self).spec_initialized() == old(self).spec_initialized(),
    {
        match find_key(&self.entry_deletes, id.0) {
            Some(_) => {
            },
            None => {
                self.entry_deletes.push(id);
                proof {
                    crate::table::lemma_lookup_none(old(self).entry_deletes_seq(), id.0 as int);
                    crate::table::lemma_lookup_unique(
                        self.entry_deletes@,
                        id.0 as int,
                        self.entry_deletes@.len() - 1,
                    );
                }
            },
        }
    }

    /// The entry deletions waiting to be confirmed remotely.
    pub fn get_entry_deletes(&self) -> (r: Vec<ID>)
        ensures
            r@ == self.entry_deletes_seq(),
    {
        copy_ids(&self.entry_deletes)
    }

    /// Drop a pending entry deletion: the remote side has confirmed it.
    pub fn remove_delete_entry(&mut self, id: ID)
        requires
            old(self).wf(),
        ensures
            final(self).wf(),
            lookup(final(self).entry_deletes_seq(), id.0 as int) is None,
            forall|k: int|
                k != id.0 as int ==> lookup(final(self).entry_deletes_seq(), k) == lookup(
                    old(self).entry_deletes_seq(),
                    k,
                ),
            match lookup(old(self).entry_deletes_seq(), id.0 as int) {
                Some(_) => exists|i: int|
                    0 <= i < old(self).entry_deletes_seq().len() && old(self).entry_deletes_seq()[i].key() == id.0 as int && final(self).entry_deletes_seq() == old(self).entry_deletes_seq().remove(i),
                None => final(self).entry_deletes_seq() == old(self).entry_deletes_seq(),
            },
            final(self).annotation_deletes_seq() == old(self).annotation_deletes_seq(),
            final(self).new_urls_seq() == old(self).new_urls_seq(),
            final(self).spec_next_url_id() == old(self).spec_next_url_id(),
            final(self).new_annotations_seq() == old(self).new_annotations_seq(),
            final(self).spec_next_new_annotation_id() == old(self).spec_next_new_annotation_id(),
            DB::entries_same(*old(self), *final(self)),
            DB::annotations_same(*old(self), *final(self)),
            DB::tags_same(*old(self), *final(self)),
            final(self).spec_last_sync() == old(self).spec_last_sync(),
            final(self).spec_initialized() == old(self).spec_initialized(),
    {
        remove_key(&mut self.entry_deletes, id.0);
    }

    /// Record that the user deleted this annotation locally, so the
    /// deletion still has to be pushed to the remote side.
    pub fn add_delete_annotation(&mut self, id: ID)
        requires
            old(self).wf(),
        ensures
            final(self).wf(),
            has_key(final(self).annotation_deletes_seq(), id.0 as int),
            if has_key(old(self).annotation_deletes_seq(), id.0 as int) {
                final(self).annotation_deletes_seq() == old(self).annotation_deletes_seq()
            } else {
                final(self).annotation_deletes_seq() == old(self).annotation_deletes_seq().push(
                    id,
                )
            },
            final(self).entry_deletes_seq() == old(self).entry_deletes_seq(),
            final(self).new_urls_seq() == old(self).new_urls_seq(),
            final(self).spec_next_url_id() == old(self).spec_next_url_id(),
            final(self).new_annotations_seq() == old(self).new_annotations_seq(),
            final(self).spec_next_new_annotation_id() == old(self).spec_next_new_annotation_id(),
            DB::entries_same(*old(self), *final(self)),
            DB::annotations_same(*old(self), *final(self)),
            DB::tags_same(*old(self), *final(self)),
            final(self).spec_last_sync() == old(self).spec_last_sync(),
            final(self).spec_initialized() == old(self).spec_initialized(),
    {
        match find_key(&self.annotation_deletes, id.0) {
            Some(_) => {
            },
            None => {
                self.annotation_deletes.push(id);
                proof {
                    crate::table::lemma_lookup_none(
                        old(self).annotation_deletes_seq(),
                        id.0 as int,
                    );
                    crate::table::lemma_lookup_unique(
                        self.annotation_deletes@,
                        id.0 as int,
                        self.annotation_deletes@.len() - 1,
                    );
                }
            },
        }
    }

    /// The annotation deletions waiting to be confirmed remotely.
    pub fn get_annotation_deletes(&self) -> (r: Vec<ID>)
        ensures
            r@ == self.annotation_deletes_seq(),
    {
        copy_ids(&self.annotation_deletes)
    }

    /// Drop a pending annotation deletion: the remote side has confirmed
    /// it.
    pub fn remove_delete_annotation(&mut self, id: ID)
        requires
            old(self).wf(),
        ensures
            final(self).wf(),
            lookup(final(self).annotation_deletes_seq(), id.0 as int) is None,
            forall|k: int|
                k != id.0 as int ==> lookup(final(self).annotation_deletes_seq(), k) == lookup(
                    old(self).annotation_deletes_seq(),
                    k,
                ),
            match lookup(old(self).annotation_deletes_seq(), id.0 as int) {
                Some(_) => exists|i: int|
                    0 <= i < old(self).annotation_deletes_seq().len() && old(self).annotation_deletes_seq()[i].key() == id.0 as int && final(self).annotation_deletes_seq() == old(self).annotation_deletes_seq().remove(i),
                None => final(self).annotation_deletes_seq() == old(self).annotation_deletes_seq(),
            },
            final(self).entry_deletes_seq() == old(self).entry_deletes_seq(),
            final(self).new_urls_seq() == old(self).new_urls_seq(),
            final(self).spec_next_url_id() == old(self).spec_next_url_id(),
            final(self).new_annotations_seq() == old(self).new_annotations_seq(),
            final(self).spec_next_new_annotation_id() == old(self).spec_next_new_annotation_id(),
            DB::entries_same(*old(self), *final(self)),
            DB::annotations_same(*old(self), *final(self)),
            DB::tags_same(*old(self), *final(self)),
            final(self).spec_last_sync() == old(self).spec_last_sync(),
            final(self).spec_initialized() == old(self).spec_initialized(),
    {
        remove_key(&mut self.annotation_deletes, id.0);
    }
}

/// Copy a list of ids.
fn copy_ids(v: &Vec<ID>) -> (r: Vec<ID>)
    ensures
        r@ == v@,
{
    let mut r: Vec<ID> = Vec::new();
    let mut i: usize = 0;
    while i < v.len()
        invariant
            i <= v@.len(),
            r@ == v@.take(i as int),
        decreases v@.len() - i,
    {
        r.push(v[i]);
        proof {
            assert(r@ =~= v@.take(i + 1));
        }
        i = i + 1;
    }
    proof {
        assert(v@.take(v@.len() as int) =~= v@);
    }
    r
}

/// Whether the link table already ties this entry to this tag.
fn link_exists(links: &Vec<TagLink>, entry_id: ID, tag_id: ID) -> (r: bool)
    ensures
        r == has_link(links@, entry_id.0 as int, tag_id.0 as int),
{
    let mut i: usize = 0;
    while i < links.len()
        invariant
            i <= links@.len(),
            forall|j: int|
                0 <= j < i ==> !(links@[j].entry_id.0 == entry_id.0 && links@[j].tag_id.0
                    == tag_id.0),
        decreases links@.len() - i,
    {
        if links[i].entry_id.0 == entry_id.0 && links[i].tag_id.0 == tag_id.0 {
            return true;
        }
        i = i + 1;
    }
    false
}

/// Whether any entry links to the tag.
fn tag_is_linked(links: &Vec<TagLink>, tid: i64) -> (r: bool)
    ensures
        r == spec_tag_linked(links@, tid as int),
{
    let mut i: usize = 0;
    while i < links.len()
        invariant
            i <= links@.len(),
            forall|j: int| 0 <= j < i ==> links@[j].tag_id.0 != tid,
        decreases links@.len() - i,
    {
        if links[i].tag_id.0 == tid {
            return true;
        }
        i = i + 1;
    }
    false
}

/// The index of some tag that no entry links to, if one remains.
fn find_unlinked_tag(tags: &Vec<Tag>, links: &Vec<TagLink>) -> (r: Option<usize>)
    ensures
        match r {
            Some(j) => j < tags@.len() && !spec_tag_linked(links@, tags@[j as int].key()),
            None => forall|j: int|
                0 <= j < tags@.len() ==> spec_tag_linked(links@, tags@[j].key()),
        },
{
    let mut i: usize = 0;
    while i < tags.len()
        invariant
            i <= tags@.len(),
            forall|j: int| 0 <= j < i ==> spec_tag_linked(links@, tags@[j].key()),
        decreases tags@.len() - i,
    {
        if !tag_is_linked(links, tags[i].exec_key()) {
            return Some(i);
        }
        i = i + 1;
    }
    None
}

/// Remove every tag that no entry links to.
fn purge_unlinked_tags(tags: &mut Vec<Tag>, links: &Vec<TagLink>)
    requires
        unique_keys(old(tags)@),
    ensures
        unique_keys(final(tags)@),
        forall|k: int|
            lookup(final(tags)@, k) == (if spec_tag_linked(links@, k) {
                lookup(old(tags)@, k)
            } else {
                None
            }),
{
    loop
        invariant
            unique_keys(tags@),
            forall|k: int|
                lookup(tags@, k) == lookup(old(tags)@, k) || (!spec_tag_linked(links@, k)
                    && lookup(tags@, k) is None),
        decreases tags@.len(),
    {
        match find_unlinked_tag(tags, links) {
            Some(j) => {
                let ghost pre = tags@;
                let ghost r0 = tags@[j as int];
                proof {
                    lemma_lookup_unique(pre, r0.key(), j as int);
                }
                tags.remove(j);
                proof {
                    lemma_lookup_remove(pre, j as int);
                    assert forall|k: int|
                        lookup(tags@, k) == lookup(old(tags)@, k) || (!spec_tag_linked(links@, k)
                            && lookup(tags@, k) is None) by {
                        if k != r0.key() {
                            assert(lookup(tags@, k) == lookup(pre, k));
                        }
                    }
                }
            },
            None => {
                proof {
                    assert forall|k: int|
                        lookup(tags@, k) == (if spec_tag_linked(links@, k) {
                            lookup(old(tags)@, k)
                        } else {
                            None
                        }) by {
                        lemma_lookup_in(tags@, k);
                        if !spec_tag_linked(links@, k) {
                            if lookup(tags@, k) is Some {
                                let x = lookup(tags@, k).unwrap();
                                let i = choose|i: int|
                                    0 <= i < tags@.len() && tags@[i] == x && tags@[i].key() == k;
                                assert(spec_tag_linked(links@, tags@[i].key()));
                            }
                        }
                    }
                }
                return ;
            },
        }
    }
}

/// Remove every link of entry `eid` from the link table, keeping the rest
/// in order.
fn remove_links_for(links: &mut Vec<TagLink>, eid: ID)
    ensures
        links_of(final(links)@, eid.0 as int) == Seq::<int>::empty(),
        forall|k: int|
            k != eid.0 as int ==> links_of(final(links)@, k) == links_of(old(links)@, k),
{
    let mut kept: Vec<TagLink> = Vec::new();
    let mut i: usize = 0;
    while i < links.len()
        invariant
            i <= links@.len(),
            links@ == old(links)@,
            links_of(kept@, eid.0 as int) == Seq::<int>::empty(),
            forall|k: int|
                k != eid.0 as int ==> links_of(kept@, k) == links_of(links@.take(i as int), k),
        decreases links@.len() - i,
    {
        let ghost pre = links@.take(i as int);
        let ghost cur = links@.take(i + 1);
        proof {
            assert(cur.drop_last() =~= pre);
            assert(cur.last() == links@[i as int]);
        }
        let l = links[i];
        if l.entry_id.0 != eid.0 {
            let ghost prev = kept@;
            kept.push(l);
            proof {
                assert(kept@.drop_last() =~= prev);
                assert(kept@.last() == l);
                assert(links_of(kept@, eid.0 as int) =~= Seq::<int>::empty());
                assert forall|k: int| k != eid.0 as int implies links_of(kept@, k) == links_of(
                    cur,
                    k,
                ) by {
                    assert(links_of(kept@, k) == if l.entry_id.0 as int == k {
                        links_of(prev, k).push(l.tag_id.0 as int)
                    } else {
                        links_of(prev, k)
                    });
                    assert(links_of(cur, k) == if l.entry_id.0 as int == k {
                        links_of(pre, k).push(l.tag_id.0 as int)
                    } else {
                        links_of(pre, k)
                    });
                }
            }
        } else {
            proof {
                assert forall|k: int| k != eid.0 as int implies links_of(kept@, k) == links_of(
                    cur,
                    k,
                ) by {
                    assert(links_of(cur, k) == links_of(pre, k));
                }
            }
        }
        i = i + 1;
    }
    proof {
        assert(links@.take(links@.len() as int) =~= links@);
    }
    *links = kept;
}

/// Upsert every tag of the list and append one link per tag for the given
/// entry, in order. The entry must have no links yet.
fn rebuild_tag_rows(tags_tbl: &mut Vec<Tag>, links: &mut Vec<TagLink>, entry_id: ID, tags: Vec<Tag>)
    requires
        unique_keys(old(tags_tbl)@),
        links_of(old(links)@, entry_id.0 as int) == Seq::<int>::empty(),
    ensures
        unique_keys(final(tags_tbl)@),
        links_of(final(links)@, entry_id.0 as int) == spec_tag_ids(tags.deep_view()),
        forall|k: int|
            k != entry_id.0 as int ==> links_of(final(links)@, k) == links_of(old(links)@, k),
        forall|k: int|
            !spec_tag_ids(tags.deep_view()).contains(k) ==> lookup(final(tags_tbl)@, k) == lookup(
                old(tags_tbl)@,
                k,
            ),
        spec_unique_tag_ids(tags.deep_view()) ==> spec_tags_for(
            links_of(final(links)@, entry_id.0 as int),
            final(tags_tbl)@,
        ) == tags.deep_view(),
{
    let ghost eid = entry_id.0 as int;
    let ghost tv = tags.deep_view();
    let ghost n = tv.len();
    let mut pending = tags;
    while pending.len() > 0
        invariant
            n == tv.len(),
            tv == tags.deep_view(),
            eid == entry_id.0 as int,
            links_of(old(links)@, eid) == Seq::<int>::empty(),
            unique_keys(old(tags_tbl)@),
            pending@.len() <= n,
            forall|j: int|
                0 <= j < pending@.len() ==> pending.deep_view()[j] == tv[(n - pending@.len())
                    + j],
            unique_keys(tags_tbl@),
            links_of(links@, eid) == spec_tag_ids(tv.take((n - pending@.len()) as int)),
            forall|k: int| k != eid ==> links_of(links@, k) == links_of(old(links)@, k),
            forall|k: int|
                !spec_tag_ids(tv).contains(k) ==> lookup(tags_tbl@, k) == lookup(
                    old(tags_tbl)@,
                    k,
                ),
            spec_unique_tag_ids(tv) ==> spec_tags_for(links_of(links@, eid), tags_tbl@) == tv.take(
                (n - pending@.len()) as int,
            ),
        decreases pending@.len(),
    {
        let ghost i = n - pending@.len();
        let ghost pv = pending.deep_view();
        let ghost pseq = pending@;
        let t = pending.remove(0);
        proof {
            assert(0 <= i < n);
            assert(pv[0] == t.deep_view());
            assert(t.deep_view() == tv[i]);
            assert forall|j: int| 0 <= j < pending@.len() implies pending.deep_view()[j] == tv[(i
                + 1) + j] by {
                assert(pending.deep_view()[j] == pending@[j].deep_view());
                assert(pending@[j] == pseq[j + 1]);
                assert(pseq[j + 1].deep_view() == pv[j + 1]);
                assert(pv[j + 1] == tv[i + (j + 1)]);
            }
        }
        let tid = t.id;
        let ghost tags_before = tags_tbl@;
        let ghost ids_i = spec_tag_ids(tv.take(i));
        proof {
            lemma_tag_ids_index(tv, i);
            assert(spec_tag_ids(tv).contains(tv[i].id)) by {
                assert(0 <= i < spec_tag_ids(tv).len() && spec_tag_ids(tv)[i] == tv[i].id);
            }
        }
        upsert(tags_tbl, t);
        let ghost links_before = links@;
        links.push(TagLink { entry_id, tag_id: tid });
        proof {
            assert(links@.drop_last() =~= links_before);
            assert(links@.last() == (TagLink { entry_id, tag_id: tid }));
            assert(links_of(links@, eid) == links_of(links_before, eid).push(tid.0 as int));
            assert(spec_tag_ids(tv.take(i + 1)) =~= ids_i.push(tv[i].id));
            assert forall|k: int| k != eid implies links_of(links@, k) == links_of(
                old(links)@,
                k,
            ) by {
                assert(links_of(links@, k) == links_of(links_before, k));
            }
            assert forall|k: int| !spec_tag_ids(tv).contains(k) implies lookup(tags_tbl@, k)
                == lookup(old(tags_tbl)@, k) by {
                assert(k != tv[i].id);
                assert(lookup(tags_tbl@, k) == lookup(tags_before, k));
            }
            if spec_unique_tag_ids(tv) {
                assert forall|j: int| 0 <= j < ids_i.len() implies lookup(tags_before, ids_i[j])
                    == lookup(tags_tbl@, ids_i[j]) by {
                    assert(ids_i[j] == spec_tag_ids(tv)[j]);
                    assert(ids_i[j] == tv[j].id);
                    assert(tv[j].id != tv[i].id);
                }
                lemma_tags_for_agree(ids_i, tags_before, tags_tbl@);
                let tids = ids_i.push(tv[i].id);
                assert(tids.drop_last() =~= ids_i);
                assert(tids.last() == tv[i].id);
                assert(t.key() == tv[i].id);
                assert(lookup(tags_tbl@, tv[i].id) == Some(t));
                assert(spec_tags_for(tids, tags_tbl@) == spec_tags_for(ids_i, tags_tbl@).push(
                    tv[i],
                ));
                assert(spec_tags_for(ids_i, tags_before) == tv.take(i));
                assert(tv.take(i).push(tv[i]) =~= tv.take(i + 1));
                assert(spec_tags_for(links_of(links@, eid), tags_tbl@) == tv.take(i + 1));
            }
        }
    }
    proof {
        assert(tv.take(n as int) =~= tv);
    }
}

/// Remove every annotation row of entry `eid`.
fn purge_annotations_of(v: &mut Vec<AnnotationRow>, eid: ID)
    requires
        unique_keys(old(v)@),
    ensures
        unique_keys(final(v)@),
        forall|k: int|
            lookup(final(v)@, k) == (match lookup(old(v)@, k) {
                Some(r) => if r.entry_id.0 == eid.0 {
                    None
                } else {
                    Some(r)
                },
                None => None,
            }),
{
    loop
        invariant
            unique_keys(v@),
            forall|k: int|
                lookup(v@, k) == lookup(old(v)@, k) || (lookup(old(v)@, k) matches Some(r)
                    && r.entry_id.0 == eid.0 && lookup(v@, k) is None),
        decreases v@.len(),
    {
        match find_row_for_entry(v, eid) {
            Some(j) => {
                let ghost pre = v@;
                let ghost r0 = v@[j as int];
                proof {
                    lemma_lookup_unique(pre, r0.key(), j as int);
                }
                v.remove(j);
                proof {
                    lemma_lookup_remove(pre, j as int);
                    assert forall|k: int|
                        lookup(v@, k) == lookup(old(v)@, k) || (lookup(old(v)@, k) matches Some(r)
                            && r.entry_id.0 == eid.0 && lookup(v@, k) is None) by {
                        if k == r0.key() {
                            assert(lookup(pre, k) == Some(r0));
                            assert(lookup(old(v)@, k) == Some(r0));
                        } else {
                            assert(lookup(v@, k) == lookup(pre, k));
                        }
                    }
                }
            },
            None => {
                proof {
                    assert forall|k: int|
                        lookup(v@, k) == (match lookup(old(v)@, k) {
                            Some(r) => if r.entry_id.0 == eid.0 {
                                None
                            } else {
                                Some(r)
                            },
                            None => None,
                        }) by {
                        lemma_lookup_in(v@, k);
                        if lookup(old(v)@, k) is Some && lookup(old(v)@, k).unwrap().entry_id.0
                            == eid.0 {
                            if lookup(v@, k) is Some {
                                let x = lookup(v@, k).unwrap();
                                assert(exists|i: int|
                                    0 <= i < v@.len() && v@[i] == x && v@[i].key() == k);
                            }
                        }
                    }
                }
                return ;
            },
        }
    }
}

/// The index of some annotation row of entry `eid`, if one remains.
fn find_row_for_entry(v: &Vec<AnnotationRow>, eid: ID) -> (r: Option<usize>)
    ensures
        match r {
            Some(j) => j < v@.len() && v@[j as int].entry_id.0 == eid.0,
            None => forall|j: int| 0 <= j < v@.len() ==> v@[j].entry_id.0 != eid.0,
        },
{
    let mut i: usize = 0;
    while i < v.len()
        invariant
            i <= v@.len(),
            forall|j: int| 0 <= j < i ==> v@[j].entry_id.0 != eid.0,
        decreases v@.len() - i,
    {
        if v[i].entry_id.0 == eid.0 {
            return Some(i);
        }
        i = i + 1;
    }
    None
}

} // verus!
