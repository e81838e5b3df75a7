//! The sync orchestrator, as an explicit state machine.
//!
//! A sync run is a session: the caller repeatedly feeds the session the
//! outcome of the last remote call (or `Proceed` where none was asked
//! for) and receives the next remote request.  All decisions — conflict
//! resolution, pending-queue bookkeeping, remote-deletion detection, the
//! watermark — are made here, against the local store; the caller only
//! performs the requests.
//!
//! A failed remote call is simply not fed back: the session is dropped,
//! local writes made so far stay committed, the pending records whose
//! confirmations never arrived stay queued, and the watermark is
//! untouched, so the next run safely redoes the remaining work.

use vstd::prelude::*;

use crate::annotations::Annotation;
use crate::entry::{spec_patch_of_entry, Entry, NewEntry, PatchEntry};
use crate::errors::SyncError;
use crate::resolver::{resolve_annotation, resolve_entry, spec_resolve, ResolveAction};
use crate::store::{
    links_of, spec_ids_of_entries, spec_tag_ids, spec_tags_for, spec_unique_tag_ids,
    AnnotationRow, DB,
};
use crate::table::lookup;
use crate::types::{EntriesFilter, SortBy, SortOrder, ID};

verus! {

broadcast use crate::table::lemma_vec_deep_view;

/// Whether a run reconciles everything the remote side has, or only what
/// changed since the watermark.
#[derive(Debug, Clone, Copy, PartialEq, Eq, Structural)]
pub enum SyncMode {
    /// Entries changed since the watermark only; cheap, but blind to
    /// remote-side deletions.
    Normal,
    /// The complete remote entry set; the only mode that can detect
    /// remote-side deletions.
    Full,
}

/// Where to go on once the annotations of the entry at hand are done.
#[derive(Debug, Clone, Copy, PartialEq, Eq, Structural)]
pub enum ResumeTo {
    /// Back to the remote entries still waiting for reconciliation.
    Entries,
    /// Back to the queue of URLs waiting for remote creation.
    Creates,
}

/// Where a session stands, together with what it waits for.
#[derive(Debug, Clone, Copy, PartialEq, Eq, Structural)]
pub enum SyncPhase {
    /// Pushing pending annotation deletions, strictly before entry
    /// deletions, so a cascade on the server cannot make them fail.
    PushAnnDeletes,
    AwaitAnnDelete(ID),
    PushEntryDeletes,
    AwaitEntryDelete(ID),
    /// About to request the remote entry listing.
    Fetch,
    AwaitEntries,
    /// Reconciling the fetched remote entries one at a time.
    ProcessEntries,
    /// Reconciling the annotations that came embedded in one entry.
    DrainAnns(ResumeTo),
    AwaitAnnPush(ResumeTo),
    AwaitEntryPush,
    /// Full mode only: removing local entries the remote side no longer
    /// has.
    DetectDeletedEntries,
    DetectDeletedAnns,
    /// Normal mode only: pushing locally changed records the fetch did
    /// not surface.
    PushLocalEntries,
    /// Waits for the canonicalized entry the push returned, which is
    /// saved back; carries the pushed entry id.
    AwaitLocalEntryPush(ID),
    PushLocalAnnotations,
    /// Waits for the canonicalized annotation the push returned, which
    /// is saved back; carries the pushed annotation id and the id of the
    /// entry it belongs to.
    AwaitLocalAnnPush(ID, ID),
    /// Creating queued URLs remotely.
    CreateUrls,
    /// Waits for the created entry; carries the local queue id.
    AwaitCreateEntry(i64),
    /// Creating queued annotations remotely.
    CreateAnns,
    /// Waits for the created annotation; carries the local queue id and
    /// the remote entry id.
    AwaitCreateAnn(i64, ID),
    /// Garbage-collecting orphaned tags.
    Cleanup,
    /// Waits for the clock to commit the watermark.
    Commit,
    Done,
}

/// The next remote request a session asks its driver to perform.
#[derive(Debug)]
pub enum RemoteAction {
    /// No remote work; call `step` again with `Proceed`.
    Continue,
    DeleteAnnotation(ID),
    DeleteEntry(ID),
    /// Fetch entries matching the filter, following the pagination to the
    /// end.
    ListEntries(EntriesFilter),
    /// Fetch the complete remote entry set.
    ListAllEntries,
    UpdateEntry(ID, PatchEntry),
    UpdateAnnotation(Annotation),
    CreateEntry(NewEntry),
    CreateAnnotation(ID, crate::annotations::NewAnnotation),
    /// Read the clock; answer with `Time`.
    ReadClock,
    /// The run is complete.
    Finished,
}

/// The outcome of the last remote request, fed back into the session.
#[derive(Debug)]
pub enum RemoteEvent {
    /// Answer to `Continue`: no remote work was to be done.
    Proceed,
    /// The deletion succeeded.
    Ack,
    /// The listed entries.
    Entries(Vec<Entry>),
    /// The entry an update or creation returned; the server may have
    /// canonicalized fields, so it is pulled back in.
    Entry(Entry),
    /// The annotation an update or creation returned.
    Ann(Annotation),
    /// Answer to `ReadClock`: the instant now.
    Time(i64),
}

/// The annotation ids embedded in one entry.
pub open spec fn spec_ann_ids_of(e: Entry) -> Seq<ID> {
    match e.annotations {
        None => Seq::empty(),
        Some(anns) => anns@.map_values(|a: Annotation| a.id),
    }
}

/// The annotation ids embedded across a list of entries, in order.
pub open spec fn spec_seen_ann_ids(s: Seq<Entry>) -> Seq<ID>
    decreases s.len(),
{
    if s.len() == 0 {
        Seq::empty()
    } else {
        spec_seen_ann_ids(s.drop_last()) + spec_ann_ids_of(s.last())
    }
}

/// The annotations embedded in one entry, as a sequence.
pub open spec fn spec_anns_of_entry(e: Entry) -> Seq<Annotation> {
    match e.annotations {
        None => Seq::empty(),
        Some(anns) => anns@,
    }
}

/// The first locally cached entry id that a full remote enumeration did
/// not mention.
pub open spec fn spec_first_unseen_entry(s: Seq<Entry>, seen: Seq<ID>) -> Option<ID>
    decreases s.len(),
{
    if s.len() == 0 {
        None
    } else if !seen.contains(s[0].id) {
        Some(s[0].id)
    } else {
        spec_first_unseen_entry(s.drop_first(), seen)
    }
}

/// The first locally cached annotation id that a full remote enumeration
/// did not mention.
pub open spec fn spec_first_unseen_ann(s: Seq<AnnotationRow>, seen: Seq<ID>) -> Option<ID>
    decreases s.len(),
{
    if s.len() == 0 {
        None
    } else if !seen.contains(s[0].ann.id) {
        Some(s[0].ann.id)
    } else {
        spec_first_unseen_ann(s.drop_first(), seen)
    }
}

/// The first locally changed entry that the pull did not already touch.
pub open spec fn spec_first_push_entry(s: Seq<Entry>, since: i64, seen: Seq<ID>) -> Option<Entry>
    decreases s.len(),
{
    if s.len() == 0 {
        None
    } else if s[0].updated_at >= since && !seen.contains(s[0].id) {
        Some(s[0])
    } else {
        spec_first_push_entry(s.drop_first(), since, seen)
    }
}

/// The first locally changed annotation that the pull did not already
/// touch.
pub open spec fn spec_first_push_ann(s: Seq<AnnotationRow>, since: i64, seen: Seq<ID>) -> Option<
    AnnotationRow,
>
    decreases s.len(),
{
    if s.len() == 0 {
        None
    } else if s[0].ann.updated_at >= since && !seen.contains(s[0].ann.id) {
        Some(s[0])
    } else {
        spec_first_push_ann(s.drop_first(), since, seen)
    }
}

/// One incremental or full synchronization pass in progress.
#[derive(Debug)]
pub struct SyncSession {
    mode: SyncMode,
    since: i64,
    phase: SyncPhase,
    remaining: Vec<Entry>,
    pending_anns: Vec<Annotation>,
    pending_entry: ID,
    seen_entries: Vec<ID>,
    seen_annotations: Vec<ID>,
}

impl SyncSession {
    /// Whether this is a normal or a full pass.
    pub closed spec fn spec_mode(self) -> SyncMode {
        self.mode
    }

    /// The watermark captured when the remote listing was requested.
    pub closed spec fn spec_since(self) -> i64 {
        self.since
    }

    /// Where the session stands.
    pub closed spec fn spec_phase(self) -> SyncPhase {
        self.phase
    }

    /// The fetched remote entries still waiting for reconciliation.
    pub closed spec fn remaining_seq(self) -> Seq<Entry> {
        self.remaining@
    }

    /// The annotations of the entry at hand, still to reconcile.
    pub closed spec fn pending_anns_seq(self) -> Seq<Annotation> {
        self.pending_anns@
    }

    /// The entry the pending annotations belong to.
    pub closed spec fn spec_pending_entry(self) -> ID {
        self.pending_entry
    }

    /// The entry ids the pull phase has touched; they are not pushed
    /// again.
    pub closed spec fn seen_entries_seq(self) -> Seq<ID> {
        self.seen_entries@
    }

    /// The annotation ids the pull phase has touched.
    pub closed spec fn seen_annotations_seq(self) -> Seq<ID> {
        self.seen_annotations@
    }

    /// A fresh session at its first phase: pushing local deletions.
    pub fn start(mode: SyncMode) -> (r: SyncSession)
        ensures
            r.spec_mode() == mode,
            r.spec_phase() == SyncPhase::PushAnnDeletes,
            r.spec_since() == 0,
            r.remaining_seq().len() == 0,
            r.pending_anns_seq().len() == 0,
            r.seen_entries_seq().len() == 0,
            r.seen_annotations_seq().len() == 0,
    {
        SyncSession {
            mode,
            since: 0,
            phase: SyncPhase::PushAnnDeletes,
            remaining: Vec::new(),
            pending_anns: Vec::new(),
            pending_entry: ID(0),
            seen_entries: Vec::new(),
            seen_annotations: Vec::new(),
        }
    }

    /// Whether the run has completed, watermark committed.
    pub fn is_done(&self) -> (r: bool)
        ensures
            r == (self.spec_phase() == SyncPhase::Done),
    {
        match self.phase {
            SyncPhase::Done => true,
            _ => false,
        }
    }
}

/// Which event each phase waits for. Any other event is a protocol error
/// and leaves store and session untouched.
pub open spec fn spec_expects(p: SyncPhase, ev: RemoteEvent) -> bool {
    match p {
        SyncPhase::PushAnnDeletes => ev is Proceed,
        SyncPhase::AwaitAnnDelete(_) => ev is Ack,
        SyncPhase::PushEntryDeletes => ev is Proceed,
        SyncPhase::AwaitEntryDelete(_) => ev is Ack,
        SyncPhase::Fetch => ev is Proceed,
        SyncPhase::AwaitEntries => ev is Entries,
        SyncPhase::ProcessEntries => ev is Proceed,
        SyncPhase::DrainAnns(_) => ev is Proceed,
        SyncPhase::AwaitAnnPush(_) => ev is Ann,
        SyncPhase::AwaitEntryPush => ev is Entry,
        SyncPhase::DetectDeletedEntries => ev is Proceed,
        SyncPhase::DetectDeletedAnns => ev is Proceed,
        SyncPhase::PushLocalEntries => ev is Proceed,
        SyncPhase::AwaitLocalEntryPush(_) => ev is Entry,
        SyncPhase::PushLocalAnnotations => ev is Proceed,
        SyncPhase::AwaitLocalAnnPush(_, _) => ev is Ann,
        SyncPhase::CreateUrls => ev is Proceed,
        SyncPhase::AwaitCreateEntry(_) => ev is Entry,
        SyncPhase::CreateAnns => ev is Proceed,
        SyncPhase::AwaitCreateAnn(_, _) => ev is Ann,
        SyncPhase::Cleanup => ev is Proceed,
        SyncPhase::Commit => ev is Time,
        SyncPhase::Done => false,
    }
}

/// Entry, annotation and tag tables all unchanged.
pub open spec fn tables_unchanged(a: DB, b: DB) -> bool {
    DB::entries_same(a, b) && DB::annotations_same(a, b) && DB::tags_same(a, b)
}

/// The effect of saving entry `e`: its row is stored without embedded
/// annotations, its tag rows and links are rebuilt consistently, and no
/// other entry, link or tag moves. The annotation table is untouched.
pub open spec fn db_entry_saved(pre: DB, post: DB, e: Entry) -> bool {
    &&& lookup(post.entries_seq(), e@.id) == Some((Entry { annotations: None, ..e }))
    &&& forall|k: int| k != e@.id ==> lookup(post.entries_seq(), k) == lookup(pre.entries_seq(), k)
    &&& links_of(post.links_seq(), e@.id) == spec_tag_ids(e@.tags)
    &&& forall|eid: int|
        eid != e@.id ==> links_of(post.links_seq(), eid) == links_of(pre.links_seq(), eid)
    &&& forall|k: int|
        !spec_tag_ids(e@.tags).contains(k) ==> lookup(post.tags_seq(), k) == lookup(
            pre.tags_seq(),
            k,
        )
    &&& spec_unique_tag_ids(e@.tags) ==> spec_tags_for(
        links_of(post.links_seq(), e@.id),
        post.tags_seq(),
    ) == e@.tags
    &&& DB::annotations_same(pre, post)
}

/// The effect of saving annotation `ann` under entry `eid`. The entry and
/// tag tables are untouched.
pub open spec fn db_ann_saved(pre: DB, post: DB, ann: Annotation, eid: ID) -> bool {
    &&& lookup(post.annotations_seq(), ann@.id) == Some((AnnotationRow { entry_id: eid, ann }))
    &&& forall|k: int|
        k != ann@.id ==> lookup(post.annotations_seq(), k) == lookup(pre.annotations_seq(), k)
    &&& DB::entries_same(pre, post)
    &&& DB::tags_same(pre, post)
}

/// The effect of deleting entry `id` locally: the row, its links and its
/// annotations go; everything else stays.
pub open spec fn db_entry_deleted(pre: DB, post: DB, id: ID) -> bool {
    &&& lookup(post.entries_seq(), id.0 as int) is None
    &&& forall|k: int|
        k != id.0 as int ==> lookup(post.entries_seq(), k) == lookup(pre.entries_seq(), k)
    &&& links_of(post.links_seq(), id.0 as int) == Seq::<int>::empty()
    &&& forall|eid: int|
        eid != id.0 as int ==> links_of(post.links_seq(), eid) == links_of(pre.links_seq(), eid)
    &&& forall|k: int|
        lookup(post.annotations_seq(), k) == (match lookup(pre.annotations_seq(), k) {
            Some(r) => if r.entry_id.0 == id.0 {
                None
            } else {
                Some(r)
            },
            None => None,
        })
    &&& post.tags_seq() == pre.tags_seq()
}

/// The effect of deleting annotation `id` locally.
pub open spec fn db_ann_deleted(pre: DB, post: DB, id: ID) -> bool {
    &&& lookup(post.annotations_seq(), id.0 as int) is None
    &&& forall|k: int|
        k != id.0 as int ==> lookup(post.annotations_seq(), k) == lookup(pre.annotations_seq(), k)
    &&& DB::entries_same(pre, post)
    &&& DB::tags_same(pre, post)
}

/// The effect of the orphaned-tag garbage collection: a tag stays exactly
/// when some link still names it.
pub open spec fn db_tags_gced(pre: DB, post: DB) -> bool {
    &&& forall|k: int|
        lookup(post.tags_seq(), k) == (if crate::store::spec_tag_linked(pre.links_seq(), k) {
            lookup(pre.tags_seq(), k)
        } else {
            None
        })
    &&& post.links_seq() == pre.links_seq()
    &&& DB::entries_same(pre, post)
    &&& DB::annotations_same(pre, post)
}

/// The effect of pulling entry `e`: the store takes the remote version,
/// and the session holds the annotations that came embedded in it, to be
/// reconciled next.
pub open spec fn pulled(pre: DB, post: DB, post_s: SyncSession, e: Entry) -> bool {
    &&& db_entry_saved(pre, post, e)
    &&& post_s.pending_anns_seq() == spec_anns_of_entry(e)
    &&& post_s.spec_pending_entry() == e.id
}

/// The session's working data — the fetched listing, the annotations of
/// the entry at hand and their entry id, and the two seen sets — all
/// unchanged between two session values.
pub open spec fn sess_data_same(a: SyncSession, b: SyncSession) -> bool {
    &&& b.remaining_seq() == a.remaining_seq()
    &&& b.pending_anns_seq() == a.pending_anns_seq()
    &&& b.spec_pending_entry() == a.spec_pending_entry()
    &&& b.seen_entries_seq() == a.seen_entries_seq()
    &&& b.seen_annotations_seq() == a.seen_annotations_seq()
}

/// What a successful step does, phase by phase: which request comes out,
/// where the session moves, and exactly how the store changes.
pub open spec fn spec_step_ok(
    pre_s: SyncSession,
    pre_db: DB,
    ev: RemoteEvent,
    post_s: SyncSession,
    post_db: DB,
    a: RemoteAction,
) -> bool {
    match pre_s.spec_phase() {
        SyncPhase::PushAnnDeletes => {
            &&& tables_unchanged(pre_db, post_db)
            &&& sess_data_same(pre_s, post_s)
            &&& if pre_db.annotation_deletes_seq().len() == 0 {
                a is Continue && post_s.spec_phase() == SyncPhase::PushEntryDeletes
            } else {
                a == RemoteAction::DeleteAnnotation(pre_db.annotation_deletes_seq()[0])
                    && post_s.spec_phase() == SyncPhase::AwaitAnnDelete(
                    pre_db.annotation_deletes_seq()[0],
                )
            }
        },
        SyncPhase::AwaitAnnDelete(_) => {
            &&& tables_unchanged(pre_db, post_db)
            &&& sess_data_same(pre_s, post_s)
            &&& a is Continue
            &&& post_s.spec_phase() == SyncPhase::PushAnnDeletes
        },
        SyncPhase::PushEntryDeletes => {
            &&& tables_unchanged(pre_db, post_db)
            &&& sess_data_same(pre_s, post_s)
            &&& if pre_db.entry_deletes_seq().len() == 0 {
                a is Continue && post_s.spec_phase() == SyncPhase::Fetch
            } else {
                a == RemoteAction::DeleteEntry(pre_db.entry_deletes_seq()[0])
                    && post_s.spec_phase() == SyncPhase::AwaitEntryDelete(
                    pre_db.entry_deletes_seq()[0],
                )
            }
        },
        SyncPhase::AwaitEntryDelete(_) => {
            &&& tables_unchanged(pre_db, post_db)
            &&& sess_data_same(pre_s, post_s)
            &&& a is Continue
            &&& post_s.spec_phase() == SyncPhase::PushEntryDeletes
        },
        SyncPhase::Fetch => {
            &&& tables_unchanged(pre_db, post_db)
            &&& sess_data_same(pre_s, post_s)
            &&& post_s.spec_since() == pre_db.spec_last_sync()
            &&& post_s.spec_phase() == SyncPhase::AwaitEntries
            &&& match pre_s.spec_mode() {
                SyncMode::Normal => a matches RemoteAction::ListEntries(f) && f.since
                    == pre_db.spec_last_sync() && f.archive is None && f.starred is None
                    && f.public is None && f.tags@.len() == 0 && f.sort == SortBy::Created
                    && f.order == SortOrder::Desc,
                SyncMode::Full => a is ListAllEntries,
            }
        },
        SyncPhase::AwaitEntries => {
            &&& tables_unchanged(pre_db, post_db)
            &&& ev matches RemoteEvent::Entries(v) ==> {
                &&& post_s.remaining_seq() == v@
                &&& post_s.seen_entries_seq() == spec_ids_of_entries(v@)
                &&& post_s.seen_annotations_seq() == spec_seen_ann_ids(v@)
            }
            &&& post_s.pending_anns_seq() == pre_s.pending_anns_seq()
            &&& post_s.spec_pending_entry() == pre_s.spec_pending_entry()
            &&& post_s.spec_phase() == SyncPhase::ProcessEntries
            &&& a is Continue
        },
        SyncPhase::ProcessEntries => {
            if pre_s.remaining_seq().len() == 0 {
                &&& tables_unchanged(pre_db, post_db)
                &&& sess_data_same(pre_s, post_s)
                &&& a is Continue
                &&& post_s.spec_phase() == (match pre_s.spec_mode() {
                    SyncMode::Full => SyncPhase::DetectDeletedEntries,
                    SyncMode::Normal => SyncPhase::PushLocalEntries,
                })
            } else {
                let e = pre_s.remaining_seq()[0];
                let local = lookup(pre_db.entries_seq(), e@.id);
                &&& post_s.remaining_seq() == pre_s.remaining_seq().drop_first()
                &&& post_s.seen_entries_seq() == pre_s.seen_entries_seq()
                &&& post_s.seen_annotations_seq() == pre_s.seen_annotations_seq()
                &&& match spec_resolve(
                    crate::resolver::spec_entry_updated(local),
                    e.updated_at,
                ) {
                    ResolveAction::Pull => {
                        &&& pulled(pre_db, post_db, post_s, e)
                        &&& a is Continue
                        &&& post_s.spec_phase() == SyncPhase::DrainAnns(ResumeTo::Entries)
                    },
                    ResolveAction::NoOp => {
                        &&& tables_unchanged(pre_db, post_db)
                        &&& post_s.pending_anns_seq() == spec_anns_of_entry(e)
                        &&& post_s.spec_pending_entry() == e.id
                        &&& a is Continue
                        &&& post_s.spec_phase() == SyncPhase::DrainAnns(ResumeTo::Entries)
                    },
                    ResolveAction::Push => {
                        &&& tables_unchanged(pre_db, post_db)
                        &&& post_s.pending_anns_seq() == pre_s.pending_anns_seq()
                        &&& post_s.spec_pending_entry() == pre_s.spec_pending_entry()
                        &&& a matches RemoteAction::UpdateEntry(id, p) && id == e.id && p@
                            == spec_patch_of_entry(local.unwrap()@)
                        &&& post_s.spec_phase() == SyncPhase::AwaitEntryPush
                    },
                }
            }
        },
        SyncPhase::AwaitEntryPush => {
            &&& ev matches RemoteEvent::Entry(e) ==> pulled(pre_db, post_db, post_s, e)
            &&& post_s.remaining_seq() == pre_s.remaining_seq()
            &&& post_s.seen_entries_seq() == pre_s.seen_entries_seq()
            &&& post_s.seen_annotations_seq() == pre_s.seen_annotations_seq()
            &&& a is Continue
            &&& post_s.spec_phase() == SyncPhase::DrainAnns(ResumeTo::Entries)
        },
        SyncPhase::DrainAnns(res) => {
            if pre_s.pending_anns_seq().len() == 0 {
                &&& tables_unchanged(pre_db, post_db)
                &&& sess_data_same(pre_s, post_s)
                &&& a is Continue
                &&& post_s.spec_phase() == (match res {
                    ResumeTo::Entries => SyncPhase::ProcessEntries,
                    ResumeTo::Creates => SyncPhase::CreateUrls,
                })
            } else {
                let ann = pre_s.pending_anns_seq()[0];
                let local = lookup(pre_db.annotations_seq(), ann@.id);
                let local_ann = match local {
                    Some(row) => Some(row.ann),
                    None => None,
                };
                &&& post_s.pending_anns_seq() == pre_s.pending_anns_seq().drop_first()
                &&& post_s.spec_pending_entry() == pre_s.spec_pending_entry()
                &&& post_s.remaining_seq() == pre_s.remaining_seq()
                &&& post_s.seen_entries_seq() == pre_s.seen_entries_seq()
                &&& post_s.seen_annotations_seq() == pre_s.seen_annotations_seq()
                &&& match spec_resolve(
                    crate::resolver::spec_annotation_updated(local_ann),
                    ann.updated_at,
                ) {
                    ResolveAction::Pull => {
                        &&& db_ann_saved(pre_db, post_db, ann, pre_s.spec_pending_entry())
                        &&& a is Continue
                        &&& post_s.spec_phase() == SyncPhase::DrainAnns(res)
                    },
                    ResolveAction::NoOp => {
                        &&& tables_unchanged(pre_db, post_db)
                        &&& a is Continue
                        &&& post_s.spec_phase() == SyncPhase::DrainAnns(res)
                    },
                    ResolveAction::Push => {
                        &&& tables_unchanged(pre_db, post_db)
                        &&& a matches RemoteAction::UpdateAnnotation(out) && out@
                            == local.unwrap().ann@
                        &&& post_s.spec_phase() == SyncPhase::AwaitAnnPush(res)
                    },
                }
            }
        },
        SyncPhase::AwaitAnnPush(res) => {
            &&& ev matches RemoteEvent::Ann(a2) ==> db_ann_saved(
                pre_db,
                post_db,
                a2,
                pre_s.spec_pending_entry(),
            )
            &&& sess_data_same(pre_s, post_s)
            &&& a is Continue
            &&& post_s.spec_phase() == SyncPhase::DrainAnns(res)
        },
        SyncPhase::DetectDeletedEntries => {
            &&& sess_data_same(pre_s, post_s)
            &&& match spec_first_unseen_entry(pre_db.entries_seq(), pre_s.seen_entries_seq()) {
                Some(id) => {
                    &&& db_entry_deleted(pre_db, post_db, id)
                    &&& a is Continue
                    &&& post_s.spec_phase() == SyncPhase::DetectDeletedEntries
                },
                None => {
                    &&& tables_unchanged(pre_db, post_db)
                    &&& a is Continue
                    &&& post_s.spec_phase() == SyncPhase::DetectDeletedAnns
                },
            }
        },
        SyncPhase::DetectDeletedAnns => {
            &&& sess_data_same(pre_s, post_s)
            &&& match spec_first_unseen_ann(
                pre_db.annotations_seq(),
                pre_s.seen_annotations_seq(),
            ) {
                Some(id) => {
                    &&& db_ann_deleted(pre_db, post_db, id)
                    &&& a is Continue
                    &&& post_s.spec_phase() == SyncPhase::DetectDeletedAnns
                },
                None => {
                    &&& tables_unchanged(pre_db, post_db)
                    &&& a is Continue
                    &&& post_s.spec_phase() == SyncPhase::CreateUrls
                },
            }
        },
        SyncPhase::PushLocalEntries => {
            &&& tables_unchanged(pre_db, post_db)
            &&& sess_data_same(pre_s, post_s)
            &&& match spec_first_push_entry(
                pre_db.entries_seq(),
                pre_s.spec_since(),
                pre_s.seen_entries_seq(),
            ) {
                Some(e) => {
                    &&& a matches RemoteAction::UpdateEntry(id, p) && id == e.id && p@
                        == spec_patch_of_entry(e@)
                    &&& post_s.spec_phase() == SyncPhase::AwaitLocalEntryPush(e.id)
                },
                None => {
                    &&& a is Continue
                    &&& post_s.spec_phase() == SyncPhase::PushLocalAnnotations
                },
            }
        },
        SyncPhase::AwaitLocalEntryPush(id) => {
            // A push always pulls the server's canonicalized response
            // back in.
            &&& ev matches RemoteEvent::Entry(e) ==> db_entry_saved(pre_db, post_db, e)
            &&& post_s.seen_entries_seq() == pre_s.seen_entries_seq().push(id)
            &&& post_s.remaining_seq() == pre_s.remaining_seq()
            &&& post_s.pending_anns_seq() == pre_s.pending_anns_seq()
            &&& post_s.spec_pending_entry() == pre_s.spec_pending_entry()
            &&& post_s.seen_annotations_seq() == pre_s.seen_annotations_seq()
            &&& a is Continue
            &&& post_s.spec_phase() == SyncPhase::PushLocalEntries
        },
        SyncPhase::PushLocalAnnotations => {
            &&& tables_unchanged(pre_db, post_db)
            &&& sess_data_same(pre_s, post_s)
            &&& match spec_first_push_ann(
                pre_db.annotations_seq(),
                pre_s.spec_since(),
                pre_s.seen_annotations_seq(),
            ) {
                Some(row) => {
                    &&& a matches RemoteAction::UpdateAnnotation(out) && out@ == row.ann@
                    &&& post_s.spec_phase() == SyncPhase::AwaitLocalAnnPush(
                        row.ann.id,
                        row.entry_id,
                    )
                },
                None => {
                    &&& a is Continue
                    &&& post_s.spec_phase() == SyncPhase::CreateUrls
                },
            }
        },
        SyncPhase::AwaitLocalAnnPush(id, eid) => {
            // A push always pulls the server's canonicalized response
            // back in, under the entry the annotation belongs to.
            &&& ev matches RemoteEvent::Ann(a2) ==> db_ann_saved(pre_db, post_db, a2, eid)
            &&& post_s.seen_annotations_seq() == pre_s.seen_annotations_seq().push(id)
            &&& post_s.remaining_seq() == pre_s.remaining_seq()
            &&& post_s.pending_anns_seq() == pre_s.pending_anns_seq()
            &&& post_s.spec_pending_entry() == pre_s.spec_pending_entry()
            &&& post_s.seen_entries_seq() == pre_s.seen_entries_seq()
            &&& a is Continue
            &&& post_s.spec_phase() == SyncPhase::PushLocalAnnotations
        },
        SyncPhase::CreateUrls => {
            &&& tables_unchanged(pre_db, post_db)
            &&& sess_data_same(pre_s, post_s)
            &&& if pre_db.new_urls_seq().len() == 0 {
                a is Continue && post_s.spec_phase() == SyncPhase::CreateAnns
            } else {
                &&& a matches RemoteAction::CreateEntry(ne) && ne.url@
                    == pre_db.new_urls_seq()[0].url@ && ne.title is None && ne.tags is None
                    && ne.archive is None && ne.starred is None && ne.public is None
                    && ne.content is None && ne.language is None && ne.preview_picture is None
                    && ne.published_at is None && ne.authors is None && ne.origin_url is None
                &&& post_s.spec_phase() == SyncPhase::AwaitCreateEntry(
                    pre_db.new_urls_seq()[0].id,
                )
            }
        },
        SyncPhase::AwaitCreateEntry(_) => {
            &&& ev matches RemoteEvent::Entry(e) ==> pulled(pre_db, post_db, post_s, e)
            &&& post_s.remaining_seq() == pre_s.remaining_seq()
            &&& post_s.seen_entries_seq() == pre_s.seen_entries_seq()
            &&& post_s.seen_annotations_seq() == pre_s.seen_annotations_seq()
            &&& a is Continue
            &&& post_s.spec_phase() == SyncPhase::DrainAnns(ResumeTo::Creates)
        },
        SyncPhase::CreateAnns => {
            &&& tables_unchanged(pre_db, post_db)
            &&& sess_data_same(pre_s, post_s)
            &&& if pre_db.new_annotations_seq().len() == 0 {
                a is Continue && post_s.spec_phase() == SyncPhase::Cleanup
            } else {
                let row = pre_db.new_annotations_seq()[0];
                &&& a matches RemoteAction::CreateAnnotation(eid, payload) && eid == row.entry_id
                    && payload@ == row.payload@
                &&& post_s.spec_phase() == SyncPhase::AwaitCreateAnn(row.id, row.entry_id)
            }
        },
        SyncPhase::AwaitCreateAnn(_, eid) => {
            &&& ev matches RemoteEvent::Ann(a2) ==> db_ann_saved(pre_db, post_db, a2, eid)
            &&& sess_data_same(pre_s, post_s)
            &&& a is Continue
            &&& post_s.spec_phase() == SyncPhase::CreateAnns
        },
        SyncPhase::Cleanup => {
            &&& db_tags_gced(pre_db, post_db)
            &&& sess_data_same(pre_s, post_s)
            &&& a is ReadClock
            &&& post_s.spec_phase() == SyncPhase::Commit
        },
        SyncPhase::Commit => {
            &&& tables_unchanged(pre_db, post_db)
            &&& sess_data_same(pre_s, post_s)
            &&& a is Finished
            &&& post_s.spec_phase() == SyncPhase::Done
        },
        SyncPhase::Done => false,
    }
}

/// Law: the watermark is monotonic. Across a whole run, only the final
/// commit step touches `last_sync` — every other step, and every step
/// that is refused, leaves it unchanged (see the watermark clauses of
/// [`SyncSession::step`]) — so whenever the clock instant handed to the
/// commit is not before the current watermark, the watermark never
/// decreases. A run that aborts before the commit leaves it untouched.
pub proof fn lemma_watermark_monotonic(pre: DB, post: DB, t: i64)
    requires
        post.spec_last_sync() == t || post.spec_last_sync() == pre.spec_last_sync(),
        t >= pre.spec_last_sync(),
    ensures
        post.spec_last_sync() >= pre.spec_last_sync(),
{
}

/// Law: full-sync remote-deletion detection is complete and precise. The
/// deletion phase stops exactly when every locally cached entry id is in
/// the remote enumeration — so a local id the complete remote set lacks
/// is always removed, and (by the frame of each deletion step) an id the
/// remote set does mention is never touched by this phase.
pub proof fn lemma_remote_deletion_detection(s: Seq<Entry>, seen: Seq<ID>)
    ensures
        (spec_first_unseen_entry(s, seen) is None) <==> (forall|j: int|
            0 <= j < s.len() ==> seen.contains(s[j].id)),
    decreases s.len(),
{
    if s.len() > 0 {
        assert(forall|j: int| 0 <= j < s.drop_first().len() ==> s.drop_first()[j] == s[j + 1]);
        lemma_remote_deletion_detection(s.drop_first(), seen);
        if spec_first_unseen_entry(s, seen) is None {
            assert forall|j: int| 0 <= j < s.len() implies seen.contains(s[j].id) by {
                if j > 0 {
                    assert(s.drop_first()[j - 1] == s[j]);
                }
            }
        }
    }
}

/// Law: the same, for annotations.
pub proof fn lemma_remote_ann_deletion_detection(s: Seq<AnnotationRow>, seen: Seq<ID>)
    ensures
        (spec_first_unseen_ann(s, seen) is None) <==> (forall|j: int|
            0 <= j < s.len() ==> seen.contains(s[j].ann.id)),
    decreases s.len(),
{
    if s.len() > 0 {
        assert(forall|j: int| 0 <= j < s.drop_first().len() ==> s.drop_first()[j] == s[j + 1]);
        lemma_remote_ann_deletion_detection(s.drop_first(), seen);
        if spec_first_unseen_ann(s, seen) is None {
            assert forall|j: int| 0 <= j < s.len() implies seen.contains(s[j].ann.id) by {
                if j > 0 {
                    assert(s.drop_first()[j - 1] == s[j]);
                }
            }
        }
    }
}

/// Whether the list holds the id.
pub fn contains_id(v: &Vec<ID>, id: ID) -> (r: bool)
    ensures
        r == v@.contains(id),
{
    let mut i: usize = 0;
    while i < v.len()
        invariant
            i <= v@.len(),
            forall|j: int| 0 <= j < i ==> v@[j] != id,
        decreases v@.len() - i,
    {
        if v[i].0 == id.0 {
            return true;
        }
        i = i + 1;
    }
    false
}

/// The ids of the given entries, in order.
fn ids_of_entries(v: &Vec<Entry>) -> (r: Vec<ID>)
    ensures
        r@ == spec_ids_of_entries(v@),
{
    let mut r: Vec<ID> = Vec::new();
    let mut i: usize = 0;
    while i < v.len()
        invariant
            i <= v@.len(),
            r@ == spec_ids_of_entries(v@.take(i as int)),
        decreases v@.len() - i,
    {
        r.push(v[i].id);
        proof {
            assert(r@ =~= spec_ids_of_entries(v@.take(i + 1)));
        }
        i = i + 1;
    }
    proof {
        assert(v@.take(v@.len() as int) =~= v@);
    }
    r
}

/// The annotation ids embedded across the given entries, in order.
fn seen_ann_ids_of(v: &Vec<Entry>) -> (r: Vec<ID>)
    ensures
        r@ == spec_seen_ann_ids(v@),
{
    let mut r: Vec<ID> = Vec::new();
    let mut i: usize = 0;
    while i < v.len()
        invariant
            i <= v@.len(),
            r@ == spec_seen_ann_ids(v@.take(i as int)),
        decreases v@.len() - i,
    {
        proof {
            assert(v@.take(i + 1).drop_last() =~= v@.take(i as int));
            assert(v@.take(i + 1).last() == v@[i as int]);
        }
        match &v[i].annotations {
            None => {
                proof {
                    assert(spec_ann_ids_of(v@[i as int]) =~= Seq::<ID>::empty());
                    assert(r@ =~= spec_seen_ann_ids(v@.take(i + 1)));
                }
            },
            Some(anns) => {
                let ghost base = r@;
                let mut j: usize = 0;
                while j < anns.len()
                    invariant
                        j <= anns@.len(),
                        r@ == base + anns@.take(j as int).map_values(|a: Annotation| a.id),
                    decreases anns@.len() - j,
                {
                    r.push(anns[j].id);
                    proof {
                        assert(r@ =~= base + anns@.take(j + 1).map_values(
                            |a: Annotation| a.id,
                        ));
                    }
                    j = j + 1;
                }
                proof {
                    assert(anns@.take(anns@.len() as int) =~= anns@);
                    assert(spec_ann_ids_of(v@[i as int]) == anns@.map_values(
                        |a: Annotation| a.id,
                    ));
                    assert(r@ =~= spec_seen_ann_ids(v@.take(i + 1)));
                }
            },
        }
        i = i + 1;
    }
    proof {
        assert(v@.take(v@.len() as int) =~= v@);
    }
    r
}

proof fn lemma_first_unseen_entry_some(s: Seq<Entry>, seen: Seq<ID>, i: int)
    requires
        0 <= i < s.len(),
        !seen.contains(s[i].id),
        forall|j: int| 0 <= j < i ==> seen.contains(s[j].id),
    ensures
        spec_first_unseen_entry(s, seen) == Some(s[i].id),
    decreases s.len(),
{
    if i > 0 {
        lemma_first_unseen_entry_some(s.drop_first(), seen, i - 1);
    }
}

proof fn lemma_first_unseen_entry_none(s: Seq<Entry>, seen: Seq<ID>)
    requires
        forall|j: int| 0 <= j < s.len() ==> seen.contains(s[j].id),
    ensures
        spec_first_unseen_entry(s, seen) is None,
    decreases s.len(),
{
    if s.len() > 0 {
        assert(forall|j: int|
            0 <= j < s.drop_first().len() ==> s.drop_first()[j] == s[j + 1]);
        lemma_first_unseen_entry_none(s.drop_first(), seen);
    }
}

/// The first locally cached entry id that the remote enumeration did not
/// mention, if any.
fn find_unseen_entry_id(entries: &Vec<Entry>, seen: &Vec<ID>) -> (r: Option<ID>)
    ensures
        r == spec_first_unseen_entry(entries@, seen@),
{
    let mut i: usize = 0;
    while i < entries.len()
        invariant
            i <= entries@.len(),
            forall|j: int| 0 <= j < i ==> seen@.contains(entries@[j].id),
        decreases entries@.len() - i,
    {
        if !contains_id(seen, entries[i].id) {
            proof {
                lemma_first_unseen_entry_some(entries@, seen@, i as int);
            }
            return Some(entries[i].id);
        }
        i = i + 1;
    }
    proof {
        lemma_first_unseen_entry_none(entries@, seen@);
    }
    None
}

proof fn lemma_first_unseen_ann_some(s: Seq<AnnotationRow>, seen: Seq<ID>, i: int)
    requires
        0 <= i < s.len(),
        !seen.contains(s[i].ann.id),
        forall|j: int| 0 <= j < i ==> seen.contains(s[j].ann.id),
    ensures
        spec_first_unseen_ann(s, seen) == Some(s[i].ann.id),
    decreases s.len(),
{
    if i > 0 {
        lemma_first_unseen_ann_some(s.drop_first(), seen, i - 1);
    }
}

proof fn lemma_first_unseen_ann_none(s: Seq<AnnotationRow>, seen: Seq<ID>)
    requires
        forall|j: int| 0 <= j < s.len() ==> seen.contains(s[j].ann.id),
    ensures
        spec_first_unseen_ann(s, seen) is None,
    decreases s.len(),
{
    if s.len() > 0 {
        assert(forall|j: int|
            0 <= j < s.drop_first().len() ==> s.drop_first()[j] == s[j + 1]);
        lemma_first_unseen_ann_none(s.drop_first(), seen);
    }
}

/// The first locally cached annotation id that the remote enumeration did
/// not mention, if any.
fn find_unseen_ann_id(anns: &Vec<AnnotationRow>, seen: &Vec<ID>) -> (r: Option<ID>)
    ensures
        r == spec_first_unseen_ann(anns@, seen@),
{
    let mut i: usize = 0;
    while i < anns.len()
        invariant
            i <= anns@.len(),
            forall|j: int| 0 <= j < i ==> seen@.contains(anns@[j].ann.id),
        decreases anns@.len() - i,
    {
        if !contains_id(seen, anns[i].ann.id) {
            proof {
                lemma_first_unseen_ann_some(anns@, seen@, i as int);
            }
            return Some(anns[i].ann.id);
        }
        i = i + 1;
    }
    proof {
        lemma_first_unseen_ann_none(anns@, seen@);
    }
    None
}

proof fn lemma_first_push_entry_some(s: Seq<Entry>, since: i64, seen: Seq<ID>, i: int)
    requires
        0 <= i < s.len(),
        s[i].updated_at >= since && !seen.contains(s[i].id),
        forall|j: int| 0 <= j < i ==> !(s[j].updated_at >= since && !seen.contains(s[j].id)),
    ensures
        spec_first_push_entry(s, since, seen) == Some(s[i]),
    decreases s.len(),
{
    if i > 0 {
        lemma_first_push_entry_some(s.drop_first(), since, seen, i - 1);
    }
}

proof fn lemma_first_push_entry_none(s: Seq<Entry>, since: i64, seen: Seq<ID>)
    requires
        forall|j: int|
            0 <= j < s.len() ==> !(s[j].updated_at >= since && !seen.contains(s[j].id)),
    ensures
        spec_first_push_entry(s, since, seen) is None,
    decreases s.len(),
{
    if s.len() > 0 {
        assert(forall|j: int|
            0 <= j < s.drop_first().len() ==> s.drop_first()[j] == s[j + 1]);
        lemma_first_push_entry_none(s.drop_first(), since, seen);
    }
}

/// The index of the first locally changed entry the pull did not touch.
fn find_push_entry(entries: &Vec<Entry>, since: i64, seen: &Vec<ID>) -> (r: Option<usize>)
    ensures
        match r {
            Some(i) => i < entries@.len() && spec_first_push_entry(entries@, since, seen@)
                == Some(entries@[i as int]),
            None => spec_first_push_entry(entries@, since, seen@) is None,
        },
{
    let mut i: usize = 0;
    while i < entries.len()
        invariant
            i <= entries@.len(),
            forall|j: int|
                0 <= j < i ==> !(entries@[j].updated_at >= since && !seen@.contains(
                    entries@[j].id,
                )),
        decreases entries@.len() - i,
    {
        if entries[i].updated_at >= since && !contains_id(seen, entries[i].id) {
            proof {
                lemma_first_push_entry_some(entries@, since, seen@, i as int);
            }
            return Some(i);
        }
        i = i + 1;
    }
    proof {
        lemma_first_push_entry_none(entries@, since, seen@);
    }
    None
}

proof fn lemma_first_push_ann_some(s: Seq<AnnotationRow>, since: i64, seen: Seq<ID>, i: int)
    requires
        0 <= i < s.len(),
        s[i].ann.updated_at >= since && !seen.contains(s[i].ann.id),
        forall|j: int|
            0 <= j < i ==> !(s[j].ann.updated_at >= since && !seen.contains(s[j].ann.id)),
    ensures
        spec_first_push_ann(s, since, seen) == Some(s[i]),
    decreases s.len(),
{
    if i > 0 {
        lemma_first_push_ann_some(s.drop_first(), since, seen, i - 1);
    }
}

proof fn lemma_first_push_ann_none(s: Seq<AnnotationRow>, since: i64, seen: Seq<ID>)
    requires
        forall|j: int|
            0 <= j < s.len() ==> !(s[j].ann.updated_at >= since && !seen.contains(s[j].ann.id)),
    ensures
        spec_first_push_ann(s, since, seen) is None,
    decreases s.len(),
{
    if s.len() > 0 {
        assert(forall|j: int|
            0 <= j < s.drop_first().len() ==> s.drop_first()[j] == s[j + 1]);
        lemma_first_push_ann_none(s.drop_first(), since, seen);
    }
}

/// The index of the first locally changed annotation the pull did not
/// touch.
fn find_push_ann(anns: &Vec<AnnotationRow>, since: i64, seen: &Vec<ID>) -> (r: Option<usize>)
    ensures
        match r {
            Some(i) => i < anns@.len() && spec_first_push_ann(anns@, since, seen@) == Some(
                anns@[i as int],
            ),
            None => spec_first_push_ann(anns@, since, seen@) is None,
        },
{
    let mut i: usize = 0;
    while i < anns.len()
        invariant
            i <= anns@.len(),
            forall|j: int|
                0 <= j < i ==> !(anns@[j].ann.updated_at >= since && !seen@.contains(
                    anns@[j].ann.id,
                )),
        decreases anns@.len() - i,
    {
        if anns[i].ann.updated_at >= since && !contains_id(seen, anns[i].ann.id) {
            proof {
                lemma_first_push_ann_some(anns@, since, seen@, i as int);
            }
            return Some(i);
        }
        i = i + 1;
    }
    proof {
        lemma_first_push_ann_none(anns@, since, seen@);
    }
    None
}

impl SyncSession {
    /// Write a remote entry into the store and keep its embedded
    /// annotations for reconciliation.
    fn pull_entry(&mut self, db: &mut DB, e: Entry)
        requires
            old(db).wf(),
        ensures
            final(db).wf(),
            pulled(*old(db), *final(db), *final(self), e),
            DB::queues_same(*old(db), *final(db)),
            final(db).spec_last_sync() == old(db).spec_last_sync(),
            final(db).spec_initialized() == old(db).spec_initialized(),
            final(self).spec_mode() == old(self).spec_mode(),
            final(self).spec_since() == old(self).spec_since(),
            final(self).spec_phase() == old(self).spec_phase(),
            final(self).remaining_seq() == old(self).remaining_seq(),
            final(self).seen_entries_seq() == old(self).seen_entries_seq(),
            final(self).seen_annotations_seq() == old(self).seen_annotations_seq(),
    {
        let mut row = e;
        let anns = row.annotations.take();
        self.pending_entry = row.id;
        self.pending_anns = (match anns {
            Some(v) => v,
            None => Vec::new(),
        });
        let ghost stripped = row;
        db.save_entry(row);
        proof {
            assert((Entry { annotations: None, ..stripped }) == (Entry {
                annotations: None,
                ..e
            }));
            assert(stripped@.tags == e@.tags);
            assert(stripped@.id == e@.id);
        }
    }

    /// Advance the session by one step: consume the outcome of the last
    /// remote request and hand out the next one. An event the current
    /// phase does not wait for is refused, with store and session
    /// untouched.
    #[verifier::rlimit(100)]
    pub fn step(&mut self, db: &mut DB, event: RemoteEvent) -> (r: Result<
        RemoteAction,
        SyncError,
    >)
        requires
            old(db).wf(),
        ensures
            final(db).wf(),
            r is Ok <==> spec_expects(old(self).spec_phase(), event),
            r matches Err(e2) ==> e2 == SyncError::UnexpectedEvent && *final(db) == *old(db)
                && *final(self) == *old(self),
            r matches Ok(a) ==> spec_step_ok(
                *old(self),
                *old(db),
                event,
                *final(self),
                *final(db),
                a,
            ),
            final(self).spec_mode() == old(self).spec_mode(),
            !(old(self).spec_phase() is Fetch) ==> final(self).spec_since() == old(self).spec_since(),
            old(self).spec_phase() is Commit ==> (event matches RemoteEvent::Time(t) ==> final(db).spec_last_sync() == t),
            !(old(self).spec_phase() is Commit) ==> final(db).spec_last_sync() == old(db).spec_last_sync(),
            final(db).spec_initialized() == old(db).spec_initialized(),
            final(db).spec_next_url_id() == old(db).spec_next_url_id(),
            final(db).spec_next_new_annotation_id() == old(db).spec_next_new_annotation_id(),
            (match old(self).spec_phase() {
                SyncPhase::AwaitAnnDelete(id) => if event is Ack {
                    lookup(final(db).annotation_deletes_seq(), id.0 as int) is None && (match
                    lookup(old(db).annotation_deletes_seq(), id.0 as int) {
                        Some(_) => exists|i: int|
                            0 <= i < old(db).annotation_deletes_seq().len() && old(db).annotation_deletes_seq()[i] == id && final(db).annotation_deletes_seq() == old(db).annotation_deletes_seq().remove(
                                i,
                            ),
                        None => final(db).annotation_deletes_seq() == old(db).annotation_deletes_seq(),
                    })
                } else {
                    final(db).annotation_deletes_seq() == old(db).annotation_deletes_seq()
                },
                _ => final(db).annotation_deletes_seq() == old(db).annotation_deletes_seq(),
            }),
            (match old(self).spec_phase() {
                SyncPhase::AwaitEntryDelete(id) => if event is Ack {
                    lookup(final(db).entry_deletes_seq(), id.0 as int) is None && (match lookup(
                        old(db).entry_deletes_seq(),
                        id.0 as int,
                    ) {
                        Some(_) => exists|i: int|
                            0 <= i < old(db).entry_deletes_seq().len() && old(db).entry_deletes_seq()[i] == id && final(db).entry_deletes_seq() == old(db).entry_deletes_seq().remove(i),
                        None => final(db).entry_deletes_seq() == old(db).entry_deletes_seq(),
                    })
                } else {
                    final(db).entry_deletes_seq() == old(db).entry_deletes_seq()
                },
                _ => final(db).entry_deletes_seq() == old(db).entry_deletes_seq(),
            }),
            (match old(self).spec_phase() {
                SyncPhase::AwaitCreateEntry(lid) => if event is Entry {
                    lookup(final(db).new_urls_seq(), lid as int) is None && (match lookup(
                        old(db).new_urls_seq(),
                        lid as int,
                    ) {
                        Some(_) => exists|i: int|
                            0 <= i < old(db).new_urls_seq().len() && old(db).new_urls_seq()[i].id
                                == lid && final(db).new_urls_seq() == old(db).new_urls_seq().remove(i),
                        None => final(db).new_urls_seq() == old(db).new_urls_seq(),
                    })
                } else {
                    final(db).new_urls_seq() == old(db).new_urls_seq()
                },
                _ => final(db).new_urls_seq() == old(db).new_urls_seq(),
            }),
            (match old(self).spec_phase() {
                SyncPhase::AwaitCreateAnn(lid, _) => if event is Ann {
                    lookup(final(db).new_annotations_seq(), lid as int) is None && (match lookup(
                        old(db).new_annotations_seq(),
                        lid as int,
                    ) {
                        Some(_) => exists|i: int|
                            0 <= i < old(db).new_annotations_seq().len() && old(db).new_annotations_seq()[i].id == lid && final(db).new_annotations_seq() == old(db).new_annotations_seq().remove(i),
                        None => final(db).new_annotations_seq() == old(db).new_annotations_seq(),
                    })
                } else {
                    final(db).new_annotations_seq() == old(db).new_annotations_seq()
                },
                _ => final(db).new_annotations_seq() == old(db).new_annotations_seq(),
            }),
    {
        let ph = self.phase;
        match (ph, event) {
            (SyncPhase::PushAnnDeletes, RemoteEvent::Proceed) => {
                let dels = db.get_annotation_deletes();
                if dels.len() == 0 {
                    self.phase = SyncPhase::PushEntryDeletes;
                    Ok(RemoteAction::Continue)
                } else {
                    let id = dels[0];
                    self.phase = SyncPhase::AwaitAnnDelete(id);
                    Ok(RemoteAction::DeleteAnnotation(id))
                }
            },
            (SyncPhase::AwaitAnnDelete(id), RemoteEvent::Ack) => {
                db.remove_delete_annotation(id);
                self.phase = SyncPhase::PushAnnDeletes;
                proof {
                    if lookup(old(db).annotation_deletes_seq(), id.0 as int) is None {
                        crate::table::lemma_lookup_none(
                            old(db).annotation_deletes_seq(),
                            id.0 as int,
                        );
                        crate::table::lemma_lookup_none(
                            db.annotation_deletes_seq(),
                            id.0 as int,
                        );
                    }
                }
                Ok(RemoteAction::Continue)
            },
            (SyncPhase::PushEntryDeletes, RemoteEvent::Proceed) => {
                let dels = db.get_entry_deletes();
                if dels.len() == 0 {
                    self.phase = SyncPhase::Fetch;
                    Ok(RemoteAction::Continue)
                } else {
                    let id = dels[0];
                    self.phase = SyncPhase::AwaitEntryDelete(id);
                    Ok(RemoteAction::DeleteEntry(id))
                }
            },
            (SyncPhase::AwaitEntryDelete(id), RemoteEvent::Ack) => {
                db.remove_delete_entry(id);
                self.phase = SyncPhase::PushEntryDeletes;
                proof {
                    if lookup(old(db).entry_deletes_seq(), id.0 as int) is None {
                        crate::table::lemma_lookup_none(
                            old(db).entry_deletes_seq(),
                            id.0 as int,
                        );
                        crate::table::lemma_lookup_none(db.entry_deletes_seq(), id.0 as int);
                    }
                }
                Ok(RemoteAction::Continue)
            },
            (SyncPhase::Fetch, RemoteEvent::Proceed) => {
                self.since = db.get_last_sync();
                self.phase = SyncPhase::AwaitEntries;
                match self.mode {
                    SyncMode::Normal => {
                        let mut filter = EntriesFilter::default();
                        filter.since = self.since;
                        Ok(RemoteAction::ListEntries(filter))
                    },
                    SyncMode::Full => Ok(RemoteAction::ListAllEntries),
                }
            },
            (SyncPhase::AwaitEntries, RemoteEvent::Entries(v)) => {
                self.seen_entries = ids_of_entries(&v);
                self.seen_annotations = seen_ann_ids_of(&v);
                self.remaining = v;
                self.phase = SyncPhase::ProcessEntries;
                Ok(RemoteAction::Continue)
            },
            (SyncPhase::ProcessEntries, RemoteEvent::Proceed) => {
                if self.remaining.len() == 0 {
                    self.phase = (match self.mode {
                        SyncMode::Full => SyncPhase::DetectDeletedEntries,
                        SyncMode::Normal => SyncPhase::PushLocalEntries,
                    });
                    Ok(RemoteAction::Continue)
                } else {
                    let e = self.remaining.remove(0);
                    proof {
                        assert(self.remaining@ =~= old(self).remaining_seq().drop_first());
                    }
                    let act = {
                        let local = db.get_entry(e.id);
                        resolve_entry(local, &e)
                    };
                    match act {
                        ResolveAction::Pull => {
                            self.pull_entry(db, e);
                            self.phase = SyncPhase::DrainAnns(ResumeTo::Entries);
                            Ok(RemoteAction::Continue)
                        },
                        ResolveAction::NoOp => {
                            let mut e = e;
                            let anns = e.annotations.take();
                            self.pending_entry = e.id;
                            self.pending_anns = (match anns {
                                Some(v) => v,
                                None => Vec::new(),
                            });
                            self.phase = SyncPhase::DrainAnns(ResumeTo::Entries);
                            Ok(RemoteAction::Continue)
                        },
                        ResolveAction::Push => {
                            match db.get_entry(e.id) {
                                Some(local) => {
                                    let patch = PatchEntry::from(local);
                                    self.phase = SyncPhase::AwaitEntryPush;
                                    Ok(RemoteAction::UpdateEntry(e.id, patch))
                                },
                                None => unreached(),
                            }
                        },
                    }
                }
            },
            (SyncPhase::AwaitEntryPush, RemoteEvent::Entry(e)) => {
                self.pull_entry(db, e);
                self.phase = SyncPhase::DrainAnns(ResumeTo::Entries);
                Ok(RemoteAction::Continue)
            },
            (SyncPhase::DrainAnns(res), RemoteEvent::Proceed) => {
                if self.pending_anns.len() == 0 {
                    self.phase = (match res {
                        ResumeTo::Entries => SyncPhase::ProcessEntries,
                        ResumeTo::Creates => SyncPhase::CreateUrls,
                    });
                    Ok(RemoteAction::Continue)
                } else {
                    let ann = self.pending_anns.remove(0);
                    proof {
                        assert(self.pending_anns@ =~= old(self).pending_anns_seq().drop_first());
                    }
                    let act = {
                        let local = db.get_annotation(ann.id);
                        resolve_annotation(local, &ann)
                    };
                    match act {
                        ResolveAction::Pull => {
                            db.save_annotation(ann, self.pending_entry);
                            Ok(RemoteAction::Continue)
                        },
                        ResolveAction::NoOp => Ok(RemoteAction::Continue),
                        ResolveAction::Push => {
                            match db.get_annotation(ann.id) {
                                Some(local) => {
                                    let out = local.clone();
                                    self.phase = SyncPhase::AwaitAnnPush(res);
                                    Ok(RemoteAction::UpdateAnnotation(out))
                                },
                                None => unreached(),
                            }
                        },
                    }
                }
            },
            (SyncPhase::AwaitAnnPush(res), RemoteEvent::Ann(a2)) => {
                db.save_annotation(a2, self.pending_entry);
                self.phase = SyncPhase::DrainAnns(res);
                Ok(RemoteAction::Continue)
            },
            (SyncPhase::DetectDeletedEntries, RemoteEvent::Proceed) => {
                let found = find_unseen_entry_id(db.get_all_entries(), &self.seen_entries);
                match found {
                    Some(id) => {
                        db.delete_entry(id);
                        Ok(RemoteAction::Continue)
                    },
                    None => {
                        self.phase = SyncPhase::DetectDeletedAnns;
                        Ok(RemoteAction::Continue)
                    },
                }
            },
            (SyncPhase::DetectDeletedAnns, RemoteEvent::Proceed) => {
                let found = find_unseen_ann_id(db.get_annotations(), &self.seen_annotations);
                match found {
                    Some(id) => {
                        db.delete_annotation(id);
                        Ok(RemoteAction::Continue)
                    },
                    None => {
                        self.phase = SyncPhase::CreateUrls;
                        Ok(RemoteAction::Continue)
                    },
                }
            },
            (SyncPhase::PushLocalEntries, RemoteEvent::Proceed) => {
                let found = find_push_entry(db.get_all_entries(), self.since, &self.seen_entries);
                match found {
                    Some(i) => {
                        let local = &db.get_all_entries()[i];
                        let id = local.id;
                        let patch = PatchEntry::from(local);
                        self.phase = SyncPhase::AwaitLocalEntryPush(id);
                        Ok(RemoteAction::UpdateEntry(id, patch))
                    },
                    None => {
                        self.phase = SyncPhase::PushLocalAnnotations;
                        Ok(RemoteAction::Continue)
                    },
                }
            },
            (SyncPhase::AwaitLocalEntryPush(id), RemoteEvent::Entry(e)) => {
                let mut row = e;
                row.annotations = None;
                let ghost stripped = row;
                db.save_entry(row);
                proof {
                    assert((Entry { annotations: None, ..stripped }) == (Entry {
                        annotations: None,
                        ..e
                    }));
                    assert(stripped@.tags == e@.tags);
                    assert(stripped@.id == e@.id);
                }
                self.seen_entries.push(id);
                self.phase = SyncPhase::PushLocalEntries;
                Ok(RemoteAction::Continue)
            },
            (SyncPhase::PushLocalAnnotations, RemoteEvent::Proceed) => {
                let found = find_push_ann(db.get_annotations(), self.since, &self.seen_annotations);
                match found {
                    Some(i) => {
                        let row = &db.get_annotations()[i];
                        let id = row.ann.id;
                        let eid = row.entry_id;
                        let out = row.ann.clone();
                        self.phase = SyncPhase::AwaitLocalAnnPush(id, eid);
                        Ok(RemoteAction::UpdateAnnotation(out))
                    },
                    None => {
                        self.phase = SyncPhase::CreateUrls;
                        Ok(RemoteAction::Continue)
                    },
                }
            },
            (SyncPhase::AwaitLocalAnnPush(id, eid), RemoteEvent::Ann(a2)) => {
                db.save_annotation(a2, eid);
                self.seen_annotations.push(id);
                self.phase = SyncPhase::PushLocalAnnotations;
                Ok(RemoteAction::Continue)
            },
            (SyncPhase::CreateUrls, RemoteEvent::Proceed) => {
                let urls = db.get_new_urls();
                if urls.len() == 0 {
                    self.phase = SyncPhase::CreateAnns;
                    Ok(RemoteAction::Continue)
                } else {
                    let lid = urls[0].id;
                    let url = urls[0].url.clone();
                    self.phase = SyncPhase::AwaitCreateEntry(lid);
                    Ok(RemoteAction::CreateEntry(NewEntry::new_with_url(url)))
                }
            },
            (SyncPhase::AwaitCreateEntry(lid), RemoteEvent::Entry(e)) => {
                self.pull_entry(db, e);
                db.remove_new_url(lid);
                self.phase = SyncPhase::DrainAnns(ResumeTo::Creates);
                Ok(RemoteAction::Continue)
            },
            (SyncPhase::CreateAnns, RemoteEvent::Proceed) => {
                let rows = db.get_new_annotations();
                if rows.len() == 0 {
                    self.phase = SyncPhase::Cleanup;
                    Ok(RemoteAction::Continue)
                } else {
                    let lid = rows[0].id;
                    let eid = rows[0].entry_id;
                    let payload = rows[0].payload.clone();
                    self.phase = SyncPhase::AwaitCreateAnn(lid, eid);
                    Ok(RemoteAction::CreateAnnotation(eid, payload))
                }
            },
            (SyncPhase::AwaitCreateAnn(lid, eid), RemoteEvent::Ann(a2)) => {
                db.save_annotation(a2, eid);
                db.remove_new_annotation(lid);
                self.phase = SyncPhase::CreateAnns;
                Ok(RemoteAction::Continue)
            },
            (SyncPhase::Cleanup, RemoteEvent::Proceed) => {
                db.delete_unused_tags();
                self.phase = SyncPhase::Commit;
                Ok(RemoteAction::ReadClock)
            },
            (SyncPhase::Commit, RemoteEvent::Time(t)) => {
                db.touch_last_sync(t);
                self.phase = SyncPhase::Done;
                Ok(RemoteAction::Finished)
            },
            (_, _) => Err(SyncError::UnexpectedEvent),
        }
    }
}

} // verus!
