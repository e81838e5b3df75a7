//! The backend: a local store together with the operations a front end
//! drives — queries, queueing a URL, and starting sync sessions.

use vstd::prelude::*;

use crate::annotations::Annotation;
use crate::entry::{Entry, EntryView};
use crate::errors::BackendError;
use crate::store::{AnnotationRow, DB};
use crate::sync::{SyncMode, SyncSession};
use crate::table::lookup;
use crate::types::{Tag, ID};

verus! {

broadcast use crate::table::lemma_vec_deep_view;

/// A configuration value that is either a literal string or a command
/// whose output supplies the string; secrets need not sit in the file.
#[derive(Debug)]
pub enum StringOrCmd {
    S(String),
    Cmd { cmd: Vec<String> },
}

/// Backend configuration, as read from the user's configuration file.
#[derive(Debug)]
pub struct Config {
    pub db_file: String,
    pub client_id: StringOrCmd,
    pub client_secret: StringOrCmd,
    pub username: StringOrCmd,
    pub password: StringOrCmd,
    pub base_url: String,
}

/// The store file used when the configuration names none.
pub fn default_db_file() -> (r: String)
    ensures
        r@ == "db.sqlite3"@,
{
    String::from_str("db.sqlite3")
}

/// What `url::Url::parse` makes of a string: `None` where it is not an
/// absolute URL, otherwise the normalized serialization. The outcome
/// depends on the input string alone.
pub uninterp spec fn parsed_url_of(s: Seq<char>) -> Option<Seq<char>>;

/// Relies on url::Url::parse for URL validation and normalization, and
/// on url::Url::as_str for the normalized serialization.
#[verifier::external_body]
fn parse_url_normalized(s: &str) -> (r: Option<String>)
    ensures
        match r {
            Some(u) => parsed_url_of(s@) == Some(u@),
            None => parsed_url_of(s@) is None,
        },
{
    match url::Url::parse(s) {
        Ok(u) => Some(u.as_str().to_owned()),
        Err(_) => None,
    }
}

/// The annotation rows of entry `eid`, in table order.
pub open spec fn spec_annotations_of(s: Seq<AnnotationRow>, eid: int) -> Seq<Annotation>
    decreases s.len(),
{
    if s.len() == 0 {
        Seq::empty()
    } else if s.last().entry_id.0 as int == eid {
        spec_annotations_of(s.drop_last(), eid).push(s.last().ann)
    } else {
        spec_annotations_of(s.drop_last(), eid)
    }
}

/// A local store wired up for a front end.
#[derive(Debug)]
pub struct Backend {
    /// The local store this backend works on.
    pub db: DB,
}

impl Backend {
    /// A backend over a fresh, empty store. A front end that persists
    /// the store loads it into `db` before use.
    pub fn new() -> (r: Backend)
        ensures
            r.db.wf(),
            r.db.entries_seq().len() == 0,
            r.db.spec_last_sync() == 0,
            !r.db.spec_initialized(),
    {
        Backend { db: DB::new() }
    }

    /// Reset the store to a clean state. All local data is lost.
    pub fn reset(&mut self)
        ensures
            final(self).db.wf(),
            final(self).db.entries_seq().len() == 0,
            final(self).db.spec_last_sync() == 0,
            final(self).db.spec_initialized(),
    {
        self.db.reset();
    }

    /// Create the store schema; fail loudly if it already exists.
    pub fn init(&mut self) -> (r: Result<(), crate::errors::DBClientError>)
        ensures
            final(self).db.wf() == old(self).db.wf(),
            r is Ok <==> !old(self).db.spec_initialized(),
            final(self).db.spec_initialized() || r is Err,
            DB::entries_same(old(self).db, final(self).db),
            DB::annotations_same(old(self).db, final(self).db),
            DB::tags_same(old(self).db, final(self).db),
            DB::queues_same(old(self).db, final(self).db),
            final(self).db.spec_last_sync() == old(self).db.spec_last_sync(),
    {
        self.db.init()
    }

    /// Look an entry up by id.
    pub fn get_entry(&self, id: ID) -> (r: Option<&Entry>)
        ensures
            match r {
                Some(e) => lookup(self.db.entries_seq(), id.0 as int) == Some(*e),
                None => lookup(self.db.entries_seq(), id.0 as int) is None,
            },
    {
        self.db.get_entry(id)
    }

    /// The tags cached locally.
    pub fn tags(&self) -> (r: &Vec<Tag>)
        ensures
            r@ == self.db.tags_seq(),
    {
        self.db.get_tags()
    }

    /// The entries cached locally, without annotations attached.
    pub fn entries(&self) -> (r: &Vec<Entry>)
        ensures
            r@ == self.db.entries_seq(),
    {
        self.db.get_all_entries()
    }

    /// All local data: every entry, with its annotations attached.
    pub fn export(&self) -> (r: Vec<Entry>)
        ensures
            r@.len() == self.db.entries_seq().len(),
            forall|j: int|
                0 <= j < r@.len() ==> r@[j]@ == (EntryView {
                    annotations: Some(
                        spec_annotations_of(
                            self.db.annotations_seq(),
                            self.db.entries_seq()[j]@.id,
                        ).map_values(|a: Annotation| a@),
                    ),
                    ..self.db.entries_seq()[j]@
                }),
    {
        let entries = self.db.get_all_entries();
        let mut r: Vec<Entry> = Vec::new();
        let mut i: usize = 0;
        while i < entries.len()
            invariant
                i <= entries@.len(),
                entries@ == self.db.entries_seq(),
                r@.len() == i,
                forall|j: int|
                    0 <= j < i ==> r@[j]@ == (EntryView {
                        annotations: Some(
                            spec_annotations_of(
                                self.db.annotations_seq(),
                                self.db.entries_seq()[j]@.id,
                            ).map_values(|a: Annotation| a@),
                        ),
                        ..self.db.entries_seq()[j]@
                    }),
            decreases entries@.len() - i,
        {
            let mut e = entries[i].clone();
            let anns = annotations_of(self.db.get_annotations(), e.id);
            proof {
                assert(e@ == entries@[i as int]@);
                assert(e@.id == entries@[i as int]@.id);
            }
            e.annotations = Some(anns);
            r.push(e);
            i = i + 1;
        }
        r
    }

    /// Queue a URL to be saved as a new entry at the next sync. The URL
    /// is validated and normalized first; an invalid one is refused and
    /// leaves the store untouched.
    pub fn add_url(&mut self, url: &str) -> (r: Result<(), BackendError>)
        requires
            old(self).db.wf(),
            old(self).db.spec_next_url_id() < i64::MAX,
        ensures
            final(self).db.wf(),
            match r {
                Ok(()) => {
                    &&& parsed_url_of(url@) is Some
                    &&& final(self).db.new_urls_seq().len() == old(self).db.new_urls_seq().len()
                        + 1
                    &&& final(self).db.new_urls_seq().drop_last() == old(self).db.new_urls_seq()
                    &&& final(self).db.new_urls_seq().last().id == old(self).db.spec_next_url_id()
                    &&& final(self).db.new_urls_seq().last().url@ == parsed_url_of(
                        url@,
                    ).unwrap()
                },
                Err(e) => parsed_url_of(url@) is None && e == BackendError::InvalidUrl && *final(self) == *old(self),
            },
    {
        match parse_url_normalized(url) {
            Some(u) => {
                self.db.add_new_url(u);
                Ok(())
            },
            None => Err(BackendError::InvalidUrl),
        }
    }

    /// Begin an incremental sync pass: everything changed since the
    /// watermark, but no remote-deletion detection.
    pub fn sync(&self) -> (r: SyncSession)
        ensures
            r.spec_mode() == SyncMode::Normal,
            r.spec_phase() == crate::sync::SyncPhase::PushAnnDeletes,
    {
        SyncSession::start(SyncMode::Normal)
    }

    /// Begin a full sync pass: the complete remote entry set, with
    /// remote-deletion detection.
    pub fn full_sync(&self) -> (r: SyncSession)
        ensures
            r.spec_mode() == SyncMode::Full,
            r.spec_phase() == crate::sync::SyncPhase::PushAnnDeletes,
    {
        SyncSession::start(SyncMode::Full)
    }
}

/// The annotations of entry `eid`, copied out of the table in order.
pub fn annotations_of(rows: &Vec<AnnotationRow>, eid: ID) -> (r: Vec<Annotation>)
    ensures
        r.deep_view() == spec_annotations_of(rows@, eid.0 as int).map_values(
            |a: Annotation| a@,
        ),
{
    let mut r: Vec<Annotation> = Vec::new();
    let mut i: usize = 0;
    while i < rows.len()
        invariant
            i <= rows@.len(),
            r@.len() <= i,
            r.deep_view() == spec_annotations_of(rows@.take(i as int), eid.0 as int).map_values(
                |a: Annotation| a@,
            ),
        decreases rows@.len() - i,
    {
        let ghost pre = rows@.take(i as int);
        let ghost cur = rows@.take(i + 1);
        proof {
            assert(cur.drop_last() =~= pre);
            assert(cur.last() == rows@[i as int]);
        }
        if rows[i].entry_id.0 == eid.0 {
            let a = rows[i].ann.clone();
            proof {
                assert(a@ == rows@[i as int].ann@);
            }
            r.push(a);
            proof {
                assert(spec_annotations_of(cur, eid.0 as int) == spec_annotations_of(
                    pre,
                    eid.0 as int,
                ).push(rows@[i as int].ann));
                assert(spec_annotations_of(cur, eid.0 as int).map_values(|a2: Annotation| a2@)
                    =~= spec_annotations_of(pre, eid.0 as int).map_values(
                    |a2: Annotation| a2@,
                ).push(rows@[i as int].ann@));
                assert(r.deep_view() =~= spec_annotations_of(cur, eid.0 as int).map_values(
                    |a2: Annotation| a2@,
                ));
            }
        } else {
            proof {
                assert(spec_annotations_of(cur, eid.0 as int) == spec_annotations_of(
                    pre,
                    eid.0 as int,
                ));
            }
        }
        i = i + 1;
    }
    proof {
        assert(rows@.take(rows@.len() as int) =~= rows@);
    }
    r
}

} // verus!
