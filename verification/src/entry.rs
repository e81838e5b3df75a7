//! Entries: saved articles, together with the payloads used to create and
//! patch them remotely.

use vstd::prelude::*;

use crate::annotations::{Annotation, AnnotationView};
use crate::types::{Tag, TagView, ID};

verus! {

/// The ghost value of an [`Entry`].
pub ghost struct EntryView {
    pub id: int,
    pub title: Option<Seq<char>>,
    pub url: Option<Seq<char>>,
    pub content: Option<Seq<char>>,
    pub created_at: i64,
    pub updated_at: i64,
    pub is_archived: bool,
    pub is_starred: bool,
    pub is_public: bool,
    pub domain_name: Option<Seq<char>>,
    pub mimetype: Option<Seq<char>>,
    pub language: Option<Seq<char>>,
    pub reading_time: Option<u32>,
    pub preview_picture: Option<Seq<char>>,
    pub origin_url: Option<Seq<char>>,
    pub published_at: Option<i64>,
    pub published_by: Option<Seq<Seq<char>>>,
    pub starred_at: Option<i64>,
    pub user_id: int,
    pub user_email: Option<Seq<char>>,
    pub user_name: Option<Seq<char>>,
    pub tags: Seq<TagView>,
    pub annotations: Option<Seq<AnnotationView>>,
}

/// A saved article. The id is remote-assigned and stable; `updated_at`
/// strictly orders revisions of the same id.
#[derive(Debug)]
pub struct Entry {
    pub id: ID,
    pub title: Option<String>,
    pub url: Option<String>,
    /// Present only when the article body has been fully fetched.
    pub content: Option<String>,
    /// Seconds since the epoch.
    pub created_at: i64,
    /// Seconds since the epoch; the authoritative ordering key.
    pub updated_at: i64,
    pub is_archived: bool,
    pub is_starred: bool,
    pub is_public: bool,
    pub domain_name: Option<String>,
    pub mimetype: Option<String>,
    pub language: Option<String>,
    pub reading_time: Option<u32>,
    pub preview_picture: Option<String>,
    pub origin_url: Option<String>,
    pub published_at: Option<i64>,
    pub published_by: Option<Vec<String>>,
    pub starred_at: Option<i64>,
    pub user_id: ID,
    pub user_email: Option<String>,
    pub user_name: Option<String>,
    /// The denormalized tag list carried on the entry itself.
    pub tags: Vec<Tag>,
    /// Embedded only by certain remote fetches; the local store keeps
    /// annotations in their own table instead.
    pub annotations: Option<Vec<Annotation>>,
}

impl View for Entry {
    type V = EntryView;

    open spec fn view(&self) -> EntryView {
        EntryView {
            id: self.id.0 as int,
            title: self.title.deep_view(),
            url: self.url.deep_view(),
            content: self.content.deep_view(),
            created_at: self.created_at,
            updated_at: self.updated_at,
            is_archived: self.is_archived,
            is_starred: self.is_starred,
            is_public: self.is_public,
            domain_name: self.domain_name.deep_view(),
            mimetype: self.mimetype.deep_view(),
            language: self.language.deep_view(),
            reading_time: self.reading_time,
            preview_picture: self.preview_picture.deep_view(),
            origin_url: self.origin_url.deep_view(),
            published_at: self.published_at,
            published_by: self.published_by.deep_view(),
            starred_at: self.starred_at,
            user_id: self.user_id.0 as int,
            user_email: self.user_email.deep_view(),
            user_name: self.user_name.deep_view(),
            tags: self.tags.deep_view(),
            annotations: self.annotations.deep_view(),
        }
    }
}

impl DeepView for Entry {
    type V = EntryView;

    open spec fn deep_view(&self) -> EntryView {
        self.view()
    }
}

/// Copy an optional string, keeping its ghost value.
pub fn clone_opt_string(o: &Option<String>) -> (r: Option<String>)
    ensures
        r.deep_view() == o.deep_view(),
{
    match o {
        None => None,
        Some(s) => Some(s.clone()),
    }
}

/// Copy a list of strings, keeping every ghost value.
pub fn clone_string_vec(v: &Vec<String>) -> (r: Vec<String>)
    ensures
        r.deep_view() == v.deep_view(),
{
    let mut r: Vec<String> = Vec::new();
    let mut i: usize = 0;
    while i < v.len()
        invariant
            i <= v.len(),
            r@.len() == i,
            r.deep_view() == v.deep_view().take(i as int),
        decreases v.len() - i,
    {
        let c = v[i].clone();
        r.push(c);
        proof {
            assert(r.deep_view() =~= v.deep_view().take(i + 1));
        }
        i = i + 1;
    }
    proof {
        assert(v.deep_view().take(v.len() as int) =~= v.deep_view());
    }
    r
}

/// Copy a tag list, keeping every ghost value.
pub fn clone_tags(v: &Vec<Tag>) -> (r: Vec<Tag>)
    ensures
        r.deep_view() == v.deep_view(),
{
    let mut r: Vec<Tag> = Vec::new();
    let mut i: usize = 0;
    while i < v.len()
        invariant
            i <= v.len(),
            r@.len() == i,
            r.deep_view() == v.deep_view().take(i as int),
        decreases v.len() - i,
    {
        let c = v[i].clone();
        r.push(c);
        proof {
            assert(r.deep_view() =~= v.deep_view().take(i + 1));
        }
        i = i + 1;
    }
    proof {
        assert(v.deep_view().take(v.len() as int) =~= v.deep_view());
    }
    r
}

/// Copy a list of annotations, keeping every ghost value.
pub fn clone_annotations(v: &Vec<Annotation>) -> (r: Vec<Annotation>)
    ensures
        r.deep_view() == v.deep_view(),
{
    let mut r: Vec<Annotation> = Vec::new();
    let mut i: usize = 0;
    while i < v.len()
        invariant
            i <= v.len(),
            r@.len() == i,
            r.deep_view() == v.deep_view().take(i as int),
        decreases v.len() - i,
    {
        let c = v[i].clone();
        r.push(c);
        proof {
            assert(r.deep_view() =~= v.deep_view().take(i + 1));
        }
        i = i + 1;
    }
    proof {
        assert(v.deep_view().take(v.len() as int) =~= v.deep_view());
    }
    r
}

impl Clone for Entry {
    fn clone(&self) -> (r: Self)
        ensures
            r@ == self@,
    {
        let r = Entry {
            id: self.id,
            title: clone_opt_string(&self.title),
            url: clone_opt_string(&self.url),
            content: clone_opt_string(&self.content),
            created_at: self.created_at,
            updated_at: self.updated_at,
            is_archived: self.is_archived,
            is_starred: self.is_starred,
            is_public: self.is_public,
            domain_name: clone_opt_string(&self.domain_name),
            mimetype: clone_opt_string(&self.mimetype),
            language: clone_opt_string(&self.language),
            reading_time: self.reading_time,
            preview_picture: clone_opt_string(&self.preview_picture),
            origin_url: clone_opt_string(&self.origin_url),
            published_at: self.published_at,
            published_by: (match &self.published_by {
                None => None,
                Some(v) => Some(clone_string_vec(v)),
            }),
            starred_at: self.starred_at,
            user_id: self.user_id,
            user_email: clone_opt_string(&self.user_email),
            user_name: clone_opt_string(&self.user_name),
            tags: clone_tags(&self.tags),
            annotations: (match &self.annotations {
                None => None,
                Some(v) => Some(clone_annotations(v)),
            }),
        };
        proof {
            assert(r@ == self@);
        }
        r
    }
}

/// An entry to be created remotely. At least the url must be given; the
/// server fetches the rest unless content and title come along.
#[derive(Debug)]
pub struct NewEntry {
    pub url: String,
    pub title: Option<String>,
    /// Plain tag labels, not tag objects.
    pub tags: Option<Vec<String>>,
    pub archive: Option<bool>,
    pub starred: Option<bool>,
    pub public: Option<bool>,
    pub content: Option<String>,
    pub language: Option<String>,
    pub preview_picture: Option<String>,
    pub published_at: Option<i64>,
    /// Formatted as "name 1, name 2".
    pub authors: Option<String>,
    pub origin_url: Option<String>,
}

impl NewEntry {
    /// An entry to create from a url alone; every other field stays unset.
    pub fn new_with_url(url: String) -> (r: Self)
        ensures
            r.url == url,
            r.title is None,
            r.tags is None,
            r.archive is None,
            r.starred is None,
            r.public is None,
            r.content is None,
            r.language is None,
            r.preview_picture is None,
            r.published_at is None,
            r.authors is None,
            r.origin_url is None,
    {
        Self {
            url,
            title: None,
            tags: None,
            archive: None,
            starred: None,
            public: None,
            content: None,
            language: None,
            preview_picture: None,
            published_at: None,
            authors: None,
            origin_url: None,
        }
    }
}

/// The ghost value of a [`PatchEntry`].
pub ghost struct PatchEntryView {
    pub title: Option<Seq<char>>,
    pub tags: Option<Seq<Seq<char>>>,
    pub archive: Option<bool>,
    pub starred: Option<bool>,
    pub public: Option<bool>,
    pub content: Option<Seq<char>>,
    pub language: Option<Seq<char>>,
    pub preview_picture: Option<Seq<char>>,
    pub published_at: Option<i64>,
    pub authors: Option<Seq<char>>,
    pub origin_url: Option<Seq<char>>,
}

/// The set of changes a remote update can apply to an entry. A `None`
/// field is left untouched by the server.
#[derive(Debug)]
pub struct PatchEntry {
    pub title: Option<String>,
    /// Plain tag labels, not tag objects.
    pub tags: Option<Vec<String>>,
    pub archive: Option<bool>,
    pub starred: Option<bool>,
    pub public: Option<bool>,
    pub content: Option<String>,
    pub language: Option<String>,
    pub preview_picture: Option<String>,
    pub published_at: Option<i64>,
    /// Formatted as "name 1, name 2".
    pub authors: Option<String>,
    pub origin_url: Option<String>,
}

impl View for PatchEntry {
    type V = PatchEntryView;

    open spec fn view(&self) -> PatchEntryView {
        PatchEntryView {
            title: self.title.deep_view(),
            tags: self.tags.deep_view(),
            archive: self.archive,
            starred: self.starred,
            public: self.public,
            content: self.content.deep_view(),
            language: self.language.deep_view(),
            preview_picture: self.preview_picture.deep_view(),
            published_at: self.published_at,
            authors: self.authors.deep_view(),
            origin_url: self.origin_url.deep_view(),
        }
    }
}

impl Default for PatchEntry {
    /// A patch that changes nothing: every field left unset.
    fn default() -> (r: Self)
        ensures
            r.title is None,
            r.tags is None,
            r.archive is None,
            r.starred is None,
            r.public is None,
            r.content is None,
            r.language is None,
            r.preview_picture is None,
            r.published_at is None,
            r.authors is None,
            r.origin_url is None,
    {
        PatchEntry {
            title: None,
            tags: None,
            archive: None,
            starred: None,
            public: None,
            content: None,
            language: None,
            preview_picture: None,
            published_at: None,
            authors: None,
            origin_url: None,
        }
    }
}

/// The labels of the given tags, in order, as a ghost value.
pub open spec fn spec_tag_labels(tags: Seq<TagView>) -> Seq<Seq<char>> {
    tags.map_values(|t: TagView| t.label)
}

/// The patch that pushes the whole local state of an entry to the server.
pub open spec fn spec_patch_of_entry(e: EntryView) -> PatchEntryView {
    PatchEntryView {
        title: e.title,
        tags: Some(spec_tag_labels(e.tags)),
        archive: Some(e.is_archived),
        starred: Some(e.is_starred),
        public: Some(e.is_public),
        content: e.content,
        language: e.language,
        preview_picture: e.preview_picture,
        published_at: e.published_at,
        authors: None,
        origin_url: e.origin_url,
    }
}

/// The labels of the given tags, in order.
pub fn tag_labels(tags: &Vec<Tag>) -> (r: Vec<String>)
    ensures
        r.deep_view() == spec_tag_labels(tags.deep_view()),
{
    let mut r: Vec<String> = Vec::new();
    let mut i: usize = 0;
    while i < tags.len()
        invariant
            i <= tags.len(),
            r@.len() == i,
            r.deep_view() == spec_tag_labels(tags.deep_view().take(i as int)),
        decreases tags.len() - i,
    {
        let c = tags[i].label.clone();
        let ghost prev = r.deep_view();
        r.push(c);
        proof {
            let cur = spec_tag_labels(tags.deep_view().take(i + 1));
            assert(cur.len() == i + 1);
            assert forall|j: int| 0 <= j < i + 1 implies r.deep_view()[j] == cur[j] by {
                assert(r.deep_view()[j] == r@[j]@);
                assert(cur[j] == tags.deep_view().take(i + 1)[j].label);
                if j < i {
                    assert(r@[j]@ == prev[j]);
                    assert(prev[j] == spec_tag_labels(tags.deep_view().take(i as int))[j]);
                    assert(prev[j] == tags.deep_view()[j].label);
                } else {
                    assert(r@[j] == c);
                    assert(c@ == tags.deep_view()[j].label);
                }
            }
            assert(r.deep_view() =~= cur);
        }
        i = i + 1;
    }
    proof {
        assert(tags.deep_view().take(tags@.len() as int) =~= tags.deep_view());
    }
    r
}

impl<'a> From<&'a Entry> for PatchEntry {
    /// Convert an entry to the set of changes that pushes it to the server.
    fn from(e: &'a Entry) -> (r: Self)
        ensures
            r@ == spec_patch_of_entry(e@),
    {
        let r = PatchEntry {
            title: clone_opt_string(&e.title),
            tags: Some(tag_labels(&e.tags)),
            archive: Some(e.is_archived),
            starred: Some(e.is_starred),
            public: Some(e.is_public),
            content: clone_opt_string(&e.content),
            language: clone_opt_string(&e.language),
            preview_picture: clone_opt_string(&e.preview_picture),
            published_at: e.published_at,
            authors: None,
            origin_url: clone_opt_string(&e.origin_url),
        };
        proof {
            assert(r@ == spec_patch_of_entry(e@));
        }
        r
    }
}

impl<'a> vstd::std_specs::convert::FromSpecImpl<&'a Entry> for PatchEntry {
    open spec fn obeys_from_spec() -> bool {
        false
    }

    open spec fn from_spec(e: &'a Entry) -> Self {
        arbitrary()
    }
}

} // verus!
