//! Core data types shared by the local store and the sync engine.

use vstd::prelude::*;

verus! {

/// The type used as an ID for all remote-assigned data. Declared for clarity.
#[derive(Clone, Copy, PartialEq, Eq, Structural, Hash, Debug)]
pub struct ID(pub i64);

impl ID {
    pub fn as_int(self) -> (r: i64)
        ensures
            r == self.0,
    {
        self.0
    }
}

impl From<i64> for ID {
    fn from(x: i64) -> (r: Self) {
        ID(x)
    }
}

impl vstd::std_specs::convert::FromSpecImpl<i64> for ID {
    open spec fn obeys_from_spec() -> bool {
        true
    }

    open spec fn from_spec(x: i64) -> Self {
        ID(x)
    }
}

impl From<i32> for ID {
    fn from(x: i32) -> (r: Self) {
        ID(x as i64)
    }
}

impl vstd::std_specs::convert::FromSpecImpl<i32> for ID {
    open spec fn obeys_from_spec() -> bool {
        true
    }

    open spec fn from_spec(x: i32) -> Self {
        ID(x as i64)
    }
}

/// The ghost value of a [`Tag`].
pub ghost struct TagView {
    pub id: int,
    pub label: Seq<char>,
    pub slug: Seq<char>,
}

/// A tag as the remote API returns it. Many-to-many with entries.
#[derive(Debug)]
pub struct Tag {
    /// The unique tag ID.
    pub id: ID,
    /// The label aka name. Labels with commas are discouraged, since some
    /// API methods take tags as a comma-separated string.
    pub label: String,
    /// The url-friendly unique form of the label, derived server-side.
    pub slug: String,
}

impl View for Tag {
    type V = TagView;

    open spec fn view(&self) -> TagView {
        TagView { id: self.id.0 as int, label: self.label@, slug: self.slug@ }
    }
}

impl DeepView for Tag {
    type V = TagView;

    open spec fn deep_view(&self) -> TagView {
        self.view()
    }
}

impl Clone for Tag {
    fn clone(&self) -> (r: Self)
        ensures
            r@ == self@,
    {
        Tag { id: self.id, label: self.label.clone(), slug: self.slug.clone() }
    }
}

/// A deleted tag, as returned by the remote API: no ID comes with it.
#[derive(Debug)]
pub struct DeletedTag {
    pub label: String,
    pub slug: String,
}

/// A tag label known to be safe for the comma-separated wire format.
#[derive(Debug)]
pub struct TagString {
    label: String,
}

impl TagString {
    /// Accept a label without a comma; reject any other.
    pub fn try_from(label: String) -> (r: Result<Self, crate::errors::TagStringError>)
        ensures
            match r {
                Ok(t) => !label@.contains(',') && t.spec_label() == label@,
                Err(e) => label@.contains(',') && e == crate::errors::TagStringError::ContainsComma,
            },
    {
        if contains_char(label.as_str(), ',') {
            Err(crate::errors::TagStringError::ContainsComma)
        } else {
            Ok(TagString { label })
        }
    }

    /// A reference to the tag label.
    pub fn as_str(&self) -> (r: &str)
        ensures
            r@ == self.spec_label(),
    {
        self.label.as_str()
    }

    /// Consume the tag and hand the plain label back.
    pub fn into_string(self) -> (r: String)
        ensures
            r@ == self.spec_label(),
    {
        self.label
    }

    /// The label this tag carries, as a ghost value.
    pub closed spec fn spec_label(&self) -> Seq<char> {
        self.label@
    }
}

/// Whether the string holds the given character.
pub fn contains_char(s: &str, c: char) -> (r: bool)
    ensures
        r == s@.contains(c),
{
    let len = s.unicode_len();
    let mut i: usize = 0;
    while i < len
        invariant
            i <= len,
            len == s@.len(),
            forall|j: int| 0 <= j < i ==> s@[j] != c,
        decreases len - i,
    {
        if s.get_char(i) == c {
            return true;
        }
        i = i + 1;
    }
    proof {
        assert(forall|j: int| 0 <= j < s@.len() ==> s@[j] != c);
    }
    false
}

/// An export format accepted by the remote API.
#[derive(Debug, Clone, Copy, PartialEq, Eq, Structural)]
pub enum Format {
    XML,
    JSON,
    TXT,
    CSV,
    PDF,
    EPUB,
    MOBI,
}

/// The format named by `s`, compared without regard to ASCII case.
pub open spec fn spec_format_of(s: Seq<char>) -> Option<Format> {
    if crate::strutil::chars_eq_nocase(s, "xml"@) {
        Some(Format::XML)
    } else if crate::strutil::chars_eq_nocase(s, "json"@) {
        Some(Format::JSON)
    } else if crate::strutil::chars_eq_nocase(s, "txt"@) {
        Some(Format::TXT)
    } else if crate::strutil::chars_eq_nocase(s, "csv"@) {
        Some(Format::CSV)
    } else if crate::strutil::chars_eq_nocase(s, "pdf"@) {
        Some(Format::PDF)
    } else if crate::strutil::chars_eq_nocase(s, "epub"@) {
        Some(Format::EPUB)
    } else if crate::strutil::chars_eq_nocase(s, "mobi"@) {
        Some(Format::MOBI)
    } else {
        None
    }
}

/// The lower-case name of each format.
pub open spec fn spec_format_str(f: Format) -> Seq<char> {
    match f {
        Format::XML => "xml"@,
        Format::JSON => "json"@,
        Format::TXT => "txt"@,
        Format::CSV => "csv"@,
        Format::PDF => "pdf"@,
        Format::EPUB => "epub"@,
        Format::MOBI => "mobi"@,
    }
}

impl Format {
    /// Read a format name, case-insensitively; `None` if unknown.
    pub fn try_from(s: &str) -> (r: Option<Self>)
        ensures
            r == spec_format_of(s@),
    {
        if crate::strutil::str_eq_nocase(s, "xml") {
            Some(Format::XML)
        } else if crate::strutil::str_eq_nocase(s, "json") {
            Some(Format::JSON)
        } else if crate::strutil::str_eq_nocase(s, "txt") {
            Some(Format::TXT)
        } else if crate::strutil::str_eq_nocase(s, "csv") {
            Some(Format::CSV)
        } else if crate::strutil::str_eq_nocase(s, "pdf") {
            Some(Format::PDF)
        } else if crate::strutil::str_eq_nocase(s, "epub") {
            Some(Format::EPUB)
        } else if crate::strutil::str_eq_nocase(s, "mobi") {
            Some(Format::MOBI)
        } else {
            None
        }
    }

    /// The lower-case name of this format, as used in export URLs.
    pub fn as_str(&self) -> (r: &'static str)
        ensures
            r@ == spec_format_str(*self),
    {
        match self {
            Format::XML => "xml",
            Format::JSON => "json",
            Format::TXT => "txt",
            Format::CSV => "csv",
            Format::PDF => "pdf",
            Format::EPUB => "epub",
            Format::MOBI => "mobi",
        }
    }
}

/// Sort direction for entry listings.
#[derive(Debug, Clone, Copy, PartialEq, Eq, Structural)]
pub enum SortOrder {
    Asc,
    Desc,
}

/// Sort criterion for entry listings.
#[derive(Debug, Clone, Copy, PartialEq, Eq, Structural)]
pub enum SortBy {
    Created,
    Updated,
}

/// Filters a caller can apply to a remote entry listing. `None` leaves the
/// server default in force.
#[derive(Debug)]
pub struct EntriesFilter {
    /// None = all entries; true/false filters by archived or not.
    pub archive: Option<bool>,
    /// None = all entries; true/false filters by starred or not.
    pub starred: Option<bool>,
    /// Criterion to sort by.
    pub sort: SortBy,
    /// Sort direction.
    pub order: SortOrder,
    /// Keep only entries carrying all of these tag labels; empty = no filter.
    pub tags: Vec<String>,
    /// Keep only entries with `updated_at` at or after this instant
    /// (seconds since the epoch). 0 means everything.
    pub since: i64,
    /// None = all entries; true/false = entries with or without a public link.
    pub public: Option<bool>,
}

impl Default for EntriesFilter {
    /// The defaults the server itself applies when a field is absent.
    fn default() -> (r: Self)
        ensures
            r.archive is None,
            r.starred is None,
            r.sort == SortBy::Created,
            r.order == SortOrder::Desc,
            r.tags@.len() == 0,
            r.since == 0,
            r.public is None,
    {
        EntriesFilter {
            archive: None,
            starred: None,
            sort: SortBy::Created,
            order: SortOrder::Desc,
            tags: Vec::new(),
            since: 0,
            public: None,
        }
    }
}

/// A user account on the remote server.
#[derive(Debug)]
pub struct User {
    pub id: ID,
    pub username: String,
    pub email: String,
    pub created_at: Option<i64>,
    pub updated_at: Option<i64>,
}

/// A user to be registered, with the name of the client to create alongside.
#[derive(Debug)]
pub struct RegisterInfo {
    pub username: String,
    pub password: String,
    pub email: String,
    pub client_name: String,
}

/// A newly created user with its default client credentials.
#[derive(Debug)]
pub struct NewlyRegisteredInfo {
    pub id: ID,
    pub username: String,
    pub email: String,
    pub created_at: Option<i64>,
    pub updated_at: Option<i64>,
    pub default_client: ClientInfo,
}

/// OAuth client credentials attached to a registered user.
#[derive(Debug)]
pub struct ClientInfo {
    pub client_id: String,
    pub client_secret: String,
    pub name: String,
}

/// Credentials and server address used to set up a remote client.
#[derive(Debug)]
pub struct Config {
    pub client_id: String,
    pub client_secret: String,
    pub username: String,
    pub password: String,
    pub base_url: String,
}

/// OAuth credentials alone, without the server address.
#[derive(Debug)]
pub struct AuthInfo {
    pub client_id: String,
    pub client_secret: String,
    pub username: String,
    pub password: String,
}

} // verus!
