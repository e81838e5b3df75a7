//! API endpoints and the URL builder the remote client uses.

use vstd::prelude::*;

use crate::strutil::{i64_to_string, spec_i64_str};
use crate::types::{spec_format_str, Format, ID};

verus! {

/// An endpoint of the remote HTTP API.
#[derive(Debug, Clone, Copy)]
pub enum EndPoint {
    Token,
    Entries,
    Exists,
    Version,
    User,
    Tags,
    TagsLabel,
    TagLabel,
    /// Entry id, tag id.
    DeleteEntryTag(ID, ID),
    EntryReload(ID),
    /// Entry id.
    EntryTags(ID),
    Export(ID, Format),
    Tag(ID),
    Entry(ID),
    Annotation(ID),
}

/// The path of each endpoint under the server base URL.
pub open spec fn spec_endpoint_path(e: EndPoint) -> Seq<char> {
    match e {
        EndPoint::Token => "/oauth/v2/token"@,
        EndPoint::Entries => "/api/entries.json"@,
        EndPoint::Exists => "/api/entries/exists.json"@,
        EndPoint::Version => "/api/version.json"@,
        EndPoint::User => "/api/user.json"@,
        EndPoint::Tags => "/api/tags.json"@,
        EndPoint::TagsLabel => "/api/tags/label.json"@,
        EndPoint::TagLabel => "/api/tag/label.json"@,
        EndPoint::DeleteEntryTag(entry, tag) => "/api/entries/"@ + spec_i64_str(entry.0 as int)
            + "/tags/"@ + spec_i64_str(tag.0 as int) + ".json"@,
        EndPoint::EntryReload(id) => "/api/entries/"@ + spec_i64_str(id.0 as int)
            + "/reload.json"@,
        EndPoint::EntryTags(id) => "/api/entries/"@ + spec_i64_str(id.0 as int) + "/tags.json"@,
        EndPoint::Export(id, format) => "/api/entries/"@ + spec_i64_str(id.0 as int) + "/export."@
            + spec_format_str(format),
        EndPoint::Tag(id) => "/api/tags/"@ + spec_i64_str(id.0 as int) + ".json"@,
        EndPoint::Entry(id) => "/api/entries/"@ + spec_i64_str(id.0 as int) + ".json"@,
        EndPoint::Annotation(id) => "/api/annotations/"@ + spec_i64_str(id.0 as int) + ".json"@,
    }
}

impl EndPoint {
    /// Render the path of this endpoint.
    pub fn to_path(&self) -> (r: String)
        ensures
            r@ == spec_endpoint_path(*self),
    {
        match self {
            EndPoint::Token => String::from_str("/oauth/v2/token"),
            EndPoint::Entries => String::from_str("/api/entries.json"),
            EndPoint::Exists => String::from_str("/api/entries/exists.json"),
            EndPoint::Version => String::from_str("/api/version.json"),
            EndPoint::User => String::from_str("/api/user.json"),
            EndPoint::Tags => String::from_str("/api/tags.json"),
            EndPoint::TagsLabel => String::from_str("/api/tags/label.json"),
            EndPoint::TagLabel => String::from_str("/api/tag/label.json"),
            EndPoint::DeleteEntryTag(entry, tag) => {
                let mut s = String::from_str("/api/entries/");
                let n1 = i64_to_string(entry.0);
                s.append(n1.as_str());
                s.append("/tags/");
                let n2 = i64_to_string(tag.0);
                s.append(n2.as_str());
                s.append(".json");
                proof {
                    assert(s@ =~= spec_endpoint_path(*self));
                }
                s
            },
            EndPoint::EntryReload(id) => {
                let mut s = String::from_str("/api/entries/");
                let n = i64_to_string(id.0);
                s.append(n.as_str());
                s.append("/reload.json");
                proof {
                    assert(s@ =~= spec_endpoint_path(*self));
                }
                s
            },
            EndPoint::EntryTags(id) => {
                let mut s = String::from_str("/api/entries/");
                let n = i64_to_string(id.0);
                s.append(n.as_str());
                s.append("/tags.json");
                proof {
                    assert(s@ =~= spec_endpoint_path(*self));
                }
                s
            },
            EndPoint::Export(id, format) => {
                let mut s = String::from_str("/api/entries/");
                let n = i64_to_string(id.0);
                s.append(n.as_str());
                s.append("/export.");
                s.append(format.as_str());
                proof {
                    assert(s@ =~= spec_endpoint_path(*self));
                }
                s
            },
            EndPoint::Tag(id) => {
                let mut s = String::from_str("/api/tags/");
                let n = i64_to_string(id.0);
                s.append(n.as_str());
                s.append(".json");
                proof {
                    assert(s@ =~= spec_endpoint_path(*self));
                }
                s
            },
            EndPoint::Entry(id) => {
                let mut s = String::from_str("/api/entries/");
                let n = i64_to_string(id.0);
                s.append(n.as_str());
                s.append(".json");
                proof {
                    assert(s@ =~= spec_endpoint_path(*self));
                }
                s
            },
            EndPoint::Annotation(id) => {
                let mut s = String::from_str("/api/annotations/");
                let n = i64_to_string(id.0);
                s.append(n.as_str());
                s.append(".json");
                proof {
                    assert(s@ =~= spec_endpoint_path(*self));
                }
                s
            },
        }
    }
}

/// The next page to fetch, if the listing just received is not the last
/// one: the caller loops while the reported page is below the reported
/// page count.
pub fn next_page(page: u32, pages: u32) -> (r: Option<u32>)
    ensures
        r == (if page < pages {
            Some((page + 1) as u32)
        } else {
            None::<u32>
        }),
{
    if page < pages {
        Some(page + 1)
    } else {
        None
    }
}

/// Builds full request URLs from the server base URL.
#[derive(Debug)]
pub struct UrlBuilder {
    base_url: String,
}

impl UrlBuilder {
    /// The base URL this builder prepends to every endpoint.
    pub closed spec fn spec_base_url(&self) -> Seq<char> {
        self.base_url@
    }

    pub fn new(base_url: String) -> (r: Self)
        ensures
            r.spec_base_url() == base_url@,
    {
        UrlBuilder { base_url }
    }

    /// Build a full URL for an endpoint.
    pub fn build(&self, end_point: EndPoint) -> (r: String)
        ensures
            r@ == self.spec_base_url() + spec_endpoint_path(end_point),
    {
        let mut s = self.base_url.clone();
        let path = end_point.to_path();
        s.append(path.as_str());
        s
    }
}

} // verus!
