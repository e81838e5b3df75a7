//! Annotations: highlights and notes attached to an entry.

use vstd::prelude::*;

use crate::types::ID;

verus! {

/// The ghost value of a [`Range`].
pub ghost struct RangeView {
    pub start: Option<Seq<char>>,
    pub end: Option<Seq<char>>,
    pub start_offset: u32,
    pub end_offset: u32,
}

/// An offset span inside the content, as used in an annotation.
#[derive(Debug)]
pub struct Range {
    pub start: Option<String>,
    pub end: Option<String>,
    pub start_offset: u32,
    pub end_offset: u32,
}

impl View for Range {
    type V = RangeView;

    open spec fn view(&self) -> RangeView {
        RangeView {
            start: self.start.deep_view(),
            end: self.end.deep_view(),
            start_offset: self.start_offset,
            end_offset: self.end_offset,
        }
    }
}

impl DeepView for Range {
    type V = RangeView;

    open spec fn deep_view(&self) -> RangeView {
        self.view()
    }
}

impl Clone for Range {
    fn clone(&self) -> (r: Self)
        ensures
            r@ == self@,
    {
        Range {
            start: self.start.clone(),
            end: self.end.clone(),
            start_offset: self.start_offset,
            end_offset: self.end_offset,
        }
    }
}

/// The ghost value of an [`Annotation`].
pub ghost struct AnnotationView {
    pub id: int,
    pub annotator_schema_version: Seq<char>,
    pub created_at: i64,
    pub updated_at: i64,
    pub quote: Option<Seq<char>>,
    pub ranges: Seq<RangeView>,
    pub text: Seq<char>,
    pub user: Option<Seq<char>>,
}

/// A highlight or note attached to exactly one entry. Annotation ids are
/// global on the remote side, not per entry.
#[derive(Debug)]
pub struct Annotation {
    pub id: ID,
    pub annotator_schema_version: String,
    /// Seconds since the epoch.
    pub created_at: i64,
    /// Seconds since the epoch; strictly orders revisions of the same id.
    pub updated_at: i64,
    pub quote: Option<String>,
    pub ranges: Vec<Range>,
    pub text: String,
    pub user: Option<String>,
}

impl View for Annotation {
    type V = AnnotationView;

    open spec fn view(&self) -> AnnotationView {
        AnnotationView {
            id: self.id.0 as int,
            annotator_schema_version: self.annotator_schema_version@,
            created_at: self.created_at,
            updated_at: self.updated_at,
            quote: self.quote.deep_view(),
            ranges: self.ranges.deep_view(),
            text: self.text@,
            user: self.user.deep_view(),
        }
    }
}

impl DeepView for Annotation {
    type V = AnnotationView;

    open spec fn deep_view(&self) -> AnnotationView {
        self.view()
    }
}

impl Clone for Annotation {
    fn clone(&self) -> (r: Self)
        ensures
            r@ == self@,
    {
        let r = Annotation {
            id: self.id,
            annotator_schema_version: self.annotator_schema_version.clone(),
            created_at: self.created_at,
            updated_at: self.updated_at,
            quote: self.quote.clone(),
            ranges: clone_ranges(&self.ranges),
            text: self.text.clone(),
            user: self.user.clone(),
        };
        proof {
            assert(r@ == self@);
        }
        r
    }
}

/// Copy a list of ranges, keeping every ghost value.
pub fn clone_ranges(v: &Vec<Range>) -> (r: Vec<Range>)
    ensures
        r.deep_view() == v.deep_view(),
{
    let mut r: Vec<Range> = Vec::new();
    let mut i: usize = 0;
    while i < v.len()
        invariant
            i <= v.len(),
            r@.len() == i,
            r.deep_view() == v.deep_view().take(i as int),
        decreases v.len() - i,
    {
        let c = v[i].clone();
        proof {
            assert(c@ == v@[i as int]@);
        }
        r.push(c);
        proof {
            assert(r@.len() == i + 1);
            assert(r@[i as int] == c);
            assert(r.deep_view()[i as int] == c.deep_view());
            assert(r.deep_view()[i as int] == v.deep_view()[i as int]);
            assert(r.deep_view() =~= v.deep_view().take(i + 1));
        }
        i = i + 1;
    }
    proof {
        assert(v.deep_view().take(v.len() as int) =~= v.deep_view());
    }
    r
}

/// The ghost value of a [`NewAnnotation`].
pub ghost struct NewAnnotationView {
    pub quote: Seq<char>,
    pub ranges: Seq<RangeView>,
    pub text: Seq<char>,
}

/// An annotation to be created remotely, hence without an id yet.
#[derive(Debug)]
pub struct NewAnnotation {
    pub quote: String,
    pub ranges: Vec<Range>,
    pub text: String,
}

impl View for NewAnnotation {
    type V = NewAnnotationView;

    open spec fn view(&self) -> NewAnnotationView {
        NewAnnotationView {
            quote: self.quote@,
            ranges: self.ranges.deep_view(),
            text: self.text@,
        }
    }
}

impl Clone for NewAnnotation {
    fn clone(&self) -> (r: Self)
        ensures
            r@ == self@,
    {
        let r = NewAnnotation {
            quote: self.quote.clone(),
            ranges: clone_ranges(&self.ranges),
            text: self.text.clone(),
        };
        proof {
            assert(r@ == self@);
        }
        r
    }
}

} // verus!
