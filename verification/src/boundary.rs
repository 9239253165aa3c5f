//! The boundary that separates the parts of a `multipart/form-data`
//! upload, as its `Content-Type` header gives it.

use vstd::prelude::*;

use crate::text::{
    chars_of, contains_text, find_from, find_text, lemma_find_first, lemma_find_from,
    lemma_find_shift, occurs_at,
};

verus! {

/// The multipart boundary of a request, or `Unk` where none was given.
#[derive(Clone, Debug, PartialEq)]
pub enum MultiPartBoundry {
    Value(String),
    Unk,
}

/// A boundary, as a value: `None` for `Unk`.
pub open spec fn boundary_view(b: MultiPartBoundry) -> Option<Seq<char>> {
    match b {
        MultiPartBoundry::Value(v) => Some(v@),
        MultiPartBoundry::Unk => None,
    }
}

/// The text that introduces the boundary in a `Content-Type` header.
pub open spec fn boundary_marker() -> Seq<char> {
    "boundary="@
}

/// The boundary a `Content-Type` header gives: the text after the first
/// `boundary=`, up to the next `boundary=` if there is one (the second
/// piece of the header split at `boundary=`). `None` without a header or
/// without `boundary=` in it.
pub open spec fn boundary_of(content_type: Option<Seq<char>>) -> Option<Seq<char>> {
    match content_type {
        None => None,
        Some(h) => match find_from(h, boundary_marker(), 0) {
            None => None,
            Some(i) => {
                let start = i + boundary_marker().len();
                match find_from(h, boundary_marker(), start) {
                    Some(k) => Some(h.subrange(start, k)),
                    None => Some(h.subrange(start, h.len() as int)),
                }
            },
        },
    }
}

/// `boundary=` has nine letters, and its first, `b`, appears only there.
proof fn lemma_marker_letters()
    ensures
        boundary_marker().len() == 9,
        boundary_marker()[0] == 'b',
        forall|k: int| 1 <= k < 9 ==> boundary_marker()[k] != 'b',
{
    reveal_strlit("boundary=");
    let m = boundary_marker();
    assert(m[1] == 'o' && m[2] == 'u' && m[3] == 'n' && m[4] == 'd' && m[5] == 'a' && m[6] == 'r'
        && m[7] == 'y' && m[8] == '=');
}

/// In `x + "boundary=" + y`, where `x` holds no `boundary=`, the first
/// `boundary=` is the one right after `x`: no occurrence can straddle into
/// it, as its first letter appears in it only once.
proof fn lemma_marker_follows(x: Seq<char>, y: Seq<char>)
    requires
        !contains_text(x, boundary_marker()),
    ensures
        find_from(x + boundary_marker() + y, boundary_marker(), 0) == Some(x.len() as int),
{
    let m = boundary_marker();
    let h = x + m + y;
    lemma_marker_letters();
    lemma_find_from(x, m, 0);
    assert(h.subrange(x.len() as int, x.len() + 9int) =~= m);
    assert(h[x.len() as int] == m[0]);
    assert forall|j: int| 0 <= j < x.len() implies !occurs_at(h, m, j) by {
        if occurs_at(h, m, j) {
            if j + 9 <= x.len() {
                assert(h.subrange(j, j + 9) =~= x.subrange(j, j + 9));
                assert(occurs_at(x, m, j));
            } else {
                let d = x.len() - j;
                assert(h.subrange(j, j + 9)[d] == h[j + d]);
                assert(m[d] == 'b');
            }
        }
    }
    lemma_find_first(h, m, 0, x.len() as int);
}

/// A header with one `boundary=` gives as boundary the whole text after
/// it, however long.
pub proof fn law_boundary_is_whole_rest(prefix: Seq<char>, boundary: Seq<char>)
    requires
        !contains_text(prefix, boundary_marker()),
        !contains_text(boundary, boundary_marker()),
    ensures
        boundary_of(Some(prefix + boundary_marker() + boundary)) == Some(boundary),
{
    let m = boundary_marker();
    let h = prefix + m + boundary;
    lemma_marker_letters();
    lemma_marker_follows(prefix, boundary);
    assert(h =~= (prefix + m) + boundary);
    lemma_find_shift(prefix + m, boundary, m, 0);
    assert(h.subrange(prefix.len() + 9int, h.len() as int) =~= boundary);
}

/// A header with a second `boundary=` gives as boundary the text between
/// the first and the second.
pub proof fn law_boundary_stops_at_next_marker(
    prefix: Seq<char>,
    boundary: Seq<char>,
    rest: Seq<char>,
)
    requires
        !contains_text(prefix, boundary_marker()),
        !contains_text(boundary, boundary_marker()),
    ensures
        boundary_of(Some(prefix + boundary_marker() + boundary + boundary_marker() + rest)) == Some(
            boundary,
        ),
{
    let m = boundary_marker();
    let tail = boundary + m + rest;
    let h = prefix + m + boundary + m + rest;
    lemma_marker_letters();
    assert(h =~= prefix + m + tail);
    lemma_marker_follows(prefix, tail);
    assert(h =~= (prefix + m) + tail);
    lemma_marker_follows(boundary, rest);
    lemma_find_shift(prefix + m, tail, m, 0);
    assert(h.subrange(prefix.len() + 9int, prefix.len() + 9int + boundary.len()) =~= boundary);
}

impl MultiPartBoundry {
    /// The boundary text; the empty text for `Unk`.
    pub fn to_string(self) -> (s: String)
        ensures
            s@ == match boundary_view(self) {
                Some(v) => v,
                None => Seq::<char>::empty(),
            },
    {
        match self {
            MultiPartBoundry::Value(value) => value,
            MultiPartBoundry::Unk => String::new(),
        }
    }

    /// The boundary given by the first `Content-Type` header of a request
    /// (`None` where it has none); see `boundary_of`.
    pub fn from_content_type(content_type: Option<&str>) -> (b: MultiPartBoundry)
        ensures
            boundary_view(b) == boundary_of(
                match content_type {
                    Some(h) => Some(h@),
                    None => None,
                },
            ),
    {
        match content_type {
            None => MultiPartBoundry::Unk,
            Some(h) => {
                let chars = chars_of(h);
                let marker = chars_of("boundary=");
                match find_text(&chars, &marker, 0) {
                    None => MultiPartBoundry::Unk,
                    Some(i) => {
                        proof {
                            lemma_find_from(h@, boundary_marker(), 0);
                        }
                        let start = i + marker.len();
                        let end = match find_text(&chars, &marker, start) {
                            Some(k) => {
                                proof {
                                    lemma_find_from(h@, boundary_marker(), start as int);
                                }
                                k
                            },
                            None => chars.len(),
                        };
                        MultiPartBoundry::Value(String::from_str(h.substring_char(start, end)))
                    },
                }
            },
        }
    }
}

} // verus!
