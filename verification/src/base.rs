//! Core value types of the protocol: full names, content variants,
//! and the conversation-id generator.

use vstd::prelude::*;

verus! {

/// For byte vectors the deep view and the plain view agree; stated once so
/// that frame-list views (sequences of byte sequences) connect to the views
/// of the vectors they came from.
pub broadcast proof fn lemma_vec_u8_deep_view(v: Vec<u8>)
    ensures
        #[trigger] v.deep_view() == v@,
{
    assert(v.deep_view() =~= v@);
}

/// Compare two byte vectors; equality of the values is equality of their
/// views.
pub fn bytes_eq(a: &Vec<u8>, b: &Vec<u8>) -> (r: bool)
    ensures
        r == (a@ == b@),
{
    let r = a == b;
    proof {
        if r {
            assert(a@ =~= b@);
        }
    }
    r
}

/// ASCII `.`, the separator between namespace and name on the wire.
pub const DOT: u8 = 46;

/// The different shapes of content a message can carry.
pub enum ContentTypes {
    Frames(Vec<Vec<u8>>),
    Frame(Vec<u8>),
    Null,
}

/// Relies on `uuid::Uuid::now_v7` and `uuid::Uuid::into_bytes`: a fresh
/// time-based (version 7) UUID, returned as its 16 raw bytes. The value
/// depends on the clock, so only its length can be stated here; `uuid`
/// further documents that ids this method generates in one process are
/// ordered by creation, which the tests exercise.
#[verifier::external_body]
pub fn create_conversation_id() -> (r: Vec<u8>)
    ensures
        r@.len() == 16,
{
    uuid::Uuid::now_v7().into_bytes().to_vec()
}

/// Exactly one dot in `s`, and it sits at index `i`.
pub open spec fn lone_dot_at(s: Seq<u8>, i: int) -> bool {
    &&& 0 <= i < s.len()
    &&& s[i] == DOT
    &&& forall|j: int| 0 <= j < s.len() && j != i ==> s[j] != DOT
}

/// What parsing a full name from wire bytes yields: with no separator the
/// whole input is the name and the namespace is empty; with exactly one
/// separator the input splits there; more separators are invalid.
pub open spec fn spec_parse_full_name(s: Seq<u8>) -> Option<(Seq<u8>, Seq<u8>)> {
    if forall|j: int| 0 <= j < s.len() ==> s[j] != DOT {
        Some((Seq::empty(), s))
    } else if exists|i: int| lone_dot_at(s, i) {
        let i = choose|i: int| lone_dot_at(s, i);
        Some((s.take(i), s.skip(i + 1)))
    } else {
        None
    }
}

/// Law: joining and parsing a full name round-trip. For separator-free
/// namespace and name bytes, parsing `namespace.name` yields the pair back;
/// parsing the bare name yields it under the empty namespace; and any input
/// holding two or more separators fails to parse.
pub proof fn lemma_parse_full_name_round_trip(namespace: Seq<u8>, name: Seq<u8>)
    requires
        forall|i: int| 0 <= i < namespace.len() ==> namespace[i] != DOT,
        forall|i: int| 0 <= i < name.len() ==> name[i] != DOT,
    ensures
        spec_parse_full_name(namespace + seq![DOT] + name) == Some((namespace, name)),
        spec_parse_full_name(name) == Some((Seq::<u8>::empty(), name)),
        forall|s: Seq<u8>, i: int, j: int|
            0 <= i < j < s.len() && #[trigger] s[i] == DOT && #[trigger] s[j] == DOT
                ==> spec_parse_full_name(s) is None,
{
    let joined = namespace + seq![DOT] + name;
    let d = namespace.len() as int;
    assert(joined[d] == DOT);
    assert forall|i: int| 0 <= i < joined.len() && i != d implies joined[i] != DOT by {
        if i < d {
            assert(joined[i] == namespace[i]);
        } else {
            assert(joined[i] == name[i - d - 1]);
        }
    }
    assert(lone_dot_at(joined, d));
    let picked = choose|i: int| lone_dot_at(joined, i);
    assert(picked == d);
    assert(joined.take(d) =~= namespace);
    assert(joined.skip(d + 1) =~= name);
    assert forall|s: Seq<u8>, i: int, j: int|
        0 <= i < j < s.len() && #[trigger] s[i] == DOT && #[trigger] s[j] == DOT
            implies spec_parse_full_name(s) is None by {
        assert(!(forall|p: int| 0 <= p < s.len() ==> s[p] != DOT));
        assert forall|p: int| !lone_dot_at(s, p) by {
            if lone_dot_at(s, p) {
                assert(s[i] == DOT && s[j] == DOT);
            }
        }
    }
}

/// Parsing failed: the input held more than one separator.
#[derive(Clone, Copy, PartialEq, Eq, Debug)]
pub enum NameError {
    TooManySeparators,
}

/// The full name of a Component: its namespace (possibly empty) and its
/// short name.
#[derive(Clone, PartialEq, Eq, Debug)]
pub struct FullName {
    pub namespace: Vec<u8>,
    pub name: Vec<u8>,
}

impl FullName {
    /// Split wire bytes on the single ASCII `.` separator.
    pub fn from_slice(slice: &[u8]) -> (r: Result<FullName, NameError>)
        ensures
            match r {
                Ok(f) => spec_parse_full_name(slice@) == Some((f.namespace@, f.name@)),
                Err(_) => spec_parse_full_name(slice@) is None,
            },
    {
        let len = slice.len();
        let mut first: Option<usize> = None;
        let mut second: Option<usize> = None;
        let mut i: usize = 0;
        while i < len
            invariant
                len == slice@.len(),
                i <= len,
                match first {
                    None => forall|j: int| 0 <= j < i ==> slice@[j] != DOT,
                    Some(f) => f < i && slice@[f as int] == DOT
                        && forall|j: int| 0 <= j < f ==> slice@[j] != DOT,
                },
                second is Some ==> first is Some,
                match (first, second) {
                    (Some(f), None) => forall|j: int| f < j < i ==> slice@[j] != DOT,
                    (Some(f), Some(t)) => f < t < i && slice@[t as int] == DOT,
                    _ => true,
                },
            decreases len - i,
        {
            if slice[i] == DOT {
                if first.is_none() {
                    first = Some(i);
                } else if second.is_none() {
                    second = Some(i);
                }
            }
            i += 1;
        }
        match (first, second) {
            (None, _) => Ok(FullName {
                namespace: Vec::new(),
                name: vstd::slice::slice_to_vec(slice),
            }),
            (Some(f), None) => {
                proof {
                    assert(lone_dot_at(slice@, f as int));
                }
                let namespace = vstd::slice::slice_to_vec(
                    vstd::slice::slice_subrange(slice, 0, f),
                );
                let name = vstd::slice::slice_to_vec(
                    vstd::slice::slice_subrange(slice, f + 1, len),
                );
                proof {
                    let i = choose|i: int| lone_dot_at(slice@, i);
                    assert(i == f as int);
                }
                Ok(FullName { namespace, name })
            },
            (Some(f), Some(t)) => {
                proof {
                    assert forall|i: int| !lone_dot_at(slice@, i) by {
                        if lone_dot_at(slice@, i) {
                            assert(slice@[f as int] == DOT && slice@[t as int] == DOT);
                        }
                    }
                    assert(slice@[f as int] == DOT);
                }
                Err(NameError::TooManySeparators)
            },
        }
    }

    /// Split an owned byte vector on the single ASCII `.` separator.
    pub fn from_vec(vec: &Vec<u8>) -> (r: Result<FullName, NameError>)
        ensures
            match r {
                Ok(f) => spec_parse_full_name(vec@) == Some((f.namespace@, f.name@)),
                Err(_) => spec_parse_full_name(vec@) is None,
            },
    {
        FullName::from_slice(vec.as_slice())
    }
}

} // verus!
