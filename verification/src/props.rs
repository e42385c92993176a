//! The typed property model a decoded replay presents to the extractor.
//!
//! A replay's header is an ordered list of named properties.  The extractor
//! only ever reads scalar values at two levels: scalars at the match root
//! (team scores) and scalars inside the entries of the `"PlayerStats"`
//! array.  Anything deeper, and any kind it does not read, collapses to
//! [`ScalarProp::Other`].
//!
//! Names are not guaranteed unique; the first entry with a given name is
//! authoritative.

use vstd::prelude::*;

verus! {

/// A scalar property value.
pub enum ScalarProp {
    /// A UTF-8 string.
    Str(String),
    /// A signed 32-bit integer.
    Int(i32),
    /// An unsigned 64-bit integer.
    QWord(u64),
    /// A byte / flag marker; its payload is never read.
    Flag,
    /// Any kind the extractor does not read.
    Other,
}

/// A property at the match root: a scalar, or an ordered array of
/// named-property lists (one list per player).
pub enum RootProp {
    Scalar(ScalarProp),
    Array(Vec<Vec<(String, ScalarProp)>>),
}

/// The first scalar property named `name`, if any.
pub open spec fn lookup_scalar(props: Seq<(String, ScalarProp)>, name: Seq<char>) -> Option<
    ScalarProp,
>
    decreases props.len(),
{
    if props.len() == 0 {
        None
    } else if props[0].0@ == name {
        Some(props[0].1)
    } else {
        lookup_scalar(props.drop_first(), name)
    }
}

/// The first root property named `name`, if any.
pub open spec fn lookup_root(props: Seq<(String, RootProp)>, name: Seq<char>) -> Option<RootProp>
    decreases props.len(),
{
    if props.len() == 0 {
        None
    } else if props[0].0@ == name {
        Some(props[0].1)
    } else {
        lookup_root(props.drop_first(), name)
    }
}

/// Character-by-character string equality.
pub fn str_eq(a: &str, b: &str) -> (r: bool)
    ensures
        r == (a@ == b@),
{
    let a_len = a.unicode_len();
    let b_len = b.unicode_len();
    if a_len != b_len {
        proof {
            assert(a@ != b@) by {
                if a@ == b@ {
                    assert(a@.len() == b@.len());
                }
            }
        }
        return false;
    }
    let mut i: usize = 0;
    while i < a_len
        invariant
            a_len == a@.len(),
            b_len == b@.len(),
            a_len == b_len,
            i <= a_len,
            forall|j: int| 0 <= j < i ==> a@[j] == b@[j],
        decreases a_len - i,
    {
        if a.get_char(i) != b.get_char(i) {
            return false;
        }
        i += 1;
    }
    proof {
        assert(a@ =~= b@);
    }
    true
}

/// The first scalar property of `entry` named `name`, by linear scan.
pub fn find_scalar<'a>(entry: &'a Vec<(String, ScalarProp)>, name: &str) -> (r: Option<
    &'a ScalarProp,
>)
    ensures
        match r {
            Some(v) => lookup_scalar(entry@, name@) == Some(*v),
            None => lookup_scalar(entry@, name@) is None,
        },
{
    let mut i: usize = 0;
    proof {
        assert(entry@.skip(0) =~= entry@);
    }
    while i < entry.len()
        invariant
            i <= entry@.len(),
            lookup_scalar(entry@, name@) == lookup_scalar(entry@.skip(i as int), name@),
        decreases entry@.len() - i,
    {
        proof {
            assert(entry@.skip(i as int).drop_first() =~= entry@.skip(i + 1));
            assert(entry@.skip(i as int)[0] == entry@[i as int]);
        }
        if str_eq(entry[i].0.as_str(), name) {
            return Some(&entry[i].1);
        }
        i += 1;
    }
    proof {
        assert(entry@.skip(i as int).len() == 0);
    }
    None
}

/// The first root property of `props` named `name`, by linear scan.
pub fn find_root<'a>(props: &'a Vec<(String, RootProp)>, name: &str) -> (r: Option<&'a RootProp>)
    ensures
        match r {
            Some(v) => lookup_root(props@, name@) == Some(*v),
            None => lookup_root(props@, name@) is None,
        },
{
    let mut i: usize = 0;
    proof {
        assert(props@.skip(0) =~= props@);
    }
    while i < props.len()
        invariant
            i <= props@.len(),
            lookup_root(props@, name@) == lookup_root(props@.skip(i as int), name@),
        decreases props@.len() - i,
    {
        proof {
            assert(props@.skip(i as int).drop_first() =~= props@.skip(i + 1));
            assert(props@.skip(i as int)[0] == props@[i as int]);
        }
        if str_eq(props[i].0.as_str(), name) {
            return Some(&props[i].1);
        }
        i += 1;
    }
    proof {
        assert(props@.skip(i as int).len() == 0);
    }
    None
}

} // verus!
