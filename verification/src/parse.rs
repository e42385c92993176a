//! The trusted boundary to the outside replay parser.
//!
//! Decoding the proprietary binary container is delegated to the boxcars
//! crate; only the decoded header properties reach the extractor, already
//! collapsed to the library's scalar-and-array model.

use vstd::prelude::*;
use crate::error::ReplayError;
use crate::props::{RootProp, ScalarProp};

verus! {

#[verifier::external_type_specification]
#[verifier::external_body]
pub struct ExHeaderProp(boxcars::HeaderProp);

/// What the outside parser yields for given replay bytes: the match
/// root's named properties in the library's model when it accepts the
/// bytes, nothing when it rejects them.  The outcome depends on the bytes
/// alone.
pub uninterp spec fn parsed_replay(data: Seq<u8>) -> Option<Seq<(String, RootProp)>>;

/// Relies on boxcars::HeaderProp: its `Str`, `Int`, `QWord` and `Byte`
/// variants carry the scalar kinds the extractor reads; every other
/// variant maps to `Other`.
#[verifier::external_body]
fn scalar_of_prop(p: boxcars::HeaderProp) -> ScalarProp {
    match p {
        boxcars::HeaderProp::Str(s) => ScalarProp::Str(s),
        boxcars::HeaderProp::Int(n) => ScalarProp::Int(n),
        boxcars::HeaderProp::QWord(n) => ScalarProp::QWord(n),
        boxcars::HeaderProp::Byte { .. } => ScalarProp::Flag,
        _ => ScalarProp::Other,
    }
}

/// Relies on boxcars::HeaderProp::Array: an ordered list of named-property
/// lists, one per player entry; everything else is a scalar at the root.
#[verifier::external_body]
fn root_of_prop(p: boxcars::HeaderProp) -> RootProp {
    match p {
        boxcars::HeaderProp::Array(rows) => RootProp::Array(
            rows.into_iter().map(
                |row: Vec<(String, boxcars::HeaderProp)>|
                    row.into_iter().map(|(n, v)| (n, scalar_of_prop(v))).collect(),
            ).collect(),
        ),
        other => RootProp::Scalar(scalar_of_prop(other)),
    }
}

/// Relies on boxcars::ParserBuilder: parse the replay bytes with CRC
/// checking on and network-frame decoding off; on success the decoded
/// header's `properties` list is handed over in the library's model.
#[verifier::external_body]
pub fn parse_replay_data(data: &[u8]) -> (r: Result<Vec<(String, RootProp)>, ReplayError>)
    ensures
        match r {
            Ok(props) => parsed_replay(data@) == Some(props@),
            Err(e) => e is Parse && parsed_replay(data@) is None,
        },
{
    let parsed = boxcars::ParserBuilder::new(data)
        .always_check_crc()
        .never_parse_network_data()
        .parse();
    match parsed {
        Ok(replay) => Ok(replay.properties.into_iter().map(|(n, p)| (n, root_of_prop(p))).collect()),
        Err(_) => Err(ReplayError::Parse),
    }
}

} // verus!
