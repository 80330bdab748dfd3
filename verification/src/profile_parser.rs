//! Parser for the `profiles.json` schema: a JSON array of profile objects.
//! Not a general JSON parser: it knows the profile field names and value
//! types, and skips values of other keys.

pub mod json;
pub mod parser;
pub mod profile;

use vstd::prelude::*;
use vstd::string::StringSliceAdditionalSpecFns;
use crate::error::DecodeError;
use crate::profile::Profile;
use crate::profile_parser::json::{JsonError, profiles_json, ws_end, lemma_ws_end};
use crate::profile_parser::parser::Parser;
use crate::profile_parser::profile::profiles_view;

verus! {

/// Parses a JSON array of profile objects.
///
/// Errors: `Profile` on malformed JSON, an unknown encoding name, a number
/// that does not fit an `i32`, or more than 100 profile objects (with the
/// text "profile array exceeds the maximum of 100 objects").
pub fn parse_profiles_json(input: &str) -> (r: Result<Vec<Profile>, DecodeError>)
    ensures
        match profiles_json(input.spec_bytes()) {
            Ok(ps) => r is Ok && profiles_view(r->Ok_0@) == ps,
            Err(JsonError::TooManyProfiles) => r matches Err(DecodeError::Profile(m)) && m@
                == "profile array exceeds the maximum of 100 objects"@,
            Err(JsonError::Syntax) => r is Err && r->Err_0 is Profile,
        },
{
    let mut p = Parser { bytes: input.as_bytes(), pos: 0 };
    p.skip_ws();
    p.parse_array()
}

} // verus!
