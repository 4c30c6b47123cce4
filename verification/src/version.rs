//! Normalisation of the firmware version string advertised by the update
//! service: the text of its `latest` field, handed over by the XML
//! collaborator, is brought into the four-part form the rest of the
//! protocol expects.

use vstd::prelude::*;

verus! {

use crate::text::{clone_string, join_strs, join_with, split_on, split_str};
use vstd::string::StrSliceExecFns;

/// Failures of version normalisation.
#[derive(Clone, Copy, Debug, PartialEq, Eq, Structural)]
pub enum Error {
    /// The version field is missing, empty, or has too few parts.
    InvalidVersion,
}

/// A usable version string: present, non-empty, and with at least three
/// slash-separated parts.
pub open spec fn version_ok(latest: Seq<char>) -> bool {
    latest.len() > 0 && split_on(latest, '/').len() >= 3
}

/// The normalised version: a three-part version gains its first part as a
/// fourth, and an empty third part is replaced by the first.
pub open spec fn normalized_version(latest: Seq<char>) -> Seq<char>
    recommends
        version_ok(latest),
{
    let parts = split_on(latest, '/');
    let extended = if parts.len() == 3 { parts.push(parts[0]) } else { parts };
    let fixed = if extended[2].len() == 0 { extended.update(2, extended[0]) } else { extended };
    join_with(fixed, '/')
}

/// Normalise the `latest` firmware version text: absent, empty, and
/// short version strings are malformed.
pub fn from_xml(latest: Option<&str>) -> (r: Result<String, Error>)
    ensures
        match r {
            Ok(v) => latest matches Some(l) && version_ok(l@) && v@ == normalized_version(l@),
            Err(e) => e == Error::InvalidVersion
                && match latest {
                    Option::None => true,
                    Option::Some(l) => !version_ok(l@),
                },
        },
{
    let text = match latest {
        Some(l) => l,
        None => {
            return Err(Error::InvalidVersion);
        },
    };
    if text.unicode_len() == 0 {
        return Err(Error::InvalidVersion);
    }
    let mut parts = split_str(text, '/');
    if parts.len() < 3 {
        return Err(Error::InvalidVersion);
    }
    let ghost orig_parts = parts.deep_view();
    if parts.len() == 3 {
        let first = clone_string(&parts[0]);
        parts.push(first);
        proof {
            assert(parts.deep_view() =~~= (if orig_parts.len() == 3 {
                orig_parts.push(orig_parts[0])
            } else {
                orig_parts
            }));
        }
    }
    let ghost extended = parts.deep_view();
    if parts[2].as_str().unicode_len() == 0 {
        let first = clone_string(&parts[0]);
        parts[2] = first;
        proof {
            assert(parts.deep_view() =~~= extended.update(2, extended[0]));
        }
    }
    proof {
        assert(parts.deep_view() =~~= (if extended[2].len() == 0 {
            extended.update(2, extended[0])
        } else {
            extended
        }));
    }
    Ok(join_strs(&parts, '/'))
}


} // verus!
