//! Library discovery: among the files of a workspace directory, find exactly
//! one dynamic library that carries the year in its name, opens, and exports
//! the construction entry point.
//!
//! The surrounding program lists the directory and probes each candidate;
//! the filtering and the resolution to exactly one path are decided and
//! proved here.

use vstd::prelude::*;

use crate::decimal::{i64_to_string, spec_i64_string};
use crate::error::{AocError, LoadingError};

verus! {

/// Whether `needle` occurs in `hay` as a contiguous run.
pub open spec fn contains_seq(hay: Seq<char>, needle: Seq<char>) -> bool {
    exists|i: int|
        0 <= i <= hay.len() - needle.len() && #[trigger] hay.subrange(i, i + needle.len())
            == needle
}

/// Whether `needle` occurs in `hay`.
pub fn contains_sub(hay: &str, needle: &str) -> (r: bool)
    ensures
        r == contains_seq(hay@, needle@),
{
    let hay_len = hay.unicode_len();
    let needle_len = needle.unicode_len();
    if needle_len > hay_len {
        proof {
            assert(!contains_seq(hay@, needle@));
        }
        return false;
    }
    let mut i: usize = 0;
    while i <= hay_len - needle_len
        invariant
            needle_len <= hay_len,
            hay_len == hay@.len(),
            needle_len == needle@.len(),
            i <= hay_len - needle_len + 1,
            forall|k: int|
                0 <= k < i ==> #[trigger] hay@.subrange(k, k + needle@.len()) != needle@,
        decreases hay_len + 1 - i,
    {
        let mut j: usize = 0;
        let mut matches = true;
        while j < needle_len
            invariant
                i + needle_len <= hay_len,
                hay_len == hay@.len(),
                needle_len == needle@.len(),
                j <= needle_len,
                matches == (forall|k: int|
                    0 <= k < j ==> #[trigger] hay@.subrange(i as int, i + needle@.len())[k]
                        == needle@[k]),
            decreases needle_len - j,
        {
            let hc = hay.get_char(i + j);
            let nc = needle.get_char(j);
            proof {
                assert(hay@.subrange(i as int, i + needle@.len())[j as int] == hay@[i + j]);
            }
            if hc != nc {
                matches = false;
                proof {
                    let sub = hay@.subrange(i as int, i + needle@.len());
                    assert(sub[j as int] != needle@[j as int]);
                }
                j = needle_len;
            } else {
                j = j + 1;
            }
        }
        if matches {
            proof {
                assert(hay@.subrange(i as int, i + needle@.len()) =~= needle@);
            }
            return true;
        }
        i = i + 1;
    }
    proof {
        assert forall|k: int| 0 <= k <= hay@.len() - needle@.len() implies #[trigger] hay@.subrange(
            k,
            k + needle@.len(),
        ) != needle@ by {
            assert(k < i);
        }
    }
    false
}

/// Whether a file name carries the year as a substring.
pub open spec fn name_has_year(name: Seq<char>, year: int) -> bool {
    contains_seq(name, spec_i64_string(year))
}

/// The file names carrying the year, in order.
pub open spec fn spec_year_candidates(names: Seq<Seq<char>>, year: int) -> Seq<Seq<char>>
    decreases names.len(),
{
    if names.len() == 0 {
        Seq::empty()
    } else {
        let rest = spec_year_candidates(names.drop_last(), year);
        if name_has_year(names.last(), year) {
            rest.push(names.last())
        } else {
            rest
        }
    }
}

/// Keeps the directory entries whose names carry the year.
pub fn filter_candidates(names: &Vec<String>, year: i32) -> (r: Vec<String>)
    ensures
        r@.map_values(|p: String| p@) == spec_year_candidates(
            names@.map_values(|p: String| p@),
            year as int,
        ),
{
    let token = i64_to_string(year as i64);
    let ghost views = names@.map_values(|p: String| p@);
    let mut r: Vec<String> = Vec::new();
    let mut i: usize = 0;
    while i < names.len()
        invariant
            i <= names.len(),
            token@ == spec_i64_string(year as int),
            views == names@.map_values(|p: String| p@),
            r@.map_values(|p: String| p@) =~~= spec_year_candidates(
                views.take(i as int),
                year as int,
            ),
        decreases names.len() - i,
    {
        proof {
            assert(views.take(i + 1).drop_last() =~= views.take(i as int));
            assert(views.take(i + 1).last() == names@[i as int]@);
        }
        let ghost prev = r@.map_values(|p: String| p@);
        if contains_sub(names[i].as_str(), token.as_str()) {
            let owned = names[i].clone();
            r.push(owned);
            proof {
                assert(r@.map_values(|p: String| p@) =~= prev.push(names@[i as int]@));
            }
        }
        i = i + 1;
    }
    proof {
        assert(views.take(names@.len() as int) =~= views);
    }
    r
}

/// What probing one candidate found: whether it opened and exported the
/// construction symbol, and the error text when it did not.
pub struct ProbeOutcome {
    /// The candidate's path.
    pub path: String,
    /// Whether the candidate opened and exports the construction symbol.
    pub valid: bool,
    /// The error seen while probing, for diagnostics.
    pub error: Option<String>,
}

/// The paths of the valid outcomes, in order.
pub open spec fn spec_valid_paths(outcomes: Seq<ProbeOutcome>) -> Seq<Seq<char>>
    decreases outcomes.len(),
{
    if outcomes.len() == 0 {
        Seq::empty()
    } else {
        let rest = spec_valid_paths(outcomes.drop_last());
        if outcomes.last().valid {
            rest.push(outcomes.last().path@)
        } else {
            rest
        }
    }
}

/// The last error text any probe reported, if one did.
pub open spec fn spec_last_error(outcomes: Seq<ProbeOutcome>) -> Option<Seq<char>>
    decreases outcomes.len(),
{
    if outcomes.len() == 0 {
        Option::None
    } else {
        match outcomes.last().error {
            Some(e) => Some(e@),
            Option::None => spec_last_error(outcomes.drop_last()),
        }
    }
}

/// The reason given when every candidate failed probing and none said why.
pub open spec fn spec_no_valid_reason() -> Seq<char> {
    "No valid solution libraries found"@
}

/// Resolves probed candidates to exactly one library path.
///
/// This returns a path exactly when exactly one candidate is valid; an empty
/// candidate set, a set with no valid candidate, and a set with several are
/// each refused with their own error. Picking one of several silently would
/// make solver selection non-deterministic across reruns.
pub fn resolve_candidates(outcomes: Vec<ProbeOutcome>, year: i32, search_path: &String) -> (r:
    Result<String, AocError>)
    ensures
        r is Ok <==> spec_valid_paths(outcomes@).len() == 1 && outcomes@.len() > 0,
        r matches Ok(path) ==> path@ == spec_valid_paths(outcomes@)[0],
        r matches Err(e) ==> (if outcomes@.len() == 0 {
            e == AocError::Loading(LoadingError::LibraryNotFound { year, search_path: *search_path })
        } else if spec_valid_paths(outcomes@).len() == 0 {
            match e {
                AocError::Loading(LoadingError::InvalidLibrary { reason }) => reason@ == (
                match spec_last_error(outcomes@) {
                    Some(text) => text,
                    Option::None => spec_no_valid_reason(),
                }),
                _ => false,
            }
        } else {
            match e {
                AocError::Loading(LoadingError::AmbiguousLibraries { paths }) => paths@.map_values(
                    |p: String| p@,
                ) == spec_valid_paths(outcomes@),
                _ => false,
            }
        }),
{
    if outcomes.len() == 0 {
        return Err(
            AocError::Loading(
                LoadingError::LibraryNotFound { year, search_path: search_path.clone() },
            ),
        );
    }
    let ghost all = outcomes@;
    let mut valid_paths: Vec<String> = Vec::new();
    let mut last_error: Option<String> = Option::None;
    let mut i: usize = 0;
    while i < outcomes.len()
        invariant
            i <= outcomes@.len(),
            all == outcomes@,
            valid_paths@.map_values(|p: String| p@) =~~= spec_valid_paths(all.take(i as int)),
            match last_error {
                Some(e) => spec_last_error(all.take(i as int)) == Some(e@),
                Option::None => spec_last_error(all.take(i as int)) is None,
            },
        decreases outcomes@.len() - i,
    {
        proof {
            assert(all.take(i + 1).drop_last() =~= all.take(i as int));
            assert(all.take(i + 1).last() == all[i as int]);
        }
        let ghost prev = valid_paths@.map_values(|p: String| p@);
        let outcome = &outcomes[i];
        if outcome.valid {
            let owned = outcome.path.clone();
            valid_paths.push(owned);
            proof {
                assert(valid_paths@.map_values(|p: String| p@) =~= prev.push(
                    all[i as int].path@,
                ));
            }
        }
        match &outcome.error {
            Some(e) => {
                last_error = Some(e.clone());
            },
            Option::None => {},
        }
        i = i + 1;
    }
    proof {
        assert(all.take(all.len() as int) =~= all);
    }
    if valid_paths.len() == 0 {
        let reason = match last_error {
            Some(e) => e,
            Option::None => String::from_str("No valid solution libraries found"),
        };
        Err(AocError::Loading(LoadingError::InvalidLibrary { reason }))
    } else if valid_paths.len() == 1 {
        let mut paths = valid_paths;
        let path = paths.remove(0);
        proof {
            assert(path@ == spec_valid_paths(all)[0]);
        }
        Ok(path)
    } else {
        Err(AocError::Loading(LoadingError::AmbiguousLibraries { paths: valid_paths }))
    }
}

} // verus!
