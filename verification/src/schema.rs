//! The library file's schema, as an ordered list of migrations. The file records how many have
//! run.

use vstd::prelude::*;
use vstd::string::*;

use crate::error::{Error, ErrorView, Result};
use crate::text::{concat, decimal, number};

verus! {

/// How many migrations there are.
pub const NEWEST_SCHEMA: u64 = 2;

/// The file was written by something newer, whose schema can't safely be read or written.
pub open spec fn too_new(version: u64) -> ErrorView {
    ErrorView::Library(
        "library schema v"@ + decimal(version as nat) + " is newer than this canon (v"@ + decimal(
            NEWEST_SCHEMA as nat,
        ) + ")"@,
    )
}

/// The migrations a file at `version` still needs, in the order to run them: each is one more
/// than the version it is run at, and leaves the file at its own number.
pub fn pending(version: u64) -> (migrations: Result<Vec<u64>>)
    ensures
        match migrations {
            Ok(all) => version <= NEWEST_SCHEMA && all@ == Seq::new(
                (NEWEST_SCHEMA - version) as nat,
                |i: int| (version + i + 1) as u64,
            ),
            Err(e) => version > NEWEST_SCHEMA && e@ == too_new(version),
        },
{
    if version > NEWEST_SCHEMA {
        let mut text = concat("library schema v", number(version).as_str());
        text.append(" is newer than this canon (v");
        text.append(number(NEWEST_SCHEMA).as_str());
        text.append(")");
        return Err(Error::Library(text));
    }
    let mut all: Vec<u64> = Vec::new();
    let mut at: u64 = version;
    while at < NEWEST_SCHEMA
        invariant
            version <= at <= NEWEST_SCHEMA,
            all@ == Seq::new((at - version) as nat, |i: int| (version + i + 1) as u64),
        decreases NEWEST_SCHEMA - at,
    {
        all.push(at + 1);
        at = at + 1;
        assert(all@ =~= Seq::new((at - version) as nat, |i: int| (version + i + 1) as u64));
    }
    Ok(all)
}

} // verus!
