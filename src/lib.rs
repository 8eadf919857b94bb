//! A caching front-end for `cargo install`: install requests are fingerprinted
//! into a per-configuration cache directory, rebuilt only when stale, their
//! diagnostic output is filtered, and the resulting binaries are published
//! into a destination directory.
//!
//! Byte strings (`Vec<u8>`) stand for file names, paths and arguments, as an
//! `OsString` does on Unix.

use vstd::prelude::*;

pub mod args;
pub mod bytes;
pub mod cache;
pub mod filter;
pub mod fingerprint;
pub mod manifest;
pub mod publish;
pub mod request;
pub mod resolve;
pub mod session;

pub use args::{LogMode, Options, parse_args, print_usage};
pub use cache::SetPlan;
pub use filter::{OutputFilter, filter_output, is_suppressed};
pub use fingerprint::InstallCommand;
pub use manifest::find_cwd_installs;
pub use publish::{AfterRun, BinEntry, PublishTarget, RunOutcome, classify_exit, copy_failure, publish_targets};
pub use request::{Install, InstallFlag, InstallSet};
pub use resolve::{crates_cache_root, default_target_dir, needs_locked_warning, resolve_sets};
pub use session::{Failures, SetRun};

verus! {

/// An error of this library: a message, and the text of the underlying cause
/// where there is one.
#[derive(Debug)]
pub struct Error {
    message: Vec<u8>,
    cause: Option<Vec<u8>>,
}

impl Error {
    pub closed spec fn spec_message(&self) -> Seq<u8> {
        self.message@
    }

    pub closed spec fn spec_cause(&self) -> Option<Seq<u8>> {
        match self.cause {
            Some(c) => Some(c@),
            None => None,
        }
    }

    pub fn new(message: Vec<u8>, cause: Option<Vec<u8>>) -> (r: Error)
        ensures
            r.spec_message() == message@,
            r.spec_cause() == (match cause {
                Some(c) => Some(c@),
                None => None::<Seq<u8>>,
            }),
    {
        Error { message, cause }
    }

    /// The message, as UTF-8 where its parts were.
    pub fn message(&self) -> (r: &[u8])
        ensures
            r@ == self.spec_message(),
    {
        self.message.as_slice()
    }

    pub fn cause(&self) -> (r: Option<&[u8]>)
        ensures
            r matches Some(c) ==> self.spec_cause() == Some(c@),
            r is None <==> self.spec_cause() is None,
    {
        match &self.cause {
            Some(c) => Some(c.as_slice()),
            None => None,
        }
    }
}

} // verus!
