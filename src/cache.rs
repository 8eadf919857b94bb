//! The freshness decision for an install set: which requests are built, and
//! whether the set's freshness marker is written afterwards.
//!
//! Times are nanoseconds since the Unix epoch; `None` stands for a time that
//! could not be read, which never counts as up to date.

use vstd::prelude::*;
use crate::bytes::{join_path, path_join, text};
use crate::request::{
    InstallSet, InstallView, any_local_request, any_remote_request, install_views,
    is_local_request,
};

verus! {

/// A set is up to date when it has a remote request, comes from a manifest,
/// and its marker was written after the manifest last changed.
pub open spec fn set_up_to_date(
    installs: Seq<InstallView>,
    has_origin: bool,
    origin_mtime: Option<u128>,
    marker_mtime: Option<u128>,
) -> bool {
    &&& any_remote_request(installs)
    &&& has_origin
    &&& origin_mtime is Some
    &&& marker_mtime is Some
    &&& origin_mtime.unwrap() < marker_mtime.unwrap()
}

/// Whether request `k` is built: everything is, but the remote requests of a
/// set that is up to date.
pub open spec fn request_runs(
    installs: Seq<InstallView>,
    has_origin: bool,
    origin_mtime: Option<u128>,
    marker_mtime: Option<u128>,
    k: int,
) -> bool {
    !(set_up_to_date(installs, has_origin, origin_mtime, marker_mtime) && !is_local_request(
        installs[k],
    ))
}

/// Whether the marker is written after the set ran: for a set from a manifest
/// with a remote request, unless the whole set was skipped.
pub open spec fn marker_touched(
    installs: Seq<InstallView>,
    has_origin: bool,
    origin_mtime: Option<u128>,
    marker_mtime: Option<u128>,
) -> bool {
    &&& installs.len() > 0
    &&& any_remote_request(installs)
    &&& has_origin
    &&& !(set_up_to_date(installs, has_origin, origin_mtime, marker_mtime) && !any_local_request(
        installs,
    ))
}

/// What to do with one install set.
#[derive(Debug)]
pub struct SetPlan {
    /// For each request of the set, in order, whether it is built.
    pub run: Vec<bool>,
    /// Whether the freshness marker is written once the requests have run.
    pub touch_marker: bool,
    /// Whether the set was found up to date.
    pub up_to_date: bool,
}

/// The freshness marker of a set: `.built` in its destination.
pub open spec fn marker_path_of(bin: Seq<u8>) -> Seq<u8> {
    path_join(bin, text(".built"))
}

impl InstallSet {
    pub fn marker_path(&self) -> (r: Vec<u8>)
        ensures
            r@ == marker_path_of(self.bin@),
    {
        join_path(self.bin.as_slice(), ".built".as_bytes())
    }

    /// Decides which requests of the set are built, given the modification
    /// times of its manifest and of its freshness marker.
    pub fn plan(&self, origin_mtime: Option<u128>, marker_mtime: Option<u128>) -> (r: SetPlan)
        ensures
            ({
                let v = install_views(self.installs@);
                let o = self.src is Some;
                &&& r.up_to_date == set_up_to_date(v, o, origin_mtime, marker_mtime)
                &&& r.touch_marker == marker_touched(v, o, origin_mtime, marker_mtime)
                &&& r.run@.len() == v.len()
                &&& forall|k: int|
                    0 <= k < v.len() ==> r.run@[k] == request_runs(
                        v,
                        o,
                        origin_mtime,
                        marker_mtime,
                        k,
                    )
            }),
    {
        let ghost v = install_views(self.installs@);
        let any_local = self.any_local();
        let any_remote = self.any_remote();
        let up_to_date = any_remote && self.src.is_some() && match (origin_mtime, marker_mtime) {
            (Some(o), Some(m)) => o < m,
            _ => false,
        };
        let mut run: Vec<bool> = Vec::new();
        let mut k: usize = 0;
        while k < self.installs.len()
            invariant
                k <= v.len(),
                v == install_views(self.installs@),
                up_to_date == set_up_to_date(v, self.src is Some, origin_mtime, marker_mtime),
                run@.len() == k,
                forall|m: int|
                    0 <= m < k ==> run@[m] == request_runs(
                        v,
                        self.src is Some,
                        origin_mtime,
                        marker_mtime,
                        m,
                    ),
            decreases v.len() - k,
        {
            run.push(!(up_to_date && self.installs[k].is_remote()));
            k = k + 1;
        }
        let touch_marker = self.installs.len() > 0 && any_remote && self.src.is_some() && !(
        up_to_date && !any_local);
        SetPlan { run, touch_marker, up_to_date }
    }
}

/// A request built from a local directory is always built, whatever the
/// freshness of its set.
pub proof fn lemma_local_requests_always_run(
    installs: Seq<InstallView>,
    has_origin: bool,
    origin_mtime: Option<u128>,
    marker_mtime: Option<u128>,
    k: int,
)
    requires
        0 <= k < installs.len(),
        is_local_request(installs[k]),
    ensures
        request_runs(installs, has_origin, origin_mtime, marker_mtime, k),
{
}

/// Running a set from a manifest twice: the first run, with no marker yet,
/// builds every request and writes the marker; once the marker is newer than
/// the manifest, a second run builds none of the remote requests.
pub proof fn lemma_second_run_skips_remote_requests(
    installs: Seq<InstallView>,
    origin_mtime: u128,
    marker_mtime: u128,
)
    requires
        any_remote_request(installs),
        origin_mtime < marker_mtime,
    ensures
        marker_touched(installs, true, Some(origin_mtime), None),
        forall|k: int|
            0 <= k < installs.len() ==> request_runs(installs, true, Some(origin_mtime), None, k),
        forall|k: int|
            0 <= k < installs.len() && !is_local_request(#[trigger] installs[k]) ==> !request_runs(
                installs,
                true,
                Some(origin_mtime),
                Some(marker_mtime),
                k,
            ),
{
}

/// A set of remote requests whose marker is newer than its manifest is
/// skipped whole: nothing is built and the marker is left as it is.
pub proof fn lemma_up_to_date_remote_set_is_skipped(
    installs: Seq<InstallView>,
    origin_mtime: u128,
    marker_mtime: u128,
)
    requires
        installs.len() > 0,
        !any_local_request(installs),
        origin_mtime < marker_mtime,
    ensures
        set_up_to_date(installs, true, Some(origin_mtime), Some(marker_mtime)),
        !marker_touched(installs, true, Some(origin_mtime), Some(marker_mtime)),
        forall|k: int|
            0 <= k < installs.len() ==> !request_runs(
                installs,
                true,
                Some(origin_mtime),
                Some(marker_mtime),
                k,
            ),
{
    assert(!is_local_request(installs[0]));
}

} // verus!
