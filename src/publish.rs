//! What follows a build: the outcome of the `cargo install` run, and the
//! binaries to publish from the cache entry into the destination.

use vstd::prelude::*;
use crate::Error;
use crate::bytes::{join_path, path_join, push_all, text, to_bytes};
use crate::fingerprint::InstallCommand;

verus! {

/// How a run of `cargo install` ended.
#[derive(Debug)]
pub enum RunOutcome {
    /// Exit code 0.
    Success,
    /// Another exit code.
    ExitFailure(i32),
    /// Ended by a signal.
    SignalFailure,
    /// The process could not be started; the text of the cause.
    SpawnFailure(Vec<u8>),
    /// Not started: a dry run.
    DryRun,
}

/// What comes after a run.
#[derive(Debug)]
pub enum AfterRun {
    /// Publish the binaries of the cache entry.
    Publish,
    /// Nothing more for this request.
    Done,
    /// The request failed.
    Fail(Error),
}

/// The decimal digits of `n`.
pub open spec fn digits(n: nat) -> Seq<u8>
    decreases n,
{
    if n < 10 {
        seq![(48 + n) as u8]
    } else {
        digits(n / 10).push((48 + n % 10) as u8)
    }
}

/// `n` in decimal, with a `-` before it when negative.
pub open spec fn decimal(n: int) -> Seq<u8> {
    if n < 0 {
        seq![0x2du8] + digits((-n) as nat)
    } else {
        digits(n as nat)
    }
}

fn push_digits(out: &mut Vec<u8>, n: u64)
    ensures
        final(out)@ == old(out)@ + digits(n as nat),
    decreases n,
{
    if n >= 10 {
        push_digits(out, n / 10);
    }
    out.push((48 + n % 10) as u8);
    assert(out@ =~= old(out)@ + digits(n as nat));
}

pub fn push_decimal(out: &mut Vec<u8>, n: i32)
    ensures
        final(out)@ == old(out)@ + decimal(n as int),
{
    if n < 0 {
        out.push(0x2du8);
        let m: u64 = (-(n as i64)) as u64;
        push_digits(out, m);
        assert(out@ =~= old(out)@ + decimal(n as int));
    } else {
        push_digits(out, n as u64);
    }
}

/// The outcome of a finished process, from its exit code (`None`: ended by a
/// signal).
pub fn classify_exit(code: Option<i32>) -> (r: RunOutcome)
    ensures
        code == Some(0i32) ==> r is Success,
        forall|n: i32| code == Some(n) && n != 0 ==> r == RunOutcome::ExitFailure(n),
        code is None ==> r is SignalFailure,
{
    match code {
        Some(0) => RunOutcome::Success,
        Some(n) => RunOutcome::ExitFailure(n),
        None => RunOutcome::SignalFailure,
    }
}

/// The message of a failed run of `trace`.
pub open spec fn failure_message(trace: Seq<u8>, outcome: RunOutcome) -> Seq<u8> {
    match outcome {
        RunOutcome::ExitFailure(n) => trace + text(" failed (exit code ") + decimal(n as int)
            + text(")"),
        RunOutcome::SignalFailure => trace + text(" failed (signal)"),
        RunOutcome::SpawnFailure(cause) => text("failed to spawn ") + trace + text(": ")
            + cause@,
        _ => seq![],
    }
}

impl InstallCommand {
    /// Decides what follows a run: success publishes, a dry run stops there,
    /// any failure is an error that names the invocation.
    pub fn after_run(&self, outcome: &RunOutcome) -> (r: AfterRun)
        ensures
            outcome is Success <==> r is Publish,
            outcome is DryRun <==> r is Done,
            r matches AfterRun::Fail(e) ==> e.spec_message() == failure_message(
                self.trace@,
                *outcome,
            ),
    {
        match outcome {
            RunOutcome::Success => AfterRun::Publish,
            RunOutcome::DryRun => AfterRun::Done,
            RunOutcome::ExitFailure(n) => {
                let mut m = to_bytes(self.trace.as_slice());
                push_all(&mut m, " failed (exit code ".as_bytes());
                push_decimal(&mut m, *n);
                push_all(&mut m, ")".as_bytes());
                AfterRun::Fail(Error::new(m, None))
            },
            RunOutcome::SignalFailure => {
                let mut m = to_bytes(self.trace.as_slice());
                push_all(&mut m, " failed (signal)".as_bytes());
                AfterRun::Fail(Error::new(m, None))
            },
            RunOutcome::SpawnFailure(cause) => {
                let mut m = to_bytes("failed to spawn ".as_bytes());
                push_all(&mut m, self.trace.as_slice());
                push_all(&mut m, ": ".as_bytes());
                push_all(&mut m, cause.as_slice());
                AfterRun::Fail(Error::new(m, Some(to_bytes(cause.as_slice()))))
            },
        }
    }
}

/// An entry of a cache entry's `bin` directory.
#[derive(Debug)]
pub struct BinEntry {
    pub name: Vec<u8>,
    /// Whether it is a regular file.
    pub is_file: bool,
}

/// A file to publish: the built binary and the path it is published at.
#[derive(Debug)]
pub struct PublishTarget {
    pub source: Vec<u8>,
    pub destination: Vec<u8>,
}

pub open spec fn entry_views(entries: Seq<BinEntry>) -> Seq<(Seq<u8>, bool)> {
    entries.map_values(|e: BinEntry| (e.name@, e.is_file))
}

pub open spec fn target_views(targets: Seq<PublishTarget>) -> Seq<(Seq<u8>, Seq<u8>)> {
    targets.map_values(|t: PublishTarget| (t.source@, t.destination@))
}

/// Each regular file of `bin_dir`, in order, paired with the path of the same
/// name in `dst_dir`; anything else is left out.
pub open spec fn publish_plan(bin_dir: Seq<u8>, dst_dir: Seq<u8>, entries: Seq<(Seq<u8>, bool)>) -> Seq<
    (Seq<u8>, Seq<u8>),
>
    decreases entries.len(),
{
    if entries.len() == 0 {
        seq![]
    } else {
        let rest = publish_plan(bin_dir, dst_dir, entries.drop_last());
        let (name, is_file) = entries.last();
        if is_file {
            rest.push((path_join(bin_dir, name), path_join(dst_dir, name)))
        } else {
            rest
        }
    }
}

/// The files to publish from `bin_dir` into `dst_dir`.
pub fn publish_targets(bin_dir: &[u8], dst_dir: &[u8], entries: &Vec<BinEntry>) -> (r: Vec<
    PublishTarget,
>)
    ensures
        target_views(r@) == publish_plan(bin_dir@, dst_dir@, entry_views(entries@)),
{
    let ghost ev = entry_views(entries@);
    let mut r: Vec<PublishTarget> = Vec::new();
    let mut i: usize = 0;
    while i < entries.len()
        invariant
            i <= entries@.len(),
            ev == entry_views(entries@),
            target_views(r@) == publish_plan(bin_dir@, dst_dir@, ev.subrange(0, i as int)),
        decreases entries@.len() - i,
    {
        let e = &entries[i];
        assert(ev.subrange(0, i + 1).drop_last() =~= ev.subrange(0, i as int));
        if e.is_file {
            let ghost prev = r@;
            r.push(
                PublishTarget {
                    source: join_path(bin_dir, e.name.as_slice()),
                    destination: join_path(dst_dir, e.name.as_slice()),
                },
            );
            assert(target_views(r@) =~= target_views(prev).push(
                (path_join(bin_dir@, e.name@), path_join(dst_dir@, e.name@)),
            ));
        }
        i = i + 1;
    }
    assert(ev.subrange(0, i as int) =~= ev);
    r
}

/// The message when a binary could not be copied to its destination.
pub fn copy_failure(target: &PublishTarget, cause: &[u8]) -> (r: Error)
    ensures
        r.spec_message() == text("error replacing `") + target.destination@ + text("` with `")
            + target.source@ + text("`: ") + cause@,
        r.spec_cause() == Some(cause@),
{
    let mut m = to_bytes("error replacing `".as_bytes());
    push_all(&mut m, target.destination.as_slice());
    push_all(&mut m, "` with `".as_bytes());
    push_all(&mut m, target.source.as_slice());
    push_all(&mut m, "`: ".as_bytes());
    push_all(&mut m, cause);
    assert(m@ =~= text("error replacing `") + target.destination@ + text("` with `")
        + target.source@ + text("`: ") + cause@);
    Error::new(m, Some(to_bytes(cause)))
}

} // verus!
