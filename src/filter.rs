//! The filter on the diagnostic output of `cargo install`: lines that repeat
//! what this tool reports itself are dropped, everything else is forwarded in
//! order, byte for byte.
//!
//! A line is dropped when it starts with the plain or the colored form of a
//! rule's prefix and ends with the rule's suffix. A trailing carriage return
//! is not part of the line for this test. The unterminated tail of the stream
//! is forwarded as it is, since its end cannot be confirmed.

use vstd::prelude::*;
use crate::bytes::{ends_with, has_prefix, has_suffix, push_all, starts_with, text};

verus! {

pub const IGNORED_PLAIN: &'static str = "     Ignored package `";
pub const IGNORED_COLORED: &'static str = "\u{1b}[0m\u{1b}[0m\u{1b}[1m\u{1b}[32m     Ignored\u{1b}[0m package `";
pub const IGNORED_SUFFIX: &'static str = "` is already installed, use --force to override";

pub const PATH_PLAIN: &'static str = "warning: be sure to add `";
pub const PATH_COLORED: &'static str = "\u{1b}[0m\u{1b}[0m\u{1b}[1m\u{1b}[33mwarning\u{1b}[0m\u{1b}[1m:\u{1b}[0m be sure to add `";
pub const PATH_SUFFIX: &'static str = "` to your PATH to be able to run the installed binaries";

pub const REPLACING_PLAIN: &'static str = "   Replacing ";
pub const REPLACING_COLORED: &'static str = "\u{1b}[0m\u{1b}[0m\u{1b}[1m\u{1b}[32m   Replacing\u{1b}[0m ";

pub const REPLACED_PLAIN: &'static str = "    Replaced ";
pub const REPLACED_COLORED: &'static str = "\u{1b}[0m\u{1b}[0m\u{1b}[1m\u{1b}[32m    Replaced\u{1b}[0m ";

pub const FINISHED_PLAIN: &'static str = "    Finished ";
pub const FINISHED_COLORED: &'static str = "\u{1b}[0m\u{1b}[0m\u{1b}[1m\u{1b}[32m    Finished\u{1b}[0m ";

pub const NO_SUFFIX: &'static str = "";

pub open spec fn rule_matches(line: Seq<u8>, plain: &str, colored: &str, suffix: &str) -> bool {
    has_suffix(line, text(suffix)) && (has_prefix(line, text(plain)) || has_prefix(
        line,
        text(colored),
    ))
}

/// The line (without its terminator) is one of the redundant notices.
pub open spec fn suppressed(line: Seq<u8>) -> bool {
    ||| rule_matches(line, IGNORED_PLAIN, IGNORED_COLORED, IGNORED_SUFFIX)
    ||| rule_matches(line, PATH_PLAIN, PATH_COLORED, PATH_SUFFIX)
    ||| rule_matches(line, REPLACING_PLAIN, REPLACING_COLORED, NO_SUFFIX)
    ||| rule_matches(line, REPLACED_PLAIN, REPLACED_COLORED, NO_SUFFIX)
    ||| rule_matches(line, FINISHED_PLAIN, FINISHED_COLORED, NO_SUFFIX)
}

/// A line without its `\n` and without the `\r` before it, if any.
pub open spec fn line_content(line: Seq<u8>) -> Seq<u8> {
    if line.len() > 0 && line.last() == 0x0du8 {
        line.drop_last()
    } else {
        line
    }
}

/// What is forwarded of a complete line, read without its `\n`.
pub open spec fn forwarded_line(line: Seq<u8>) -> Seq<u8> {
    if suppressed(line_content(line)) {
        seq![]
    } else {
        line.push(0x0au8)
    }
}

/// Reads `s` with `line` already read of the current line: what is forwarded,
/// and what is then read of the line that is not yet complete.
pub open spec fn scan(line: Seq<u8>, s: Seq<u8>) -> (Seq<u8>, Seq<u8>)
    decreases s.len(),
{
    if s.len() == 0 {
        (seq![], line)
    } else {
        let (out, rest) = scan(line, s.drop_last());
        if s.last() == 0x0au8 {
            (out + forwarded_line(rest), seq![])
        } else {
            (out, rest.push(s.last()))
        }
    }
}

/// The output for a whole stream: its kept lines, then its unterminated tail.
pub open spec fn filtered(s: Seq<u8>) -> Seq<u8> {
    scan(seq![], s).0 + scan(seq![], s).1
}

fn matches_rule(line: &[u8], plain: &str, colored: &str, suffix: &str) -> (r: bool)
    ensures
        r == rule_matches(line@, plain, colored, suffix),
{
    ends_with(line, suffix.as_bytes()) && (starts_with(line, plain.as_bytes()) || starts_with(
        line,
        colored.as_bytes(),
    ))
}

pub fn is_suppressed(line: &[u8]) -> (r: bool)
    ensures
        r == suppressed(line@),
{
    matches_rule(line, IGNORED_PLAIN, IGNORED_COLORED, IGNORED_SUFFIX) || matches_rule(
        line,
        PATH_PLAIN,
        PATH_COLORED,
        PATH_SUFFIX,
    ) || matches_rule(line, REPLACING_PLAIN, REPLACING_COLORED, NO_SUFFIX) || matches_rule(
        line,
        REPLACED_PLAIN,
        REPLACED_COLORED,
        NO_SUFFIX,
    ) || matches_rule(line, FINISHED_PLAIN, FINISHED_COLORED, NO_SUFFIX)
}

/// A filter fed with the stream in chunks of any size.
pub struct OutputFilter {
    line: Vec<u8>,
}

impl OutputFilter {
    /// What has been read of the line that is not yet complete.
    pub closed spec fn pending(&self) -> Seq<u8> {
        self.line@
    }

    pub fn new() -> (r: OutputFilter)
        ensures
            r.pending() == Seq::<u8>::empty(),
    {
        OutputFilter { line: Vec::new() }
    }

    /// Reads a chunk; returns what is to be forwarded.
    pub fn feed(&mut self, chunk: &[u8]) -> (out: Vec<u8>)
        ensures
            out@ == scan(old(self).pending(), chunk@).0,
            final(self).pending() == scan(old(self).pending(), chunk@).1,
    {
        let ghost start = self.line@;
        let mut out: Vec<u8> = Vec::new();
        let mut i: usize = 0;
        while i < chunk.len()
            invariant
                i <= chunk@.len(),
                scan(start, chunk@.subrange(0, i as int)) == (out@, self.line@),
            decreases chunk@.len() - i,
        {
            let c = chunk[i];
            assert(chunk@.subrange(0, i + 1).drop_last() =~= chunk@.subrange(0, i as int));
            if c == 0x0au8 {
                let mut line: Vec<u8> = Vec::new();
                std::mem::swap(&mut line, &mut self.line);
                let n = line.len();
                let content: &[u8] = if n > 0 && line[n - 1] == 0x0du8 {
                    line.as_slice().split_at(n - 1).0
                } else {
                    line.as_slice()
                };
                assert(content@ =~= line_content(line@));
                if !is_suppressed(content) {
                    push_all(&mut out, line.as_slice());
                    out.push(0x0au8);
                }
                assert(out@ =~= scan(start, chunk@.subrange(0, i as int)).0 + forwarded_line(line@));
            } else {
                self.line.push(c);
            }
            i = i + 1;
        }
        assert(chunk@.subrange(0, i as int) =~= chunk@);
        out
    }

    /// Ends the stream; returns its unterminated tail.
    pub fn finish(self) -> (out: Vec<u8>)
        ensures
            out@ == self.pending(),
    {
        self.line
    }
}

/// Filters a whole stream at once.
pub fn filter_output(s: &[u8]) -> (r: Vec<u8>)
    ensures
        r@ == filtered(s@),
{
    let mut f = OutputFilter::new();
    let mut r = f.feed(s);
    let tail = f.finish();
    push_all(&mut r, tail.as_slice());
    r
}

/// Reading `a` and then `b` is reading `a + b`.
pub proof fn lemma_scan_append(line: Seq<u8>, a: Seq<u8>, b: Seq<u8>)
    ensures
        scan(line, a + b) == ({
            let (out1, rest1) = scan(line, a);
            let (out2, rest2) = scan(rest1, b);
            (out1 + out2, rest2)
        }),
    decreases b.len(),
{
    if b.len() == 0 {
        assert(a + b =~= a);
        let (out1, rest1) = scan(line, a);
        assert(out1 + seq![] =~= out1);
    } else {
        lemma_scan_append(line, a, b.drop_last());
        assert((a + b).drop_last() =~= a + b.drop_last());
        let (out1, rest1) = scan(line, a);
        let (out2, rest2) = scan(rest1, b.drop_last());
        if b.last() == 0x0au8 {
            assert(out1 + out2 + forwarded_line(rest2) =~= out1 + (out2 + forwarded_line(rest2)));
        }
    }
}

/// The concatenation of a sequence of chunks.
pub open spec fn concat_chunks(chunks: Seq<Seq<u8>>) -> Seq<u8>
    decreases chunks.len(),
{
    if chunks.len() == 0 {
        seq![]
    } else {
        concat_chunks(chunks.drop_last()) + chunks.last()
    }
}

/// Feeding `chunks` in turn to a filter that has read `line`: what is
/// forwarded, and what is then pending.
pub open spec fn feed_chunks(line: Seq<u8>, chunks: Seq<Seq<u8>>) -> (Seq<u8>, Seq<u8>)
    decreases chunks.len(),
{
    if chunks.len() == 0 {
        (seq![], line)
    } else {
        let (out, rest) = feed_chunks(line, chunks.drop_last());
        let (out2, rest2) = scan(rest, chunks.last());
        (out + out2, rest2)
    }
}

/// How the stream is cut into chunks does not change the output: feeding the
/// chunks in turn and then finishing forwards exactly what filtering the
/// whole stream forwards.
pub proof fn lemma_chunking_is_invisible(chunks: Seq<Seq<u8>>)
    ensures
        feed_chunks(seq![], chunks).0 + feed_chunks(seq![], chunks).1 == filtered(
            concat_chunks(chunks),
        ),
{
    lemma_feed_chunks_is_scan(chunks);
}

proof fn lemma_feed_chunks_is_scan(chunks: Seq<Seq<u8>>)
    ensures
        feed_chunks(seq![], chunks) == scan(seq![], concat_chunks(chunks)),
    decreases chunks.len(),
{
    if chunks.len() > 0 {
        lemma_feed_chunks_is_scan(chunks.drop_last());
        lemma_scan_append(seq![], concat_chunks(chunks.drop_last()), chunks.last());
    }
}

} // verus!
