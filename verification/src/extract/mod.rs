//! Running a PMTiles extract: what is asked of the extractor, what it
//! reports back, and how its failures read.
pub mod estimate;
pub mod validate;

use std::time::Duration;
use vstd::prelude::*;
use vstd::utf8::{encode_utf8, decode_utf8, is_char_boundary};
use vstd::string::StringSliceAdditionalSpecFns;
use crate::text::{push_str, push_signed_decimal, signed_decimal, trim_white, trim_white_space};

verus! {

/// One extract: cut `planet` to the polygon in the GeoJSON file
/// `region_geojson`, up to `maxzoom`, writing the archive to `output`.
#[derive(Debug, Clone)]
pub struct ExtractRequest {
    pub planet: String,
    /// Path to a GeoJSON file holding the region polygon.
    pub region_geojson: String,
    pub maxzoom: u8,
    pub output: String,
}

/// What a successful extract produced.
#[derive(Debug)]
pub struct ExtractOutcome {
    pub file_size: u64,
    pub duration: Duration,
}

/// A span of time as whole seconds and the nanoseconds beyond them, which
/// are always below one second (the parts `std::time::Duration` holds).
#[derive(Debug)]
pub struct TimeSpan {
    secs: u64,
    subsec_nanos: u32,
}

impl View for TimeSpan {
    type V = (u64, u32);

    closed spec fn view(&self) -> (u64, u32) {
        (self.secs, self.subsec_nanos)
    }
}

impl TimeSpan {
    #[verifier::type_invariant]
    closed spec fn nanos_below_second(self) -> bool {
        self.subsec_nanos < 1_000_000_000
    }

    /// The span of `secs` seconds and `subsec_nanos` nanoseconds; `None`
    /// when `subsec_nanos` is a whole second or more.
    pub fn new(secs: u64, subsec_nanos: u32) -> (t: Option<TimeSpan>)
        ensures
            subsec_nanos < 1_000_000_000 ==> (t matches Some(x) && x@ == (secs, subsec_nanos)),
            subsec_nanos >= 1_000_000_000 ==> t is None,
    {
        if subsec_nanos < 1_000_000_000 {
            Some(TimeSpan { secs, subsec_nanos })
        } else {
            None
        }
    }

    /// The whole seconds.
    pub fn secs(&self) -> (s: u64)
        ensures
            s == self@.0,
    {
        self.secs
    }

    /// The nanoseconds beyond the whole seconds.
    pub fn subsec_nanos(&self) -> (n: u32)
        ensures
            n == self@.1,
            n < 1_000_000_000,
    {
        proof {
            use_type_invariant(self);
        }
        self.subsec_nanos
    }
}

/// Why an extract failed.
#[derive(Debug)]
pub enum ExtractError {
    /// The extractor exited unsuccessfully (`exit_code` is `None` when it was
    /// killed by a signal); `stderr_tail` is the end of what it printed.
    Failed { exit_code: Option<i32>, stderr_tail: String },
    /// The extractor ran longer than the allowed span.
    TimedOut(TimeSpan),
    /// The extractor could not be run or its output not inspected.
    Io(String),
}

/// The `Debug` text std gives the `Duration` of `secs` seconds and
/// `subsec_nanos` nanoseconds (such as `60s` or `1.5ms`).
pub uninterp spec fn duration_debug(secs: u64, subsec_nanos: u32) -> Seq<char>;

/// `format!("{:?}", Duration::new(secs, subsec_nanos))`: the text is claimed
/// to be `duration_debug` of the two parts, on which alone std's
/// `impl Debug for Duration` depends. `Duration::new` cannot panic here, as
/// the nanoseconds are below one second.
#[verifier::external_body]
fn duration_debug_text(secs: u64, subsec_nanos: u32) -> (s: String)
    requires
        subsec_nanos < 1_000_000_000,
    ensures
        s@ == duration_debug(secs, subsec_nanos),
{
    format!("{:?}", Duration::new(secs, subsec_nanos))
}

/// `Debug` text of an optional exit code: `Some(<code>)` or `None`.
pub open spec fn exit_code_text(code: Option<i32>) -> Seq<char> {
    match code {
        Some(c) => "Some("@ + signed_decimal(c as int) + ")"@,
        None => "None"@,
    }
}

impl ExtractError {
    /// The human-readable message of the error. For `TimedOut`, the
    /// duration's `Debug` text follows the fixed prefix.
    pub fn message(&self) -> (m: String)
        ensures
            match self {
                ExtractError::Failed { exit_code, stderr_tail } => m@ == "pmtiles extract failed (exit "@
                    + exit_code_text(*exit_code) + "): "@ + stderr_tail@,
                ExtractError::TimedOut(t) => m@ == "pmtiles extract timed out after "@
                    + duration_debug(t@.0, t@.1),
                ExtractError::Io(e) => m@ == "io error running pmtiles extract: "@ + e@,
            },
    {
        match self {
            ExtractError::Failed { exit_code, stderr_tail } => {
                let mut m = String::from_str("pmtiles extract failed (exit ");
                match exit_code {
                    Some(c) => {
                        push_str(&mut m, "Some(");
                        push_signed_decimal(&mut m, *c);
                        push_str(&mut m, ")");
                    },
                    None => {
                        push_str(&mut m, "None");
                    },
                }
                push_str(&mut m, "): ");
                push_str(&mut m, stderr_tail.as_str());
                proof {
                    assert(m@ =~= "pmtiles extract failed (exit "@ + exit_code_text(*exit_code)
                        + "): "@ + stderr_tail@);
                }
                m
            },
            ExtractError::TimedOut(t) => {
                let mut m = String::from_str("pmtiles extract timed out after ");
                let text = duration_debug_text(t.secs(), t.subsec_nanos());
                push_str(&mut m, text.as_str());
                m
            },
            ExtractError::Io(e) => {
                let mut m = String::from_str("io error running pmtiles extract: ");
                push_str(&mut m, e.as_str());
                m
            },
        }
    }
}

/// How many bytes of the extractor's stderr are kept in a failure message.
pub const STDERR_TAIL_BYTES: usize = 2000;

/// The last `STDERR_TAIL_BYTES` bytes of `s` (all of `s` when that cut would
/// split a character), with surrounding white space trimmed.
pub open spec fn stderr_tail_text(s: Seq<char>) -> Seq<char> {
    let b = encode_utf8(s);
    let start: int = if b.len() > STDERR_TAIL_BYTES { b.len() - STDERR_TAIL_BYTES } else { 0 };
    let t = if is_char_boundary(b, start) {
        decode_utf8(b.subrange(start, b.len() as int))
    } else {
        s
    };
    trim_white(t)
}

/// The end of an extractor's stderr, as kept in its failure message.
pub fn stderr_tail(stderr: &str) -> (t: String)
    requires
        encode_utf8(stderr@).len() <= usize::MAX,
    ensures
        t@ == stderr_tail_text(stderr@),
{
    broadcast use vstd::utf8::encode_utf8_decode_utf8, vstd::utf8::encode_utf8_valid_utf8;

    let n = stderr.len();
    let start = n.saturating_sub(STDERR_TAIL_BYTES);
    let ghost b = encode_utf8(stderr@);
    proof {
        assert(stderr.spec_bytes() == b);
        assert(start as int == if b.len() > STDERR_TAIL_BYTES { b.len() - STDERR_TAIL_BYTES } else { 0 });
    }
    if stderr.is_char_boundary(start) {
        let (_, tail) = stderr.split_at(start);
        proof {
            assert(tail.spec_bytes() == encode_utf8(tail@));
            assert(tail.spec_bytes() =~= b.subrange(start as int, b.len() as int));
            assert(decode_utf8(encode_utf8(tail@)) == tail@);
            assert(decode_utf8(b.subrange(start as int, b.len() as int)) == tail@);
        }
        trim_white_space(tail)
    } else {
        trim_white_space(stderr)
    }
}

/// Output of at most `STDERR_TAIL_BYTES` bytes is kept whole, only trimmed;
/// longer output keeps a trimmed end of at most that many bytes, or, when
/// the cut would split a character, the whole output trimmed.
pub proof fn lemma_stderr_tail(s: Seq<char>)
    ensures
        encode_utf8(s).len() <= STDERR_TAIL_BYTES ==> stderr_tail_text(s) == trim_white(s),
        encode_utf8(s).len() > STDERR_TAIL_BYTES ==> (stderr_tail_text(s) == trim_white(s) || exists|t: Seq<char>|
            #![trigger encode_utf8(t)]
            encode_utf8(t).len() == STDERR_TAIL_BYTES && encode_utf8(s) == encode_utf8(s).subrange(
                0,
                encode_utf8(s).len() - STDERR_TAIL_BYTES,
            ) + encode_utf8(t) && stderr_tail_text(s) == trim_white(t)),
{
    broadcast use vstd::utf8::encode_utf8_decode_utf8, vstd::utf8::encode_utf8_valid_utf8;

    let b = encode_utf8(s);
    if b.len() <= STDERR_TAIL_BYTES {
        assert(b.subrange(0, b.len() as int) =~= b);
        assert(is_char_boundary(b, 0));
    } else {
        let start = b.len() - STDERR_TAIL_BYTES;
        if is_char_boundary(b, start) {
            let t = decode_utf8(b.subrange(start, b.len() as int));
            vstd::utf8::valid_utf8_split(b, start);
            vstd::utf8::decode_utf8_encode_utf8(b.subrange(start, b.len() as int));
            assert(encode_utf8(t) == b.subrange(start, b.len() as int));
            assert(b =~= b.subrange(0, start) + b.subrange(start, b.len() as int));
        }
    }
}

/// Runs extracts with the go-pmtiles binary, killing it after `timeout`.
pub struct GoPmtilesExtractor {
    pub binary: String,
    pub timeout: Duration,
}

impl GoPmtilesExtractor {
    pub fn new(binary: String, timeout: Duration) -> (e: GoPmtilesExtractor)
        ensures
            e.binary == binary,
            e.timeout == timeout,
    {
        GoPmtilesExtractor { binary, timeout }
    }
}

} // verus!
