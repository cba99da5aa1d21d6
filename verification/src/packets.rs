//! Small protocol pieces: setting paths, extension blobs, firewall actions and
//! the per-window OpenXR layer summary.

use std::time::Duration;
use vstd::prelude::*;
use crate::text::{chars_of, join_spec, seq_views, split_chars, split_spec, string_of};
use crate::num::{digits_of, format_unsigned};

verus! {

/// One step of a path into the settings tree.
pub enum PathSegment {
    Name(String),
    Index(usize),
}

/// A segment's text: a name as is, an index as `[n]`.
pub open spec fn segment_text(s: PathSegment) -> Seq<char> {
    match s {
        PathSegment::Name(n) => n@,
        PathSegment::Index(i) => seq!['['] + digits_of(i as nat, 10) + seq![']'],
    }
}

impl PathSegment {
    /// The segment as text (`name`, or `[index]`).
    pub fn to_text(&self) -> (r: String)
        ensures
            r@ == segment_text(*self),
    {
        match self {
            PathSegment::Name(n) => n.clone(),
            PathSegment::Index(i) => {
                let digits = format_unsigned(*i as u64, 10);
                let mut v: Vec<char> = Vec::new();
                v.push('[');
                let n = digits.len();
                for k in 0..n
                    invariant
                        n == digits@.len(),
                        v@ == seq!['['] + digits@.take(k as int),
                {
                    v.push(digits[k]);
                    proof {
                        assert(digits@.take(k + 1) == digits@.take(k as int).push(digits@[k as int]));
                    }
                }
                v.push(']');
                proof {
                    assert(digits@.take(n as int) == digits@);
                    assert(v@ =~= seq!['['] + digits_of(*i as nat, 10) + seq![']']);
                }
                string_of(v.as_slice())
            },
        }
    }
}

impl From<String> for PathSegment {
    fn from(value: String) -> PathSegment {
        PathSegment::Name(value)
    }
}

impl vstd::std_specs::convert::FromSpecImpl<String> for PathSegment {
    open spec fn obeys_from_spec() -> bool {
        true
    }

    open spec fn from_spec(v: String) -> PathSegment {
        PathSegment::Name(v)
    }
}

impl From<usize> for PathSegment {
    fn from(value: usize) -> PathSegment {
        PathSegment::Index(value)
    }
}

impl vstd::std_specs::convert::FromSpecImpl<usize> for PathSegment {
    open spec fn obeys_from_spec() -> bool {
        true
    }

    open spec fn from_spec(v: usize) -> PathSegment {
        PathSegment::Index(v)
    }
}

/// The names of a sequence of segments (`None` if any is an index).
pub open spec fn segment_names(p: Seq<PathSegment>) -> Seq<Seq<char>> {
    p.map_values(|s: PathSegment| segment_text(s))
}

/// Splits a dotted path (`video.foveated_encoding`) into name segments.
pub fn parse_path(path: &str) -> (r: Vec<PathSegment>)
    ensures
        forall|i: int| 0 <= i < r@.len() ==> r@[i] is Name,
        segment_names(r@) == split_spec(path@, '.'),
{
    let chars = chars_of(path);
    let parts = split_chars(chars.as_slice(), '.');
    let n = parts.len();
    let mut out: Vec<PathSegment> = Vec::new();
    for i in 0..n
        invariant
            n == parts@.len(),
            seq_views(parts@) == split_spec(path@, '.'),
            forall|j: int| 0 <= j < out@.len() ==> out@[j] is Name,
            segment_names(out@) == split_spec(path@, '.').take(i as int),
    {
        let name = string_of(parts[i].as_slice());
        proof {
            assert(seq_views(parts@)[i as int] == parts@[i as int]@);
        }
        let ghost before = out@;
        out.push(PathSegment::Name(name));
        proof {
            assert(segment_names(out@) =~= segment_names(before).push(name@));
            assert(split_spec(path@, '.').take(i + 1) =~= split_spec(path@, '.').take(i as int).push(
                split_spec(path@, '.')[i as int],
            ));
        }
    }
    proof {
        assert(split_spec(path@, '.').take(n as int) =~= split_spec(path@, '.'));
    }
    out
}

proof fn lemma_join_update_last(r: Seq<Seq<char>>, c: char, sep: Seq<char>)
    requires
        r.len() >= 1,
    ensures
        join_spec(r.update(r.len() - 1, r.last().push(c)), sep) == join_spec(r, sep).push(c),
{
    let u = r.update(r.len() - 1, r.last().push(c));
    if r.len() == 1 {
        assert(u[0] == r[0].push(c));
    } else {
        assert(u.drop_last() =~= r.drop_last());
        assert(u.last() == r.last().push(c));
        assert(join_spec(u, sep) == join_spec(r.drop_last(), sep) + sep + r.last().push(c));
        assert(join_spec(r.drop_last(), sep) + sep + r.last().push(c) =~= (join_spec(
            r.drop_last(),
            sep,
        ) + sep + r.last()).push(c));
    }
}

/// Joining the pieces of a split with the separator gives back the text.
pub proof fn lemma_split_join(s: Seq<char>, d: char)
    ensures
        join_spec(split_spec(s, d), seq![d]) == s,
    decreases s.len(),
{
    if s.len() > 0 {
        lemma_split_join(s.drop_last(), d);
        crate::text::lemma_split_nonempty(s.drop_last(), d);
        let r = split_spec(s.drop_last(), d);
        if s.last() == d {
            let p = r.push(Seq::<char>::empty());
            assert(p.drop_last() =~= r);
            assert(join_spec(p, seq![d]) =~= s.drop_last() + seq![d] + Seq::<char>::empty());
            assert(s =~= s.drop_last().push(d));
        } else {
            lemma_join_update_last(r, s.last(), seq![d]);
            assert(s =~= s.drop_last().push(s.last()));
        }
    }
}

/// A parsed path reads back as the text it came from: its segment names
/// joined with `.` give back the path.
pub proof fn law_parse_path_roundtrip(path: Seq<char>, segs: Seq<PathSegment>)
    requires
        segment_names(segs) == split_spec(path, '.'),
    ensures
        join_spec(segment_names(segs), seq!['.']) == path,
{
    lemma_split_join(path, '.');
}

/// Whether `text` is accepted by `serde_json::from_str::<serde_json::Value>`.
pub uninterp spec fn json_text_parses(text: Seq<char>) -> bool;

#[verifier::external_type_specification]
#[verifier::external_body]
pub struct ExJsonError(serde_json::Error);

/// Calls `serde_json::from_str::<serde_json::Value>` and keeps only whether it
/// succeeded; the contract names that outcome `json_text_parses` of the text
/// and does not restate the JSON grammar.
#[verifier::external_body]
fn check_json(text: &str) -> (r: Result<(), serde_json::Error>)
    ensures
        r.is_ok() == json_text_parses(text@),
{
    serde_json::from_str::<serde_json::Value>(text).map(|_| ())
}

/// Extensions advertised with the streaming capabilities (none defined yet).
pub struct VideoStreamingCapabilitiesExt {}

/// Extensions of the negotiated streaming configuration (none defined yet).
pub struct NegotiatedStreamingConfigExt {}

/// Why an extension blob could not be read.
#[derive(Clone, Copy, Debug, PartialEq, Eq, Structural)]
pub enum ExtError {
    /// The blob is not JSON text.
    InvalidJson,
}

/// Reads the capability extensions from their JSON blob.
pub fn capabilities_ext(ext_str: &str) -> (r: Result<VideoStreamingCapabilitiesExt, ExtError>)
    ensures
        r.is_ok() == json_text_parses(ext_str@),
        r.is_err() ==> r == Err::<VideoStreamingCapabilitiesExt, ExtError>(ExtError::InvalidJson),
{
    match check_json(ext_str) {
        Ok(()) => Ok(VideoStreamingCapabilitiesExt {  }),
        Err(_) => Err(ExtError::InvalidJson),
    }
}

/// Reads the negotiated-configuration extensions from their JSON blob.
pub fn negotiated_ext(ext_str: &str) -> (r: Result<NegotiatedStreamingConfigExt, ExtError>)
    ensures
        r.is_ok() == json_text_parses(ext_str@),
        r.is_err() ==> r == Err::<NegotiatedStreamingConfigExt, ExtError>(ExtError::InvalidJson),
{
    match check_json(ext_str) {
        Ok(()) => Ok(NegotiatedStreamingConfigExt {  }),
        Err(_) => Err(ExtError::InvalidJson),
    }
}

/// Per-frame timings that the client reports; `target_timestamp` identifies
/// the frame.
#[derive(Clone, Copy, Debug)]
pub struct ClientStatistics {
    pub target_timestamp: Duration,
    pub frame_interval: Duration,
    pub video_decode: Duration,
    pub video_decoder_queue: Duration,
    pub rendering: Duration,
    pub vsync_queue: Duration,
    pub total_pipeline_latency: Duration,
}

/// Add or remove the streamer's firewall rules.
#[derive(Clone, Copy, Debug, PartialEq, Eq, Structural)]
pub enum FirewallRulesAction {
    Add,
    Remove,
}

/// OpenXR-mode dropped-layer histogram over one reporting window: how many
/// frames reported, and the running sum of each layer type over them.
#[derive(Clone, Copy, Debug, Default, PartialEq, Eq)]
pub struct OxrLayerTypesSummary {
    pub frames: u32,
    pub quad_total: u64,
    pub cylinder_total: u64,
    pub equirect_total: u64,
    pub cube_total: u64,
    pub passthrough_total: u64,
}

} // verus!
