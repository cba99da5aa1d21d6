//! Host telemetry records and the rules that pick them: which network
//! adapters are reported, which process is the streamer, named readings, and
//! the sampler's configuration.

use crate::text::{
    ascii_lower_seq, chars_of, contains, contains_spec, eq_ignore_ascii_case,
    eq_ignore_ascii_case_spec, lemma_ascii_lower_idempotent, to_ascii_lower,
};
use vstd::prelude::*;

verus! {

/// Address of the LibreHardwareMonitor web server's JSON tree.
pub const LHM_DEFAULT_URL: &'static str = "http://127.0.0.1:8085/data.json";

/// Per-adapter network rates, as reported.
#[derive(Clone, Debug)]
pub struct NetSample {
    pub adapter: String,
    pub bytes_sent_per_sec: u64,
    pub bytes_recv_per_sec: u64,
    pub packets_sent_per_sec: u64,
    pub packets_recv_per_sec: u64,
    pub outbound_errors: u64,
    pub outbound_discarded: u64,
    pub current_bandwidth_bps: u64,
}

/// One row of the adapter counter table as the system reports it.
#[derive(Clone, Debug)]
pub struct NetCounter {
    pub name: String,
    pub bytes_sent_persec: u64,
    pub bytes_received_persec: u64,
    pub packets_sent_persec: u64,
    pub packets_received_persec: u64,
    pub packets_outbound_errors: u64,
    pub packets_outbound_discarded: u64,
    pub current_bandwidth: u64,
}

/// A reading with a name, such as a fan speed.
#[derive(Clone, Debug)]
pub struct NamedValue<T> {
    pub name: String,
    pub value: T,
}

/// Adapters that are tunnels or the loopback, by name, in any ASCII case.
pub open spec fn is_virtual_spec(name: Seq<char>) -> bool {
    let n = ascii_lower_seq(name);
    contains_spec(n, "loopback"@) || contains_spec(n, "isatap"@) || contains_spec(n, "teredo"@)
}

pub fn is_virtual(name: &str) -> (r: bool)
    ensures
        r == is_virtual_spec(name@),
{
    let chars = chars_of(name);
    let n = to_ascii_lower(chars.as_slice());
    let a = chars_of("loopback");
    let b = chars_of("isatap");
    let c = chars_of("teredo");
    contains(n.as_slice(), a.as_slice()) || contains(n.as_slice(), b.as_slice()) || contains(
        n.as_slice(),
        c.as_slice(),
    )
}

/// The rows that are reported: those of adapters that are not virtual, in
/// their order.
pub open spec fn kept_rows(rows: Seq<NetCounter>) -> Seq<NetCounter>
    decreases rows.len(),
{
    if rows.len() == 0 {
        seq![]
    } else {
        let prev = kept_rows(rows.drop_last());
        if is_virtual_spec(rows.last().name@) {
            prev
        } else {
            prev.push(rows.last())
        }
    }
}

/// `s` reports row `r` field for field.
pub open spec fn sample_matches(s: NetSample, r: NetCounter) -> bool {
    &&& s.adapter@ == r.name@
    &&& s.bytes_sent_per_sec == r.bytes_sent_persec
    &&& s.bytes_recv_per_sec == r.bytes_received_persec
    &&& s.packets_sent_per_sec == r.packets_sent_persec
    &&& s.packets_recv_per_sec == r.packets_received_persec
    &&& s.outbound_errors == r.packets_outbound_errors
    &&& s.outbound_discarded == r.packets_outbound_discarded
    &&& s.current_bandwidth_bps == r.current_bandwidth
}

/// Turns the counter rows into samples, leaving out virtual adapters.
pub fn net_samples(rows: &Vec<NetCounter>) -> (res: Vec<NetSample>)
    ensures
        res.len() == kept_rows(rows@).len(),
        forall|i: int| 0 <= i < res.len() ==> sample_matches(#[trigger] res@[i], kept_rows(rows@)[i]),
{
    let mut res: Vec<NetSample> = Vec::new();
    let n = rows.len();
    for i in 0..n
        invariant
            n == rows@.len(),
            res.len() == kept_rows(rows@.take(i as int)).len(),
            forall|j: int|
                0 <= j < res.len() ==> sample_matches(
                    #[trigger] res@[j],
                    kept_rows(rows@.take(i as int))[j],
                ),
    {
        let r = &rows[i];
        assert(rows@.take(i + 1).drop_last() =~= rows@.take(i as int));
        assert(rows@.take(i + 1).last() == rows@[i as int]);
        if !is_virtual(r.name.as_str()) {
            res.push(
                NetSample {
                    adapter: r.name.clone(),
                    bytes_sent_per_sec: r.bytes_sent_persec,
                    bytes_recv_per_sec: r.bytes_received_persec,
                    packets_sent_per_sec: r.packets_sent_persec,
                    packets_recv_per_sec: r.packets_received_persec,
                    outbound_errors: r.packets_outbound_errors,
                    outbound_discarded: r.packets_outbound_discarded,
                    current_bandwidth_bps: r.current_bandwidth,
                },
            );
        }
    }
    assert(rows@.take(n as int) =~= rows@);
    res
}

/// Pairs each name with its reading, in order.
pub fn named_values(items: Vec<(String, u32)>) -> (res: Vec<NamedValue<u32>>)
    ensures
        res.len() == items.len(),
        forall|i: int|
            0 <= i < res.len() ==> (#[trigger] res@[i]).name@ == items@[i].0@ && res@[i].value
                == items@[i].1,
{
    let mut res: Vec<NamedValue<u32>> = Vec::new();
    let n = items.len();
    for i in 0..n
        invariant
            n == items@.len(),
            res.len() == i,
            forall|j: int|
                0 <= j < i ==> (#[trigger] res@[j]).name@ == items@[j].0@ && res@[j].value
                    == items@[j].1,
    {
        res.push(NamedValue { name: items[i].0.clone(), value: items[i].1 });
    }
    res
}

/// The process names under which the streamer's server runs, in any ASCII
/// case.
pub open spec fn is_vrserver_name_spec(name: Seq<char>) -> bool {
    eq_ignore_ascii_case_spec(name, "vrserver.exe"@) || eq_ignore_ascii_case_spec(name, "vrserver"@)
}

pub fn is_vrserver_name(name: &str) -> (r: bool)
    ensures
        r == is_vrserver_name_spec(name@),
{
    let n = chars_of(name);
    let a = chars_of("vrserver.exe");
    let b = chars_of("vrserver");
    eq_ignore_ascii_case(n.as_slice(), a.as_slice()) || eq_ignore_ascii_case(
        n.as_slice(),
        b.as_slice(),
    )
}

/// The first process, in the given order, that is the streamer's server.
pub fn find_vrserver(names: &Vec<String>) -> (r: Option<usize>)
    ensures
        match r {
            Some(i) => i < names.len() && is_vrserver_name_spec(names@[i as int]@) && forall|j: int|
                0 <= j < i ==> !is_vrserver_name_spec(#[trigger] names@[j]@),
            None => forall|j: int|
                0 <= j < names.len() ==> !is_vrserver_name_spec(#[trigger] names@[j]@),
        },
{
    let n = names.len();
    for i in 0..n
        invariant
            n == names@.len(),
            forall|j: int| 0 <= j < i ==> !is_vrserver_name_spec(#[trigger] names@[j]@),
    {
        if is_vrserver_name(names[i].as_str()) {
            return Some(i);
        }
    }
    None
}

/// Adapter and process names are matched without regard to ASCII case: a
/// name and its lower-cased form are classified alike.
pub proof fn law_names_ignore_ascii_case(name: Seq<char>)
    ensures
        is_virtual_spec(ascii_lower_seq(name)) == is_virtual_spec(name),
        is_vrserver_name_spec(ascii_lower_seq(name)) == is_vrserver_name_spec(name),
{
    lemma_ascii_lower_idempotent(name);
}

/// Whole mebibytes in a byte count.
pub fn bytes_to_mb(bytes: u64) -> (r: u64)
    ensures
        r == bytes / 1048576,
{
    bytes / 1048576
}

/// What the hardware sampler polls and how often.
#[derive(Clone, Debug)]
pub struct HwmonitorConfig {
    /// Polling period in milliseconds.
    pub interval_ms: u64,
    /// When false, `nvidia-smi` is never started.
    pub enable_nvidia_smi: bool,
    /// When false, LibreHardwareMonitor is never contacted.
    pub enable_lhm: bool,
    /// URL of the LibreHardwareMonitor web server.
    pub lhm_url: String,
    /// When false, adapter counters are not collected.
    pub enable_network: bool,
}

impl Default for HwmonitorConfig {
    /// Every source on, the local LibreHardwareMonitor address, one-second
    /// polling.
    fn default() -> (r: Self)
        ensures
            r.interval_ms == 1000,
            r.enable_nvidia_smi,
            r.enable_lhm,
            r.enable_network,
            r.lhm_url@ == LHM_DEFAULT_URL@,
    {
        HwmonitorConfig {
            interval_ms: 1000,
            enable_nvidia_smi: true,
            enable_lhm: true,
            lhm_url: String::from_str(LHM_DEFAULT_URL),
            enable_network: true,
        }
    }
}

} // verus!
