//! One line of `nvidia-smi --query-gpu ... --format=csv,noheader,nounits`.
//!
//! The fifteen comma-separated columns are, in order: name, utilization.gpu,
//! utilization.encoder, utilization.decoder, memory.used, memory.total,
//! temperature.gpu, power.draw, power.limit, clocks.gr, clocks.mem, clocks.video,
//! clocks_throttle_reasons.active, pstate, fan.speed. Columns that hold
//! fractional numbers are handed back as their text; the integer columns and the
//! throttle mask are decoded here.

use vstd::prelude::*;
use crate::text::{
    chars_of, opt_view, eq_ignore_ascii_case, eq_ignore_ascii_case_spec, seq_views, split_chars, split_spec,
    starts_with, starts_with_spec, string_of, suffix_from, trim, trim_spec, join_spec,
};
use crate::num::{digits_of, format_unsigned, parse_hex_u64, parse_unsigned_spec};

verus! {

/// A column value, or `None` when it is empty or one of nvidia-smi's
/// markers `[N/A]` / `[Not Supported]` (compared without ASCII case).
pub open spec fn column_text(s: Seq<char>) -> Option<Seq<char>> {
    if s.len() == 0 || eq_ignore_ascii_case_spec(s, "[N/A]"@) || eq_ignore_ascii_case_spec(
        s,
        "[Not Supported]"@,
    ) {
        None
    } else {
        Some(s)
    }
}

/// An integer column: its text read as a `u32`.
pub open spec fn column_u32(s: Seq<char>) -> Option<nat> {
    match column_text(s) {
        Some(t) => parse_unsigned_spec(t, 10, u32::MAX as nat),
        None => None,
    }
}

/// `str::trim_start_matches(p)` for a non-empty pattern: every leading copy of `p` removed.
pub open spec fn strip_all_prefix(s: Seq<char>, p: Seq<char>) -> Seq<char>
    decreases s.len(),
{
    if p.len() > 0 && starts_with_spec(s, p) {
        strip_all_prefix(s.skip(p.len() as int), p)
    } else {
        s
    }
}

/// The throttle-reason bits nvidia-smi reports, in the order they are listed.
pub open spec fn reason_name(i: int) -> Seq<char> {
    if i == 0 {
        "GpuIdle"@
    } else if i == 1 {
        "ApplicationsClocksSetting"@
    } else if i == 2 {
        "SwPowerCap"@
    } else if i == 3 {
        "HwSlowdown"@
    } else if i == 4 {
        "SyncBoost"@
    } else if i == 5 {
        "SwThermalSlowdown"@
    } else if i == 6 {
        "HwThermalSlowdown"@
    } else if i == 7 {
        "HwPowerBrakeSlowdown"@
    } else {
        "DisplayClockSetting"@
    }
}

pub open spec fn reason_bit(i: int) -> u64 {
    if i == 0 {
        0x0001
    } else if i == 1 {
        0x0002
    } else if i == 2 {
        0x0004
    } else if i == 3 {
        0x0008
    } else if i == 4 {
        0x0010
    } else if i == 5 {
        0x0020
    } else if i == 6 {
        0x0040
    } else if i == 7 {
        0x0080
    } else {
        0x0100
    }
}

/// Names of the reasons among the first `k` whose bit is set in `v`, in list order.
pub open spec fn reasons_set(v: u64, k: nat) -> Seq<Seq<char>>
    decreases k,
{
    if k == 0 {
        Seq::<Seq<char>>::empty()
    } else {
        let r = reasons_set(v, (k - 1) as nat);
        if v & reason_bit(k - 1) != 0 {
            r.push(reason_name(k - 1))
        } else {
            r
        }
    }
}

/// The decoded `clocks_throttle_reasons.active` column: `None` for the unavailable markers
/// and text that is not a hexadecimal number (a leading run of `0x` allowed),
/// `"None"` for a zero mask, the names of the set reasons joined by `,`, or
/// `0x` and the mask in upper-case hexadecimal when no listed reason is set.
pub open spec fn throttle_spec(s: Seq<char>) -> Option<Seq<char>> {
    match column_text(s) {
        None => None,
        Some(raw) => match parse_unsigned_spec(strip_all_prefix(raw, "0x"@), 16, u64::MAX as nat) {
            None => None,
            Some(v) => {
                let value = v as u64;
                if value == 0 {
                    Some("None"@)
                } else if reasons_set(value, 9).len() == 0 {
                    Some("0x"@ + digits_of(value as nat, 16))
                } else {
                    Some(join_spec(reasons_set(value, 9), ","@))
                }
            },
        },
    }
}

/// One parsed nvidia-smi line. Columns that nvidia-smi prints as fractional
/// numbers (utilizations, temperature, power, fan duty) keep their text.
pub struct NvSmiRecord {
    pub name: Option<String>,
    pub util_pct: Option<String>,
    pub encoder_util_pct: Option<String>,
    pub decoder_util_pct: Option<String>,
    pub mem_used_mb: Option<u32>,
    pub mem_total_mb: Option<u32>,
    pub temp_c: Option<String>,
    pub power_w: Option<String>,
    pub power_limit_w: Option<String>,
    pub clock_graphics_mhz: Option<u32>,
    pub clock_memory_mhz: Option<u32>,
    pub clock_video_mhz: Option<u32>,
    pub throttle_reasons: Option<String>,
    pub pstate: Option<String>,
    pub fan_pct: Option<String>,
}

pub open spec fn opt_u32_view(o: Option<u32>) -> Option<nat> {
    match o {
        Some(v) => Some(v as nat),
        None => None,
    }
}

/// The trimmed comma-separated columns of a line.
pub open spec fn columns_spec(line: Seq<char>) -> Seq<Seq<char>> {
    split_spec(line, ',').map_values(|c: Seq<char>| trim_spec(c))
}

/// `r` is what the columns `f` decode to.
pub open spec fn record_matches(r: NvSmiRecord, f: Seq<Seq<char>>) -> bool {
    &&& opt_view(r.name) == column_text(f[0])
    &&& opt_view(r.util_pct) == column_text(f[1])
    &&& opt_view(r.encoder_util_pct) == column_text(f[2])
    &&& opt_view(r.decoder_util_pct) == column_text(f[3])
    &&& opt_u32_view(r.mem_used_mb) == column_u32(f[4])
    &&& opt_u32_view(r.mem_total_mb) == column_u32(f[5])
    &&& opt_view(r.temp_c) == column_text(f[6])
    &&& opt_view(r.power_w) == column_text(f[7])
    &&& opt_view(r.power_limit_w) == column_text(f[8])
    &&& opt_u32_view(r.clock_graphics_mhz) == column_u32(f[9])
    &&& opt_u32_view(r.clock_memory_mhz) == column_u32(f[10])
    &&& opt_u32_view(r.clock_video_mhz) == column_u32(f[11])
    &&& opt_view(r.throttle_reasons) == throttle_spec(f[12])
    &&& opt_view(r.pstate) == column_text(f[13])
    &&& opt_view(r.fan_pct) == column_text(f[14])
}

/// Reads a text column: `None` for an empty column or an unavailable marker.
pub fn parse_string(s: &[char]) -> (r: Option<String>)
    ensures
        opt_view(r) == column_text(s@),
{
    let na = chars_of("[N/A]");
    let ns = chars_of("[Not Supported]");
    if s.len() == 0 || eq_ignore_ascii_case(s, na.as_slice()) || eq_ignore_ascii_case(
        s,
        ns.as_slice(),
    ) {
        None
    } else {
        Some(string_of(s))
    }
}

/// Reads an integer column: `None` for an unavailable marker or text that is not a
/// `u32`.
pub fn parse_u32(s: &[char]) -> (r: Option<u32>)
    ensures
        opt_u32_view(r) == column_u32(s@),
{
    let na = chars_of("[N/A]");
    let ns = chars_of("[Not Supported]");
    if s.len() == 0 || eq_ignore_ascii_case(s, na.as_slice()) || eq_ignore_ascii_case(
        s,
        ns.as_slice(),
    ) {
        None
    } else {
        crate::num::parse_u32(s)
    }
}

fn strip_all_prefix_of(s: &[char], p: &[char]) -> (res: Vec<char>)
    requires
        p@.len() > 0,
    ensures
        res@ == strip_all_prefix(s@, p@),
{
    let mut cur: Vec<char> = suffix_from(s, 0);
    proof {
        assert(s@.skip(0) == s@);
    }
    while starts_with(cur.as_slice(), p)
        invariant
            p@.len() > 0,
            strip_all_prefix(cur@, p@) == strip_all_prefix(s@, p@),
        decreases cur@.len(),
    {
        cur = suffix_from(cur.as_slice(), p.len());
    }
    cur
}

fn reason(i: usize) -> (r: (u64, &'static str))
    requires
        i < 9,
    ensures
        r.0 == reason_bit(i as int),
        r.1@ == reason_name(i as int),
{
    if i == 0 {
        (0x0001, "GpuIdle")
    } else if i == 1 {
        (0x0002, "ApplicationsClocksSetting")
    } else if i == 2 {
        (0x0004, "SwPowerCap")
    } else if i == 3 {
        (0x0008, "HwSlowdown")
    } else if i == 4 {
        (0x0010, "SyncBoost")
    } else if i == 5 {
        (0x0020, "SwThermalSlowdown")
    } else if i == 6 {
        (0x0040, "HwThermalSlowdown")
    } else if i == 7 {
        (0x0080, "HwPowerBrakeSlowdown")
    } else {
        (0x0100, "DisplayClockSetting")
    }
}

/// Decodes the throttle-reason mask column.
pub fn parse_throttle_mask(s: &[char]) -> (r: Option<String>)
    ensures
        opt_view(r) == throttle_spec(s@),
{
    let raw = match parse_string(s) {
        None => return None,
        Some(raw) => raw,
    };
    let raw_chars = chars_of(raw.as_str());
    let prefix = chars_of("0x");
    proof {
        reveal_strlit("0x");
    }
    let digits = strip_all_prefix_of(raw_chars.as_slice(), prefix.as_slice());
    let value = match parse_hex_u64(digits.as_slice()) {
        None => return None,
        Some(v) => v,
    };
    if value == 0 {
        return Some(String::from_str("None"));
    }
    let mut out = String::new();
    let mut count: usize = 0;
    let mut k: usize = 0;
    while k < 9
        invariant
            k <= 9,
            count == reasons_set(value, k as nat).len(),
            count <= k,
            out@ == join_spec(reasons_set(value, k as nat), ","@),
        decreases 9 - k,
    {
        let (bit, name) = reason(k);
        if value & bit != 0 {
            let ghost before = reasons_set(value, k as nat);
            if count > 0 {
                out.append(",");
            }
            out.append(name);
            count = count + 1;
            proof {
                let after = reasons_set(value, (k + 1) as nat);
                assert(after == before.push(reason_name(k as int)));
                assert(after.drop_last() == before);
                if before.len() == 0 {
                    assert(after.len() == 1);
                }
            }
        }
        k = k + 1;
    }
    if count == 0 {
        let hex = format_unsigned(value, 16);
        let mut res = String::from_str("0x");
        let hex_str = string_of(hex.as_slice());
        res.append(hex_str.as_str());
        Some(res)
    } else {
        Some(out)
    }
}

/// Splits a line at commas and trims each column.
pub fn columns(line: &str) -> (res: Vec<Vec<char>>)
    ensures
        seq_views(res@) == columns_spec(line@),
{
    let chars = chars_of(line);
    let parts = split_chars(chars.as_slice(), ',');
    let mut res: Vec<Vec<char>> = Vec::new();
    let n = parts.len();
    for i in 0..n
        invariant
            n == parts@.len(),
            seq_views(parts@) == split_spec(line@, ','),
            seq_views(res@) == columns_spec(line@).take(i as int),
    {
        let t = trim(parts[i].as_slice());
        proof {
            assert(seq_views(parts@)[i as int] == parts@[i as int]@);
        }
        let ghost old_res = seq_views(res@);
        res.push(t);
        proof {
            let cs = columns_spec(line@);
            assert(cs.len() == n);
            assert(cs[i as int] == t@);
            assert(seq_views(res@) =~= old_res.push(t@));
            assert(cs.take(i + 1) =~= cs.take(i as int).push(cs[i as int]));
        }
    }
    proof {
        assert(columns_spec(line@).take(n as int) =~= columns_spec(line@));
    }
    res
}

/// Decodes one output line; `None` when it has fewer than fifteen columns.
pub fn parse_line(line: &str) -> (r: Option<NvSmiRecord>)
    ensures
        r.is_some() == (columns_spec(line@).len() >= 15),
        r.is_some() ==> record_matches(r.unwrap(), columns_spec(line@)),
{
    let f = columns(line);
    if f.len() < 15 {
        return None;
    }
    proof {
        assert forall|i: int| 0 <= i < f@.len() implies #[trigger] seq_views(f@)[i] == f@[i]@ by {}
    }
    Some(
        NvSmiRecord {
            name: parse_string(f[0].as_slice()),
            util_pct: parse_string(f[1].as_slice()),
            encoder_util_pct: parse_string(f[2].as_slice()),
            decoder_util_pct: parse_string(f[3].as_slice()),
            mem_used_mb: parse_u32(f[4].as_slice()),
            mem_total_mb: parse_u32(f[5].as_slice()),
            temp_c: parse_string(f[6].as_slice()),
            power_w: parse_string(f[7].as_slice()),
            power_limit_w: parse_string(f[8].as_slice()),
            clock_graphics_mhz: parse_u32(f[9].as_slice()),
            clock_memory_mhz: parse_u32(f[10].as_slice()),
            clock_video_mhz: parse_u32(f[11].as_slice()),
            throttle_reasons: parse_throttle_mask(f[12].as_slice()),
            pstate: parse_string(f[13].as_slice()),
            fan_pct: parse_string(f[14].as_slice()),
        },
    )
}

/// The throttle reasons carry NVML's bit assignments: bit 0 GpuIdle, bit 1
/// ApplicationsClocksSetting, bit 2 SwPowerCap, bit 3 HwSlowdown, bit 4
/// SyncBoost, bit 5 SwThermalSlowdown, bit 6 HwThermalSlowdown, bit 7
/// HwPowerBrakeSlowdown, bit 8 DisplayClockSetting; each name goes with
/// exactly its own bit.
pub proof fn law_throttle_reason_bits(i: int, j: int)
    requires
        0 <= i < 9,
        0 <= j < 9,
    ensures
        reason_bit(0) == 0x1 && reason_name(0) == "GpuIdle"@,
        reason_bit(1) == 0x2 && reason_name(1) == "ApplicationsClocksSetting"@,
        reason_bit(2) == 0x4 && reason_name(2) == "SwPowerCap"@,
        reason_bit(3) == 0x8 && reason_name(3) == "HwSlowdown"@,
        reason_bit(4) == 0x10 && reason_name(4) == "SyncBoost"@,
        reason_bit(5) == 0x20 && reason_name(5) == "SwThermalSlowdown"@,
        reason_bit(6) == 0x40 && reason_name(6) == "HwThermalSlowdown"@,
        reason_bit(7) == 0x80 && reason_name(7) == "HwPowerBrakeSlowdown"@,
        reason_bit(8) == 0x100 && reason_name(8) == "DisplayClockSetting"@,
        (reason_bit(i) == reason_bit(j)) <==> i == j,
{
}

/// Each field of a decoded line comes from its documented column, counting
/// the comma-separated fields of the line from one and trimming each: name
/// (1), utilization.gpu (2), utilization.encoder (3), utilization.decoder
/// (4), memory.used (5), memory.total (6), temperature.gpu (7), power.draw
/// (8), power.limit (9), clocks.gr (10), clocks.mem (11), clocks.video (12),
/// clocks_throttle_reasons.active (13), pstate (14), fan.speed (15).
pub proof fn law_nvsmi_column_order(line: Seq<char>, r: NvSmiRecord)
    requires
        columns_spec(line).len() >= 15,
        record_matches(r, columns_spec(line)),
    ensures
        ({
            let f = split_spec(line, ',');
            &&& f.len() >= 15
            &&& opt_view(r.name) == column_text(trim_spec(f[0]))
            &&& opt_view(r.util_pct) == column_text(trim_spec(f[1]))
            &&& opt_view(r.encoder_util_pct) == column_text(trim_spec(f[2]))
            &&& opt_view(r.decoder_util_pct) == column_text(trim_spec(f[3]))
            &&& opt_u32_view(r.mem_used_mb) == column_u32(trim_spec(f[4]))
            &&& opt_u32_view(r.mem_total_mb) == column_u32(trim_spec(f[5]))
            &&& opt_view(r.temp_c) == column_text(trim_spec(f[6]))
            &&& opt_view(r.power_w) == column_text(trim_spec(f[7]))
            &&& opt_view(r.power_limit_w) == column_text(trim_spec(f[8]))
            &&& opt_u32_view(r.clock_graphics_mhz) == column_u32(trim_spec(f[9]))
            &&& opt_u32_view(r.clock_memory_mhz) == column_u32(trim_spec(f[10]))
            &&& opt_u32_view(r.clock_video_mhz) == column_u32(trim_spec(f[11]))
            &&& opt_view(r.throttle_reasons) == throttle_spec(trim_spec(f[12]))
            &&& opt_view(r.pstate) == column_text(trim_spec(f[13]))
            &&& opt_view(r.fan_pct) == column_text(trim_spec(f[14]))
        }),
{
    let f = split_spec(line, ',');
    let c = columns_spec(line);
    assert forall|i: int| 0 <= i < f.len() implies c[i] == trim_spec(f[i]) by {}
}

} // verus!
