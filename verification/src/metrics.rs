//! Windowed bookkeeping of the metrics exporter: how many frames arrived in
//! the current window, how far the cumulative video counters moved since the
//! window opened, how many posts failed, and the last battery report, which
//! outlives the window.

use std::time::Duration;
use vstd::prelude::*;

verus! {

/// Where and how often the streaming metrics are posted.
pub struct ExporterConfig {
    pub url: String,
    pub interval: Duration,
    pub timeout: Duration,
    pub headers: Vec<(String, String)>,
    pub host: String,
}

/// Where and how often the hardware telemetry is posted.
pub struct HwExporterConfig {
    pub url: String,
    pub interval: Duration,
    pub timeout: Duration,
    pub headers: Vec<(String, String)>,
    pub host: String,
}

/// Integer state of one exporter window.
#[derive(Clone, Copy, Debug, PartialEq, Eq, Structural)]
pub struct WindowCounters {
    pub frames: u32,
    pub dropped_samples: u64,
    pub failed_posts: u64,
    pub last_battery_pct: Option<u32>,
    pub last_battery_plugged: bool,
    pub video_packets_total: u64,
    pub video_bytes_total: u64,
    pub window_start_packets: u64,
    pub window_start_bytes: u64,
}

/// A headset battery report.
#[derive(Clone, Copy, Debug, PartialEq, Eq, Structural)]
pub struct BatteryReport {
    pub pct: u32,
    pub plugged: bool,
}

/// What a flush reports of the window that it closes.
#[derive(Clone, Copy, Debug, PartialEq, Eq, Structural)]
pub struct WindowReport {
    pub frames: u32,
    pub dropped_samples: u64,
    pub failed_posts: u64,
    pub packets_in_window: u64,
    pub bytes_in_window: u64,
    pub video_packets_total: u64,
    pub video_bytes_total: u64,
    /// The last headset battery report.
    pub battery: Option<BatteryReport>,
}

/// `a - b`, or 0 when `b > a` (`u64::saturating_sub`).
pub open spec fn sat_diff(a: u64, b: u64) -> u64 {
    if a >= b {
        (a - b) as u64
    } else {
        0
    }
}

/// The counters of a fresh exporter.
pub open spec fn initial_counters() -> WindowCounters {
    WindowCounters {
        frames: 0,
        dropped_samples: 0,
        failed_posts: 0,
        last_battery_pct: None,
        last_battery_plugged: false,
        video_packets_total: 0,
        video_bytes_total: 0,
        window_start_packets: 0,
        window_start_bytes: 0,
    }
}

/// The counters after a frame sample carrying the given cumulative totals.
pub open spec fn with_frame(c: WindowCounters, packets_total: u64, bytes_total: u64) -> WindowCounters {
    WindowCounters {
        frames: (c.frames + 1) as u32,
        video_packets_total: packets_total,
        video_bytes_total: bytes_total,
        ..c
    }
}

/// The counters after a battery sample.
pub open spec fn with_battery(c: WindowCounters, pct: u32, plugged: bool) -> WindowCounters {
    WindowCounters { last_battery_pct: Some(pct), last_battery_plugged: plugged, ..c }
}

/// The counters after one more failed post.
pub open spec fn with_failed_post(c: WindowCounters) -> WindowCounters {
    WindowCounters {
        failed_posts: if c.failed_posts == u64::MAX {
            u64::MAX
        } else {
            (c.failed_posts + 1) as u64
        },
        ..c
    }
}

/// The report of the window that `c` describes.
pub open spec fn report_of(c: WindowCounters) -> WindowReport {
    WindowReport {
        frames: c.frames,
        dropped_samples: c.dropped_samples,
        failed_posts: c.failed_posts,
        packets_in_window: sat_diff(c.video_packets_total, c.window_start_packets),
        bytes_in_window: sat_diff(c.video_bytes_total, c.window_start_bytes),
        video_packets_total: c.video_packets_total,
        video_bytes_total: c.video_bytes_total,
        battery: match c.last_battery_pct {
            Some(p) => Some(BatteryReport { pct: p, plugged: c.last_battery_plugged }),
            None => None,
        },
    }
}

/// The counters once a flush has closed the window: the per-window counts
/// start again from zero and the new window opens at the current totals;
/// the totals and the battery report are kept.
pub open spec fn after_flush(c: WindowCounters) -> WindowCounters {
    WindowCounters {
        frames: 0,
        dropped_samples: 0,
        failed_posts: 0,
        window_start_packets: c.video_packets_total,
        window_start_bytes: c.video_bytes_total,
        ..c
    }
}

impl WindowCounters {
    pub fn new() -> (r: Self)
        ensures
            r == initial_counters(),
    {
        WindowCounters {
            frames: 0,
            dropped_samples: 0,
            failed_posts: 0,
            last_battery_pct: None,
            last_battery_plugged: false,
            video_packets_total: 0,
            video_bytes_total: 0,
            window_start_packets: 0,
            window_start_bytes: 0,
        }
    }

    /// Counts one frame and takes the cumulative video totals it carries.
    pub fn record_frame(&mut self, packets_total: u64, bytes_total: u64)
        requires
            old(self).frames < u32::MAX,
        ensures
            *final(self) == with_frame(*old(self), packets_total, bytes_total),
    {
        self.frames = self.frames + 1;
        self.video_packets_total = packets_total;
        self.video_bytes_total = bytes_total;
    }

    /// Remembers the latest headset battery report.
    pub fn record_battery(&mut self, pct: u32, plugged: bool)
        ensures
            *final(self) == with_battery(*old(self), pct, plugged),
    {
        self.last_battery_pct = Some(pct);
        self.last_battery_plugged = plugged;
    }

    /// Counts a post that failed, saturating at `u64::MAX`.
    pub fn record_failed_post(&mut self)
        ensures
            *final(self) == with_failed_post(*old(self)),
    {
        self.failed_posts = self.failed_posts.saturating_add(1);
    }

    /// Closes the window: returns its report and opens the next one.
    pub fn flush(&mut self) -> (r: WindowReport)
        ensures
            r == report_of(*old(self)),
            *final(self) == after_flush(*old(self)),
    {
        let battery = match self.last_battery_pct {
            Some(p) => Some(BatteryReport { pct: p, plugged: self.last_battery_plugged }),
            None => None,
        };
        let r = WindowReport {
            frames: self.frames,
            dropped_samples: self.dropped_samples,
            failed_posts: self.failed_posts,
            packets_in_window: self.video_packets_total.saturating_sub(self.window_start_packets),
            bytes_in_window: self.video_bytes_total.saturating_sub(self.window_start_bytes),
            video_packets_total: self.video_packets_total,
            video_bytes_total: self.video_bytes_total,
            battery,
        };
        self.frames = 0;
        self.dropped_samples = 0;
        self.failed_posts = 0;
        self.window_start_packets = self.video_packets_total;
        self.window_start_bytes = self.video_bytes_total;
        r
    }
}

/// A window that a flush has just opened reports nothing of its own: no
/// frames, no failed posts, no video moved; the totals and the battery report
/// are those of the window before.
pub proof fn law_flush_opens_empty_window(c: WindowCounters)
    ensures
        report_of(after_flush(c)).frames == 0,
        report_of(after_flush(c)).dropped_samples == 0,
        report_of(after_flush(c)).failed_posts == 0,
        report_of(after_flush(c)).packets_in_window == 0,
        report_of(after_flush(c)).bytes_in_window == 0,
        report_of(after_flush(c)).video_packets_total == c.video_packets_total,
        report_of(after_flush(c)).video_bytes_total == c.video_bytes_total,
        report_of(after_flush(c)).battery == report_of(c).battery,
{
}

/// The battery report is last-value state: a flush keeps it, and it changes
/// only when a battery sample arrives.
pub proof fn law_battery_outlives_window(c: WindowCounters, packets: u64, bytes: u64)
    requires
        c.frames < u32::MAX,
    ensures
        report_of(after_flush(c)).battery == report_of(c).battery,
        report_of(with_frame(c, packets, bytes)).battery == report_of(c).battery,
        report_of(with_failed_post(c)).battery == report_of(c).battery,
{
}

/// Per-window video counts add up: when the cumulative counters only grow,
/// what two consecutive windows report is what the counters moved across
/// both of them.
pub proof fn law_windows_add_up(
    c: WindowCounters,
    p1: u64,
    b1: u64,
    p2: u64,
    b2: u64,
)
    requires
        c.frames < u32::MAX,
        c.window_start_packets <= p1 <= p2,
        c.window_start_bytes <= b1 <= b2,
    ensures
        ({
            let first = with_frame(c, p1, b1);
            let second = with_frame(after_flush(first), p2, b2);
            &&& report_of(first).packets_in_window + report_of(second).packets_in_window == p2
                - c.window_start_packets
            &&& report_of(first).bytes_in_window + report_of(second).bytes_in_window == b2
                - c.window_start_bytes
            &&& report_of(second).frames == 1
        }),
{
}

} // verus!
