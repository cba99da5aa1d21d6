use alvr_core::hwmon::{
    bytes_to_mb, find_vrserver, is_virtual, is_vrserver_name, named_values, net_samples,
    HwmonitorConfig, NetCounter, LHM_DEFAULT_URL,
};
use alvr_core::metrics::{BatteryReport, WindowCounters};
use alvr_core::nvsmi::{parse_line, parse_string, parse_throttle_mask, parse_u32};
use alvr_core::procfs::{
    cpu_stat_from, meminfo_from, parse_freq_hz, parse_gpubusy, parse_kib, CpuDeltas, CpuSampler,
    CpuStat, CpuStatReading, GpuSampler,
};
use alvr_core::readout::{
    format_bits_per_sec, format_bytes_per_sec, opt_int, opt_mhz, status_hints, CpuSources,
    RateText, HINT_NO_CPU, HINT_NO_GPU, HINT_NO_LHM, MISSING,
};

fn chars(s: &str) -> Vec<char> {
    s.chars().collect()
}

fn counter(name: &str, sent: u64) -> NetCounter {
    NetCounter {
        name: name.to_string(),
        bytes_sent_persec: sent,
        bytes_received_persec: sent + 1,
        packets_sent_persec: 3,
        packets_received_persec: 4,
        packets_outbound_errors: 5,
        packets_outbound_discarded: 6,
        current_bandwidth: 1_000_000_000,
    }
}

fn exact(r: RateText) -> String {
    match r {
        RateText::Exact(s) => s,
        RateText::Scaled(_) => panic!("expected exact text"),
    }
}

fn scaled(r: RateText) -> (u64, u32, String) {
    match r {
        RateText::Scaled(s) => (s.divisor, s.decimals, s.unit),
        RateText::Exact(_) => panic!("expected a scaled rate"),
    }
}

#[test]
fn virtual_adapters_are_recognised_in_any_case() {
    assert!(is_virtual("Loopback Pseudo-Interface 1"));
    assert!(is_virtual("isatap.{1234}"));
    assert!(is_virtual("Teredo Tunneling Pseudo-Interface"));
    assert!(is_virtual("Microsoft ISATAP Adapter"));
    assert!(!is_virtual("Intel(R) Wi-Fi 6 AX201 160MHz"));
    assert!(!is_virtual(""));
}

#[test]
fn net_samples_drop_virtual_rows_and_keep_order() {
    let rows = vec![
        counter("Ethernet", 10),
        counter("Loopback Pseudo-Interface 1", 20),
        counter("Wi-Fi", 30),
        counter("Teredo Tunneling", 40),
    ];
    let samples = net_samples(&rows);
    assert_eq!(samples.len(), 2);
    assert_eq!(samples[0].adapter, "Ethernet");
    assert_eq!(samples[0].bytes_sent_per_sec, 10);
    assert_eq!(samples[0].bytes_recv_per_sec, 11);
    assert_eq!(samples[0].packets_sent_per_sec, 3);
    assert_eq!(samples[0].packets_recv_per_sec, 4);
    assert_eq!(samples[0].outbound_errors, 5);
    assert_eq!(samples[0].outbound_discarded, 6);
    assert_eq!(samples[0].current_bandwidth_bps, 1_000_000_000);
    assert_eq!(samples[1].adapter, "Wi-Fi");
    assert_eq!(samples[1].bytes_sent_per_sec, 30);
    assert!(net_samples(&Vec::new()).is_empty());
}

#[test]
fn named_values_pair_names_with_readings() {
    let v = named_values(vec![("CPU Fan".to_string(), 1200), ("Pump Fan".to_string(), 2400)]);
    assert_eq!(v.len(), 2);
    assert_eq!(v[0].name, "CPU Fan");
    assert_eq!(v[0].value, 1200);
    assert_eq!(v[1].name, "Pump Fan");
    assert_eq!(v[1].value, 2400);
    assert!(named_values(Vec::new()).is_empty());
}

#[test]
fn vrserver_is_found_by_name_ignoring_case() {
    assert!(is_vrserver_name("vrserver.exe"));
    assert!(is_vrserver_name("VRServer.EXE"));
    assert!(is_vrserver_name("vrserver"));
    assert!(!is_vrserver_name("vrserver.exe.bak"));
    assert!(!is_vrserver_name("vrmonitor"));
    let names = vec!["explorer.exe".to_string(), "VRSERVER.exe".to_string(), "vrserver".to_string()];
    assert_eq!(find_vrserver(&names), Some(1));
    assert_eq!(find_vrserver(&vec!["steam.exe".to_string()]), None);
}

#[test]
fn bytes_are_counted_in_whole_mebibytes() {
    assert_eq!(bytes_to_mb(0), 0);
    assert_eq!(bytes_to_mb(1_048_575), 0);
    assert_eq!(bytes_to_mb(1_048_576), 1);
    assert_eq!(bytes_to_mb(17_179_869_184), 16384);
}

#[test]
fn hwmonitor_default_enables_every_source() {
    let c = HwmonitorConfig::default();
    assert!(c.enable_nvidia_smi);
    assert!(c.enable_lhm);
    assert!(c.enable_network);
    assert_eq!(c.lhm_url, LHM_DEFAULT_URL);
    assert_eq!(c.interval_ms, 1000);
}

#[test]
fn optional_readings_use_the_missing_mark() {
    assert_eq!(opt_mhz(Some(1920)), "1920 MHz");
    assert_eq!(opt_mhz(Some(0)), "0 MHz");
    assert_eq!(opt_mhz(None), "—");
    assert_eq!(opt_int(Some(8192)), "8192");
    assert_eq!(opt_int(None), MISSING);
}

#[test]
fn byte_rates_pick_their_unit() {
    assert_eq!(exact(format_bytes_per_sec(0)), "0 B/s");
    assert_eq!(exact(format_bytes_per_sec(999)), "999 B/s");
    assert_eq!(scaled(format_bytes_per_sec(1_000)), (1_000, 1, "KB/s".to_string()));
    assert_eq!(scaled(format_bytes_per_sec(999_999)), (1_000, 1, "KB/s".to_string()));
    assert_eq!(scaled(format_bytes_per_sec(1_000_000)), (1_000_000, 2, "MB/s".to_string()));
}

#[test]
fn bit_rates_pick_their_unit() {
    assert_eq!(exact(format_bits_per_sec(0)), "—");
    assert_eq!(exact(format_bits_per_sec(1)), "1 b/s");
    assert_eq!(exact(format_bits_per_sec(999)), "999 b/s");
    assert_eq!(scaled(format_bits_per_sec(1_000)), (1_000, 1, "Kb/s".to_string()));
    assert_eq!(scaled(format_bits_per_sec(1_000_000)), (1_000_000, 1, "Mb/s".to_string()));
    assert_eq!(
        scaled(format_bits_per_sec(1_000_000_000)),
        (1_000_000_000, 2, "Gb/s".to_string())
    );
}

#[test]
fn window_counters_report_and_reset() {
    let mut c = WindowCounters::new();
    c.record_frame(10, 1000);
    c.record_frame(25, 4000);
    c.record_battery(80, true);
    c.record_failed_post();
    let r = c.flush();
    assert_eq!(r.frames, 2);
    assert_eq!(r.failed_posts, 1);
    assert_eq!(r.dropped_samples, 0);
    assert_eq!(r.packets_in_window, 25);
    assert_eq!(r.bytes_in_window, 4000);
    assert_eq!(r.video_packets_total, 25);
    assert_eq!(r.video_bytes_total, 4000);
    assert_eq!(r.battery, Some(BatteryReport { pct: 80, plugged: true }));

    // The next window starts empty but keeps the totals and the battery.
    let empty = c.flush();
    assert_eq!(empty.frames, 0);
    assert_eq!(empty.failed_posts, 0);
    assert_eq!(empty.packets_in_window, 0);
    assert_eq!(empty.bytes_in_window, 0);
    assert_eq!(empty.video_packets_total, 25);
    assert_eq!(empty.battery, Some(BatteryReport { pct: 80, plugged: true }));

    // Windows add up to the movement of the cumulative counters.
    c.record_frame(40, 9000);
    let next = c.flush();
    assert_eq!(next.frames, 1);
    assert_eq!(next.packets_in_window + r.packets_in_window, 40);
    assert_eq!(next.bytes_in_window + r.bytes_in_window, 9000);
}

#[test]
fn window_counters_saturate() {
    let mut c = WindowCounters::new();
    assert_eq!(c.flush().battery, None);
    c.failed_posts = u64::MAX;
    c.record_failed_post();
    assert_eq!(c.failed_posts, u64::MAX);
    // A counter that went backwards reports no movement.
    c.window_start_packets = 100;
    c.record_frame(50, 0);
    assert_eq!(c.flush().packets_in_window, 0);
}

#[test]
fn nvidia_smi_line_is_decoded() {
    let line = "NVIDIA GeForce RTX 3080, 35, 12, 0, 2048, 10240, 61, 120.50, 320.00, 1905, 9501, 1695, 0x0000000000000004, P2, 45";
    let r = parse_line(line).unwrap();
    assert_eq!(r.name.as_deref(), Some("NVIDIA GeForce RTX 3080"));
    assert_eq!(r.util_pct.as_deref(), Some("35"));
    assert_eq!(r.mem_used_mb, Some(2048));
    assert_eq!(r.mem_total_mb, Some(10240));
    assert_eq!(r.power_w.as_deref(), Some("120.50"));
    assert_eq!(r.clock_graphics_mhz, Some(1905));
    assert_eq!(r.clock_memory_mhz, Some(9501));
    assert_eq!(r.clock_video_mhz, Some(1695));
    assert_eq!(r.throttle_reasons.as_deref(), Some("SwPowerCap"));
    assert_eq!(r.pstate.as_deref(), Some("P2"));
    assert_eq!(r.fan_pct.as_deref(), Some("45"));
}

#[test]
fn nvidia_smi_unavailable_columns_are_none() {
    let line = "[N/A], [Not Supported], , 0, [N/A], 10240, 61, 1, 2, 3, 4, 5, [N/A], P8, [not supported]";
    let r = parse_line(line).unwrap();
    assert_eq!(r.name, None);
    assert_eq!(r.util_pct, None);
    assert_eq!(r.encoder_util_pct, None);
    assert_eq!(r.decoder_util_pct.as_deref(), Some("0"));
    assert_eq!(r.mem_used_mb, None);
    assert_eq!(r.throttle_reasons, None);
    assert_eq!(r.fan_pct, None);
    assert!(parse_line("a, b, c").is_none());
}

#[test]
fn throttle_mask_names_reasons() {
    assert_eq!(parse_throttle_mask(&chars("0x0000000000000000")).as_deref(), Some("None"));
    assert_eq!(parse_throttle_mask(&chars("0x0000000000000001")).as_deref(), Some("GpuIdle"));
    assert_eq!(
        parse_throttle_mask(&chars("0x0000000000000044")).as_deref(),
        Some("SwPowerCap,HwThermalSlowdown")
    );
    assert_eq!(parse_throttle_mask(&chars("0x1000")).as_deref(), Some("0x1000"));
    assert_eq!(parse_throttle_mask(&chars("0x1ff")).as_deref(), Some("GpuIdle,ApplicationsClocksSetting,SwPowerCap,HwSlowdown,SyncBoost,SwThermalSlowdown,HwThermalSlowdown,HwPowerBrakeSlowdown,DisplayClockSetting"));
    assert_eq!(parse_throttle_mask(&chars("[N/A]")), None);
    assert_eq!(parse_throttle_mask(&chars("0xzz")), None);
}

#[test]
fn meminfo_is_read_from_proc_text() {
    let meminfo = "MemTotal:        7852396 kB\nMemFree:          123456 kB\nMemAvailable:    3210000 kB\n";
    let status = "Name:\tapp\nVmPeak:\t  999 kB\nVmRSS:\t  204800 kB\nVmRSS:\t 1 kB\n";
    let info = meminfo_from(Some(meminfo), Some(status));
    assert_eq!(info.total_kib, Some(7852396));
    assert_eq!(info.available_kib, Some(3210000));
    assert_eq!(info.process_rss_kib, Some(204800));
    let none = meminfo_from(None, None);
    assert_eq!(none.total_kib, None);
    assert_eq!(none.available_kib, None);
    assert_eq!(none.process_rss_kib, None);
    assert_eq!(parse_kib(&chars("   42 kB")), Some(42));
    assert_eq!(parse_kib(&chars("   ")), None);
    assert_eq!(parse_kib(&chars(" x kB")), None);
}

#[test]
fn cpu_stat_is_read_from_proc_text() {
    let stat = "cpu  100 20 30 400 50 6 7 8 9 10\ncpu0 1 2 3 4\n";
    let self_stat = "1234 (my app (x)) S 1 2 3 4 5 6 7 8 9 10 11 12 13 14";
    let r = cpu_stat_from(Some(stat), Some(self_stat));
    // total = 100+20+30+400+50+6+7+8; idle = 400+50
    assert_eq!(r, CpuStatReading::Stat(CpuStat { total: 621, busy: 171, process: 11 + 12 }));
    assert_eq!(cpu_stat_from(None, Some(self_stat)), CpuStatReading::Unavailable);
    assert_eq!(cpu_stat_from(Some("cpu 1 2 3\n"), Some(self_stat)), CpuStatReading::Unavailable);
    assert_eq!(cpu_stat_from(Some(stat), Some("no parenthesis")), CpuStatReading::Unavailable);
}

#[test]
fn cpu_sampler_primes_then_reports_deltas() {
    let mut s = CpuSampler::new();
    assert_eq!(s.advance(Some(CpuStat { total: 100, busy: 40, process: 10 })), None);
    assert_eq!(
        s.advance(Some(CpuStat { total: 300, busy: 90, process: 30 })),
        Some(CpuDeltas { busy: 50, process: 20, total: 200 })
    );
    // No elapsed time: nothing to report, but the reading is kept.
    assert_eq!(s.advance(Some(CpuStat { total: 300, busy: 95, process: 30 })), None);
    // A failed read keeps the previous reading.
    assert_eq!(s.advance(None), None);
    assert_eq!(
        s.advance(Some(CpuStat { total: 400, busy: 100, process: 31 })),
        Some(CpuDeltas { busy: 5, process: 1, total: 100 })
    );
}

#[test]
fn gpu_sampler_primes_then_reports_deltas() {
    let mut g = GpuSampler::new();
    assert_eq!(g.advance(Some((10, 100))), None);
    assert_eq!(g.advance(Some((30, 300))), Some((20, 200)));
    assert_eq!(g.advance(Some((30, 300))), None);
    assert_eq!(g.advance(None), None);
    assert_eq!(parse_gpubusy("  123 4567\n"), Some((123, 4567)));
    assert_eq!(parse_gpubusy("123"), None);
    assert_eq!(parse_freq_hz(" 585000000\n"), Some(585000000));
    assert_eq!(parse_freq_hz("fast"), None);
}

#[test]
fn nvidia_smi_columns() {
    assert_eq!(parse_string(&chars("P2")).as_deref(), Some("P2"));
    assert_eq!(parse_string(&chars("[n/a]")), None);
    assert_eq!(parse_string(&chars("")), None);
    assert_eq!(parse_u32(&chars("10240")), Some(10240));
    assert_eq!(parse_u32(&chars("4294967296")), None);
    assert_eq!(parse_u32(&chars("12.5")), None);
    assert_eq!(parse_u32(&chars("[Not Supported]")), None);
}

#[test]
fn panel_hints_name_missing_sources() {
    let bare = CpuSources { has_package_temp: false, has_package_power: false, has_fans: false };
    let lhm = CpuSources { has_package_temp: false, has_package_power: false, has_fans: true };
    assert_eq!(status_hints(None, false), vec![HINT_NO_CPU, HINT_NO_GPU]);
    assert_eq!(status_hints(Some(bare), true), vec![HINT_NO_LHM]);
    assert_eq!(status_hints(Some(lhm), true), Vec::<&str>::new());
    assert_eq!(status_hints(Some(bare), false), vec![HINT_NO_LHM, HINT_NO_GPU]);
    assert!(HINT_NO_LHM.ends_with("blank. Start LHM as Administrator to populate them."));
}
