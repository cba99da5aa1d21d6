use alvr_core::android::{
    api_features, controller_battery, controller_hand, ipv4_octets, is_controller_source,
    is_plugged_status, wifi_lock_mode, ControllerBattery,
};
use alvr_core::buildplan::{
    bridge_build_args, cargo_profile_dir, cmake_build_type, config_dir_unregister,
    configure_args, extra_cmake_args, manifest_candidates, monado_source, openxr_unix_config_dir,
    active_runtime_value, freshest_candidate, register_action, registry_names_manifest, service_dir_candidates, skip_vcpkg,
    unregister_action, ConfigDirUnregister, HostOs, Profile, RuntimeAction, SourceDir,
};
use alvr_core::events::{event_message, event_type_string, EventKind, LogSeverity};
use alvr_core::launcher::{
    asset_url, client_channel, dashboard_relative_path, get_release, installations_dir,
    join_path, releases_from_bytes, releases_from_json, streamer_asset_name, ClientChannel, ReleaseChannelsInfo,
    ReleaseInfo, TargetOs, CLIENT_APK_ASSET,
};
use alvr_core::lhm::{
    classify_cpu_temperature, plan_readings, route_leaf, value_token_of, CpuTempClass,
    HardwareKind, LeafRoute, LhmEvent, LhmNode,
};
use alvr_core::packets::{
    capabilities_ext, negotiated_ext, parse_path, ExtError, PathSegment,
};
use alvr_core::readings::{resolve_readings, vram_totals, LifePick};
use alvr_core::session::Json;

fn strings(v: &[&str]) -> Vec<String> {
    v.iter().map(|s| s.to_string()).collect()
}

fn chars(s: &str) -> Vec<char> {
    s.chars().collect()
}

fn release(version: &str, assets: &[(&str, &str)]) -> ReleaseInfo {
    ReleaseInfo {
        version: version.to_string(),
        assets: assets.iter().map(|(n, u)| (n.to_string(), u.to_string())).collect(),
    }
}

fn node(text: &str, value: &str, id: &str, ty: &str, children: Vec<LhmNode>) -> LhmNode {
    LhmNode {
        text: text.to_string(),
        value: value.to_string(),
        hardware_id: id.to_string(),
        sensor_type: ty.to_string(),
        children,
    }
}

fn leaf(text: &str, value: &str, ty: &str) -> LhmNode {
    node(text, value, "", ty, Vec::new())
}

#[test]
fn monado_source_takes_first_non_empty() {
    match monado_source(Some("/src/monado"), Some("/env/monado")) {
        SourceDir::Custom(p) => assert_eq!(p, "/src/monado"),
        SourceDir::Workspace => panic!("expected the command-line path"),
    }
    match monado_source(Some(""), Some("/env/monado")) {
        SourceDir::Custom(p) => assert_eq!(p, "/env/monado"),
        SourceDir::Workspace => panic!("expected the environment path"),
    }
    assert!(matches!(monado_source(Some(""), Some("")), SourceDir::Workspace));
    assert!(matches!(monado_source(None, None), SourceDir::Workspace));
}

#[test]
fn configure_arguments_pair_driver_and_compositor() {
    let on = configure_args("/s", "/b", Profile::Release, &strings(&["-DX=1"]), true);
    assert_eq!(
        on,
        strings(&[
            "-S",
            "/s",
            "-B",
            "/b",
            "-DCMAKE_BUILD_TYPE=RelWithDebInfo",
            "-DX=1",
            "-DXRT_BUILD_DRIVER_ALVR=ON",
            "-DXRT_FEATURE_COMP_ALVR=ON",
        ])
    );
    let off = configure_args("/s", "/b", Profile::Debug, &Vec::new(), false);
    assert_eq!(
        off,
        strings(&[
            "-S",
            "/s",
            "-B",
            "/b",
            "-DCMAKE_BUILD_TYPE=Debug",
            "-DXRT_BUILD_DRIVER_ALVR=OFF",
            "-DXRT_FEATURE_COMP_ALVR=OFF",
        ])
    );
}

#[test]
fn profiles_map_to_build_types() {
    assert_eq!(cmake_build_type(Profile::Debug), "Debug");
    assert_eq!(cmake_build_type(Profile::Distribution), "RelWithDebInfo");
    assert_eq!(cargo_profile_dir(Profile::Debug), "debug");
    assert_eq!(cargo_profile_dir(Profile::Release), "release");
    assert_eq!(bridge_build_args(Profile::Debug), strings(&["build", "-p", "alvr_server_openxr"]));
    assert_eq!(
        bridge_build_args(Profile::Distribution),
        strings(&["build", "-p", "alvr_server_openxr", "--release"])
    );
}

#[test]
fn vcpkg_toolchain_wins_over_eigen_prefix() {
    assert_eq!(
        extra_cmake_args(Some("C:/v/vcpkg.cmake"), Some("C:/eigen")),
        strings(&["-DCMAKE_TOOLCHAIN_FILE=C:/v/vcpkg.cmake"])
    );
    assert_eq!(extra_cmake_args(None, Some("C:/eigen")), strings(&["-DCMAKE_PREFIX_PATH=C:/eigen"]));
    assert!(extra_cmake_args(None, None).is_empty());
    assert!(skip_vcpkg(Some("1")));
    assert!(skip_vcpkg(Some("TRUE")));
    assert!(skip_vcpkg(Some("true")));
    assert!(!skip_vcpkg(Some("0")));
    assert!(!skip_vcpkg(Some("yes")));
    assert!(!skip_vcpkg(None));
}

#[test]
fn registration_refuses_while_steamvr_runs() {
    assert_eq!(register_action(true, true, HostOs::Windows), RuntimeAction::RefuseSteamVrRunning);
    assert_eq!(register_action(true, false, HostOs::Unix), RuntimeAction::RefuseSteamVrRunning);
    assert_eq!(register_action(false, false, HostOs::Unix), RuntimeAction::MissingManifest);
    assert_eq!(register_action(false, true, HostOs::Windows), RuntimeAction::Registry);
    assert_eq!(register_action(false, true, HostOs::MacOs), RuntimeAction::Unsupported);
    assert_eq!(register_action(false, true, HostOs::Unix), RuntimeAction::ConfigDir);
    assert_eq!(unregister_action(false, HostOs::Windows), RuntimeAction::MissingManifest);
    assert_eq!(unregister_action(true, HostOs::Unix), RuntimeAction::ConfigDir);
}

#[test]
fn unix_config_dir_prefers_xdg() {
    assert_eq!(
        openxr_unix_config_dir(Some("/x"), Some("/h")),
        Some(strings(&["/x", "openxr", "1"]))
    );
    assert_eq!(
        openxr_unix_config_dir(Some(""), Some("/h")),
        Some(strings(&["/h", ".config", "openxr", "1"]))
    );
    assert_eq!(openxr_unix_config_dir(None, Some("")), None);
}

#[test]
fn unregistration_leaves_foreign_runtimes_alone() {
    let ours = "C:\\b\\active_runtime_alvr.json";
    let query = |value: &str| {
        format!("\r\nHKEY_CURRENT_USER\\Software\\Khronos\\OpenXR\\1\r\n    ActiveRuntime    REG_SZ    {value}\r\n\r\n")
    };
    assert!(registry_names_manifest(&query(ours), ours));
    assert!(!registry_names_manifest(&query("C:\\b\\active_runtime_alvr.json.bak"), ours));
    assert!(!registry_names_manifest(&query("D:\\C:\\b\\active_runtime_alvr.json"), ours));
    assert!(!registry_names_manifest(&query("C:\\oculus.json"), ours));
    assert!(!registry_names_manifest("ERROR: The system was unable to find the specified registry key or value.", ours));
    assert!(!registry_names_manifest("", ours));
    assert!(registry_names_manifest(
        "    activeruntime    REG_SZ    C:\\Program Files\\ALVR\\m.json  \n",
        "C:\\Program Files\\ALVR\\m.json"
    ));
    assert_eq!(active_runtime_value(&query(ours)).as_deref(), Some(ours));
    assert_eq!(active_runtime_value("    ActiveRuntime\n"), None);
    assert_eq!(active_runtime_value("    ActiveRuntime    REG_SZ\n").as_deref(), Some(""));
    assert_eq!(config_dir_unregister(false, b"", b"{}"), ConfigDirUnregister::NotInstalled);
    assert_eq!(config_dir_unregister(true, b"{1}", b"{2}"), ConfigDirUnregister::Mismatch);
    assert_eq!(config_dir_unregister(true, b"{1}", b"{1}x"), ConfigDirUnregister::Mismatch);
    assert_eq!(config_dir_unregister(true, b"{1}", b"{1}"), ConfigDirUnregister::Remove);
}

#[test]
fn controllers_are_classified() {
    assert!(is_controller_source(0x0000_0401));
    assert!(is_controller_source(0x0100_0010 | 0x2));
    assert!(!is_controller_source(0x0000_0400));
    assert!(!is_controller_source(0x0100_0000));
    assert!(is_plugged_status(2));
    assert!(is_plugged_status(5));
    assert!(!is_plugged_status(3));
    assert_eq!(controller_hand("Oculus Touch LEFT"), Some(true));
    assert_eq!(controller_hand("Right Controller"), Some(false));
    assert_eq!(controller_hand("left and right"), None);
    assert_eq!(controller_hand("Gamepad"), None);
    assert_eq!(
        controller_battery(0x401, true, true, 2, Some("Quest Left")),
        Some(ControllerBattery { is_left: true, is_plugged: true })
    );
    assert_eq!(
        controller_battery(0x0100_0010, true, true, 3, Some("Right Touch")),
        Some(ControllerBattery { is_left: false, is_plugged: false })
    );
    assert_eq!(controller_battery(0x2, true, true, 2, Some("Quest Left")), None);
    assert_eq!(controller_battery(0x401, true, true, 1, Some("Quest")), None);
    assert_eq!(controller_battery(0x401, false, true, 2, Some("Quest Left")), None);
    assert_eq!(controller_battery(0x401, true, false, 2, Some("Quest Left")), None);
    assert_eq!(controller_battery(0x401, true, true, 2, None), None);
}

#[test]
fn api_levels_gate_platform_features() {
    let old = api_features(28);
    assert!(!old.low_latency_wifi && !old.controller_battery && !old.thermal_status);
    assert!(!old.thermal_headroom);
    let q = api_features(29);
    assert!(q.low_latency_wifi && q.controller_battery && q.thermal_status);
    assert!(!q.thermal_headroom);
    assert!(api_features(30).thermal_headroom);
    assert_eq!(wifi_lock_mode(29), 4);
    assert_eq!(wifi_lock_mode(28), 3);
}

#[test]
fn wifi_address_is_little_endian() {
    // 192.168.1.20 packed least significant byte first.
    let packed = i32::from_le_bytes([192, 168, 1, 20]);
    assert_eq!(ipv4_octets(packed), (192, 168, 1, 20));
    assert_eq!(ipv4_octets(-1), (255, 255, 255, 255));
    assert_eq!(ipv4_octets(0), (0, 0, 0, 0));
}

#[test]
fn event_labels() {
    let log = |severity| EventKind::Log { severity, content: "hello".to_string() };
    assert_eq!(event_type_string(&log(LogSeverity::Warning)), "WARNING");
    assert_eq!(event_type_string(&log(LogSeverity::Debug)), "DEBUG");
    let group = EventKind::DebugGroup { group: "NET".to_string(), message: "up".to_string() };
    assert_eq!(event_type_string(&group), "NET");
    assert_eq!(event_message(&group).as_deref(), Some("up"));
    assert_eq!(event_message(&log(LogSeverity::Error)).as_deref(), Some("hello"));
    assert_eq!(event_message(&EventKind::Session).as_deref(), Some("Updated"));
    assert_eq!(event_message(&EventKind::GraphStatistics).as_deref(), Some(""));
    assert_eq!(
        event_message(&EventKind::ServerRequestsSelfRestart).as_deref(),
        Some("Request for server restart")
    );
    assert_eq!(event_message(&EventKind::Tracking), None);
    assert_eq!(event_message(&EventKind::Adb), None);
    assert_eq!(event_type_string(&EventKind::DriversList), "DRV LIST");
    assert_eq!(event_type_string(&EventKind::OxrFrameSummary), "OXR STATS");
    let newer = EventKind::NewVersionFound { version: "v21.0.0".to_string() };
    assert_eq!(event_type_string(&newer), "NEW VER");
    assert_eq!(event_message(&newer).as_deref(), Some("v21.0.0"));
}

#[test]
fn releases_are_found_by_version() {
    let info = ReleaseChannelsInfo {
        stable: vec![release("v20.11.1", &[("alvr_client_android.apk", "https://s/apk")])],
        nightly: vec![
            release("v21.0.0-dev13", &[("a", "u1")]),
            release("v20.11.1", &[("b", "u2")]),
        ],
    };
    let r = get_release(&info, "v20.11.1").unwrap();
    assert_eq!(r.assets[0].1, "https://s/apk");
    assert_eq!(get_release(&info, "v21.0.0-dev13").unwrap().assets[0].0, "a");
    assert!(get_release(&info, "v1").is_none());
    assert_eq!(asset_url(&r, CLIENT_APK_ASSET).as_deref(), Some("https://s/apk"));
    assert_eq!(asset_url(&r, "missing"), None);
    assert_eq!(streamer_asset_name(true), "alvr_streamer_windows.zip");
    assert_eq!(streamer_asset_name(false), "alvr_streamer_linux.tar.gz");
}

#[test]
fn release_channel_follows_the_version() {
    assert_eq!(client_channel("v20.11.1"), Some(ClientChannel::Stable));
    assert_eq!(client_channel("20.11.1"), Some(ClientChannel::Stable));
    assert_eq!(client_channel("v21.0.0-dev13"), Some(ClientChannel::Dev));
    assert_eq!(client_channel("v21.0.0+nightly.2024.01.01"), Some(ClientChannel::Dev));
    assert_eq!(client_channel("v21.0.0+build5"), Some(ClientChannel::Stable));
    assert_eq!(client_channel("nightly"), None);
}

#[test]
fn installation_paths() {
    assert_eq!(installations_dir("/home/u/.local/share/ALVR-Launcher", '/'), "/home/u/.local/share/ALVR-Launcher/installations");
    assert_eq!(installations_dir("C:\\ALVR\\", '\\'), "C:\\ALVR\\installations");
    assert_eq!(join_path("", "x", '/'), "x");
    assert_eq!(dashboard_relative_path(TargetOs::Windows), Some("ALVR Dashboard.exe"));
    assert_eq!(dashboard_relative_path(TargetOs::Linux), Some("alvr_streamer_linux/bin/alvr_dashboard"));
    assert_eq!(dashboard_relative_path(TargetOs::Other), None);
}

#[test]
fn github_release_listing_is_read() {
    let asset = |n: &str, u: &str| {
        Json::Object(vec![
            ("name".to_string(), Json::Str(n.to_string())),
            ("browser_download_url".to_string(), Json::Str(u.to_string())),
            ("size".to_string(), Json::Number("12".to_string())),
        ])
    };
    let listing = Json::Array(vec![Json::Object(vec![
        ("tag_name".to_string(), Json::Str("v20.11.1".to_string())),
        ("assets".to_string(), Json::Array(vec![asset("a.zip", "https://x/a.zip")])),
    ])]);
    let rs = releases_from_json(&listing).unwrap();
    assert_eq!(rs.len(), 1);
    assert_eq!(rs[0].version, "v20.11.1");
    assert_eq!(rs[0].assets, vec![("a.zip".to_string(), "https://x/a.zip".to_string())]);
    assert!(releases_from_json(&Json::Null).is_none());
}

#[test]
fn setting_paths_split_at_dots() {
    let p = parse_path("session_settings.video.bitrate");
    assert_eq!(p.len(), 3);
    match &p[1] {
        PathSegment::Name(n) => assert_eq!(n, "video"),
        PathSegment::Index(_) => panic!("expected a name"),
    }
    assert_eq!(PathSegment::Index(3).to_text(), "[3]");
    assert_eq!(PathSegment::from("x".to_string()).to_text(), "x");
    assert_eq!(PathSegment::from(7usize).to_text(), "[7]");
    assert_eq!(parse_path("").len(), 1);
}

#[test]
fn extension_blobs_must_be_json() {
    assert!(capabilities_ext("{}").is_ok());
    assert!(negotiated_ext("{\"a\": 1}").is_ok());
    assert_eq!(capabilities_ext("not json").err(), Some(ExtError::InvalidJson));
    assert_eq!(negotiated_ext("").err(), Some(ExtError::InvalidJson));
}

#[test]
fn lhm_ids_and_cpu_temperatures_are_classified() {
    assert_eq!(HardwareKind::of_id("/amdcpu/0"), HardwareKind::Cpu);
    assert_eq!(HardwareKind::of_id("/gpu-nvidia/0"), HardwareKind::Gpu);
    assert_eq!(HardwareKind::of_id("/motherboard"), HardwareKind::Mainboard);
    assert_eq!(HardwareKind::of_id("/nvme/1"), HardwareKind::Storage);
    assert_eq!(HardwareKind::of_id("/memory/dimm/0"), HardwareKind::MemoryDimm);
    assert_eq!(HardwareKind::of_id("/ram"), HardwareKind::Unknown);
    assert_eq!(classify_cpu_temperature(&chars("core #3")), Some(CpuTempClass::PerCore));
    assert_eq!(classify_cpu_temperature(&chars("cpu package")), Some(CpuTempClass::Package));
    assert_eq!(classify_cpu_temperature(&chars("core (tctl/tdie)")), Some(CpuTempClass::Package));
    assert_eq!(classify_cpu_temperature(&chars("ccd1 (tdie)")), Some(CpuTempClass::PackageIfUnset));
    assert_eq!(classify_cpu_temperature(&chars("core max")), None);
    assert_eq!(
        route_leaf(HardwareKind::Gpu, &chars("Temperature"), &chars("gpu hot spot")),
        Some(LeafRoute::GpuTemperature { prefer: true })
    );
    assert_eq!(
        route_leaf(HardwareKind::Cpu, &chars("Power"), &chars("cpu package")),
        Some(LeafRoute::CpuPackagePower)
    );
    assert_eq!(route_leaf(HardwareKind::Storage, &chars("Fan"), &chars("fan")), None);
    assert_eq!(value_token_of("45,5 °C").as_deref(), Some("45.5"));
    assert_eq!(value_token_of("   "), None);
}

#[test]
fn lhm_tree_is_planned_in_order() {
    let tree = node(
        "Sensor",
        "",
        "",
        "",
        vec![node(
            "DESKTOP",
            "",
            "",
            "",
            vec![
                node(
                    "AMD Ryzen 7 5800X",
                    "",
                    "/amdcpu/0",
                    "",
                    vec![node(
                        "Temperatures",
                        "",
                        "",
                        "",
                        vec![leaf("Core (Tctl/Tdie)", "61,3 °C", "Temperature")],
                    )],
                ),
                node(
                    "NVIDIA GeForce RTX 3080",
                    "",
                    "/gpu-nvidia/0",
                    "",
                    vec![leaf("GPU Core", "55,0 °C", "Temperature"), leaf("GPU", "1200 RPM", "Fan")],
                ),
                node(
                    "Samsung SSD 980",
                    "",
                    "/nvme/0",
                    "",
                    vec![leaf("Composite Temperature", "40 °C", "Temperature")],
                ),
            ],
        )],
    );
    let plan = plan_readings(&tree);
    assert_eq!(plan.len(), 6);
    match &plan[0] {
        LhmEvent::Reading { route, token, raw_value, name } => {
            assert_eq!(*route, LeafRoute::CpuTemperature(CpuTempClass::Package));
            assert_eq!(token, "61.3");
            assert_eq!(raw_value, "61,3 °C");
            assert_eq!(name, "Core (Tctl/Tdie)");
        },
        _ => panic!("expected a reading"),
    }
    match &plan[1] {
        LhmEvent::GpuName(n) => assert_eq!(n, "NVIDIA GeForce RTX 3080"),
        _ => panic!("expected the GPU name"),
    }
    match &plan[2] {
        LhmEvent::Reading { route, token, .. } => {
            assert_eq!(*route, LeafRoute::GpuTemperature { prefer: true });
            assert_eq!(token, "55.0");
        },
        _ => panic!("expected a reading"),
    }
    match &plan[3] {
        LhmEvent::Reading { route, token, .. } => {
            assert_eq!(*route, LeafRoute::GpuFan);
            assert_eq!(token, "1200");
        },
        _ => panic!("expected a reading"),
    }
    match &plan[4] {
        LhmEvent::OpenStorage(n) => assert_eq!(n, "Samsung SSD 980"),
        _ => panic!("expected a drive"),
    }
    match &plan[5] {
        LhmEvent::Reading { route, .. } => {
            assert_eq!(*route, LeafRoute::StorageTemperature { prefer: true })
        },
        _ => panic!("expected a reading"),
    }
}

#[test]
fn lhm_gpu_is_named_once() {
    let tree = node(
        "Sensor",
        "",
        "",
        "",
        vec![
            node("", "", "/gpu-intel-integrated/0", "", vec![]),
            node("Intel UHD 770", "", "/gpu-intel-integrated/1", "", vec![]),
            node("NVIDIA GeForce RTX 4090", "", "/gpu-nvidia/0", "", vec![]),
        ],
    );
    let plan = plan_readings(&tree);
    let names: Vec<&String> = plan
        .iter()
        .filter_map(|e| match e {
            LhmEvent::GpuName(n) => Some(n),
            _ => None,
        })
        .collect();
    assert_eq!(names, vec!["Intel UHD 770"]);
}

#[test]
fn build_outputs_are_searched_in_order() {
    assert_eq!(
        manifest_candidates("/b", "m.json", '/'),
        strings(&[
            "/b/m.json",
            "/b/Debug/m.json",
            "/b/Release/m.json",
            "/b/RelWithDebInfo/m.json",
            "/b/MinSizeRel/m.json",
        ])
    );
    assert_eq!(
        service_dir_candidates("C:\\s\\", '\\'),
        strings(&[
            "C:\\s\\Debug",
            "C:\\s\\Release",
            "C:\\s\\RelWithDebInfo",
            "C:\\s\\MinSizeRel",
            "C:\\s\\",
        ])
    );
}

#[test]
fn freshest_manifest_wins() {
    assert_eq!(freshest_candidate(&vec![Some(5), None, Some(9), Some(9), Some(2)]), Some(2));
    assert_eq!(freshest_candidate(&vec![Some(5), Some(1)]), Some(0));
    assert_eq!(freshest_candidate(&vec![None, None]), None);
    assert_eq!(freshest_candidate(&Vec::new()), None);
}

fn reading(route: LeafRoute, token: &str) -> LhmEvent {
    LhmEvent::Reading {
        route,
        token: token.to_string(),
        raw_value: token.to_string(),
        name: "x".to_string(),
    }
}

#[test]
fn lhm_readings_follow_precedence() {
    let plan = vec![
        reading(LeafRoute::CpuTemperature(CpuTempClass::PackageIfUnset), "50"),
        reading(LeafRoute::CpuTemperature(CpuTempClass::Package), "60"),
        reading(LeafRoute::CpuTemperature(CpuTempClass::PackageIfUnset), "70"),
        reading(LeafRoute::GpuTemperature { prefer: false }, "40"),
        reading(LeafRoute::GpuTemperature { prefer: true }, "45"),
        reading(LeafRoute::GpuTemperature { prefer: false }, "41"),
        reading(LeafRoute::GpuFanDuty, "30"),
        reading(LeafRoute::GpuFanDuty, "35"),
        reading(LeafRoute::GpuPartialPower, "10"),
        reading(LeafRoute::GpuTotalPower, "200"),
        reading(LeafRoute::GpuPartialPower, "11"),
        reading(LeafRoute::StorageTemperature { prefer: false }, "33"),
        LhmEvent::OpenStorage("ssd".to_string()),
        reading(LeafRoute::StorageLifeFromUsed, "3"),
        reading(LeafRoute::StorageLife, "90"),
        reading(LeafRoute::GpuLoad, "bad"),
    ];
    let usable: Vec<bool> = (0..plan.len()).map(|i| i != 15).collect();
    let p = resolve_readings(&plan, &usable);
    assert_eq!(p.cpu_package_temp, Some(1));
    assert_eq!(p.gpu_temp, Some(4));
    assert_eq!(p.gpu_fan_duty, Some(6));
    assert_eq!(p.gpu_total_power, Some(9));
    assert_eq!(p.gpu_partial_powers, vec![8]);
    assert_eq!(p.gpu_load, None);
    assert_eq!(p.storages.len(), 1);
    assert_eq!(p.storages[0].open, 12);
    assert_eq!(p.storages[0].temp, None);
    assert_eq!(p.storages[0].life, Some(LifePick::Direct(14)));
}

#[test]
fn vram_total_falls_back_to_used_plus_free() {
    assert_eq!(vram_totals(Some(2048), Some(6144), None), (Some(2048), Some(8192)));
    assert_eq!(vram_totals(Some(2048), Some(6144), Some(8000)), (Some(2048), Some(8000)));
    assert_eq!(vram_totals(None, Some(6144), None), (None, None));
}

#[test]
fn github_release_bytes_are_read() {
    let body = br#"[{"tag_name": "v20.11.1", "assets": [{"name": "a.zip", "browser_download_url": "https://x/a.zip", "size": 12}]}]"#;
    let rs = releases_from_bytes(body).unwrap();
    assert_eq!(rs.len(), 1);
    assert_eq!(rs[0].version, "v20.11.1");
    assert_eq!(rs[0].assets, vec![("a.zip".to_string(), "https://x/a.zip".to_string())]);
    assert!(releases_from_bytes(b"<html>").is_none());
    assert!(releases_from_bytes(b"{}").is_none());
}
