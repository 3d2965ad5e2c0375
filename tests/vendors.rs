use gleam_observer::error::Error;
use gleam_observer::metrics::{usage_percent, DiskInfo};
use gleam_observer::theme::{CatppuccinTheme, Rgb};
use gleam_observer::ui_state::{
    playback_back, playback_forward, playback_start, selection_down, selection_up, ProcessSortMode,
    ViewMode,
};
use gleam_observer::vendors::{
    active_memory_clock, amd_gpu_name, is_amd_vendor, is_card_entry, is_driver_name,
    nvidia_known_gpu_name, parse_u64, AmdBackend, IntelBackend,
};

#[test]
fn amd_known_names() {
    assert_eq!(
        AmdBackend::get_known_gpu_name("73df", "Sapphire Technology Limited").as_deref(),
        Some("Sapphire RX 6700 XT Nitro")
    );
    assert_eq!(
        AmdBackend::get_known_gpu_name("7480", "Micro-Star International Co., Ltd. [MSI]").as_deref(),
        Some("MSI Radeon RX 7700 XT Gaming X")
    );
    assert_eq!(AmdBackend::get_known_gpu_name("1234", "Sapphire"), None);
    assert_eq!(AmdBackend::get_known_gpu_name("73df", "Unknown Vendor"), None);
}

#[test]
fn nvidia_known_names() {
    assert_eq!(
        nvidia_known_gpu_name("ASUS ROG Strix GeForce RTX 4090").as_deref(),
        Some("ASUS ROG Strix RTX 4090 OC")
    );
    assert_eq!(
        nvidia_known_gpu_name("MSI GeForce RTX 4080 SUPER").as_deref(),
        Some("MSI GeForce RTX 4080 Gaming X Trio")
    );
    assert_eq!(
        nvidia_known_gpu_name("Gigabyte RTX 3060 Ti").as_deref(),
        Some("Gigabyte GeForce RTX 3060 Ti Gaming OC Pro")
    );
    assert_eq!(nvidia_known_gpu_name("NVIDIA GeForce RTX 4090"), None);
    assert_eq!(nvidia_known_gpu_name("Tesla T4"), None);
}

#[test]
fn decimal_parsing() {
    assert_eq!(parse_u64(" 42\n"), Some(42));
    assert_eq!(parse_u64("+7"), Some(7));
    assert_eq!(parse_u64("18446744073709551615"), Some(u64::MAX));
    assert_eq!(parse_u64("18446744073709551616"), None);
    assert_eq!(parse_u64(""), None);
    assert_eq!(parse_u64("4 2"), None);
    assert_eq!(parse_u64("-1"), None);
}

#[test]
fn sysfs_conversions() {
    assert_eq!(AmdBackend::temperature_from("45000\n"), Some(45_000));
    assert_eq!(AmdBackend::utilization_from("37\n"), Some(37_000));
    assert_eq!(AmdBackend::power_from("123456789\n"), Some(123_456));
    assert_eq!(AmdBackend::clock_from("2100000000\n"), Some(2100));
    assert_eq!(AmdBackend::memory_from("8573157376\n"), Some(8_573_157_376));
    assert_eq!(AmdBackend::fan_from("1200"), Some(1200));
    assert_eq!(AmdBackend::temperature_from("n/a"), None);
}

#[test]
fn memory_clock_of_active_level() {
    let content = "0: 96Mhz\n1: 456Mhz *\n2: 675Mhz\n";
    assert_eq!(active_memory_clock(content), Some(456));
    assert_eq!(active_memory_clock("0: 96Mhz\n1: 456Mhz\n"), None);
    assert_eq!(active_memory_clock("*no colon\n"), None);
}

#[test]
fn card_and_vendor_checks() {
    assert!(is_card_entry("card0"));
    assert!(!is_card_entry("card1-DP-1"));
    assert!(!is_card_entry("renderD128"));
    assert!(is_amd_vendor("0x1002\n"));
    assert!(!is_amd_vendor("0x10de\n"));
    assert!(is_driver_name("amdgpu\n", "amdgpu"));
    assert!(!is_driver_name("nouveau\n", "amdgpu"));
}

#[test]
fn amd_name_resolution() {
    assert_eq!(amd_gpu_name("  Radeon Pro W6800\n", "", ""), "Radeon Pro W6800");
    let ids = "08:00.0 0300: 1002:73df (rev c1)\n";
    let details = "Slot:\t08:00.0\nClass:\tVGA compatible controller\nVendor:\tAdvanced Micro Devices, Inc. [AMD/ATI]\nDevice:\tNavi 22 [Radeon RX 6700/6700 XT/6750 XT / 6800M/6850M XT]\nSVendor:\tSapphire Technology Limited\nSDevice:\tNitro+ RX 6700 XT\n";
    assert_eq!(amd_gpu_name("", ids, details), "Sapphire RX 6700 XT Nitro");
    let other = "Device:\tNavi 22 [Radeon RX 6700 XT]\nSVendor:\tSomeone\nSDevice:\tCustom Board\n";
    assert_eq!(amd_gpu_name("", ids, other), "Custom Board");
    let bare = "Device:\tNavi 22 [Radeon RX 6700 XT]\nSDevice:\t\n";
    assert_eq!(amd_gpu_name("", "", bare), "Radeon RX 6700 XT");
    assert_eq!(amd_gpu_name("", "", "Device:\tPlain Name\n"), "Plain Name");
    assert_eq!(amd_gpu_name("", "", ""), "Unknown AMD GPU");
}

#[test]
fn backends_detection() {
    assert!(IntelBackend::detect_all().is_err());
    match AmdBackend::detect_all(Vec::new()) {
        Err(e) => assert_eq!(e.message(), "GPU error: No AMD GPUs detected"),
        Ok(_) => panic!("no GPUs must be an error"),
    }
    assert_eq!(Error::Config("bad".to_string()).message(), "Configuration error: bad");
}

#[test]
fn disk_and_memory_usage() {
    let d = DiskInfo {
        name: "sda".to_string(),
        mount_point: "/".to_string(),
        total_space: 1000,
        available_space: 250,
        file_system: "ext4".to_string(),
    };
    assert_eq!(d.used_space(), 750);
    assert_eq!(d.usage_percent(), 75_000);
    let empty = DiskInfo { total_space: 0, available_space: 10, ..d.clone() };
    assert_eq!(empty.used_space(), 0);
    assert_eq!(empty.usage_percent(), 0);
    assert_eq!(usage_percent(1, 4), 25_000);
    assert_eq!(usage_percent(1, 0), 0);
}

#[test]
fn ui_transitions() {
    assert_eq!(ViewMode::Dashboard.toggled(), ViewMode::Processes);
    assert_eq!(ViewMode::History.toggled(), ViewMode::Dashboard);
    assert_eq!(ProcessSortMode::Pid.cycled(), ProcessSortMode::Cpu);
    assert_eq!(selection_up(0), 0);
    assert_eq!(selection_down(4, 5), 4);
    assert_eq!(selection_down(3, 5), 4);
    assert_eq!(playback_start(0), None);
    assert_eq!(playback_start(10), Some(9));
    assert_eq!(playback_back(Some(0)), Some(0));
    assert_eq!(playback_forward(Some(8), 10), Some(9));
    assert_eq!(playback_forward(Some(9), 10), Some(9));
}

#[test]
fn theme_thresholds() {
    assert_eq!(CatppuccinTheme::cpu_color(85_000), CatppuccinTheme::red());
    assert_eq!(CatppuccinTheme::cpu_color(70_000), CatppuccinTheme::peach());
    assert_eq!(CatppuccinTheme::memory_color(80_000), CatppuccinTheme::yellow());
    assert_eq!(CatppuccinTheme::gpu_temp_color(65_000), CatppuccinTheme::yellow());
    assert_eq!(CatppuccinTheme::status_ok(), Rgb { r: 166, g: 227, b: 161 });
}

#[test]
fn unicode_white_space_is_trimmed() {
    assert_eq!(parse_u64("\u{a0}42\u{3000}"), Some(42));
    assert!(is_amd_vendor("\u{2003}0x1002\u{85}"));
}
