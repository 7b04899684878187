use local_models::hardware::{
    group, index_request, info_request, key_count, key_count_info_valid, key_from_index_reply, memory_size, panel_area,
    panel_enabled, parse_info_reply, read_request, reply_accepted, sensor_encoding_supported,
    sensor_for, sp78_reading, Group, Rect, Size,
};
use local_models::telemetry::{
    cpuinfo_name, gpu_model_name, is_cpu_thermal_zone, mac_cpu_idle, mac_cpu_name, mac_gpu_value,
    meminfo_ram, nvidia_fields, phys_mem_token, CpuSampler,
};

#[test]
fn narrow_terminals_keep_the_chat_width() {
    assert_eq!(panel_area(Size::new(109, 30)), None);
    assert_eq!(
        panel_area(Size::new(140, 30)),
        Some(Rect::new(111, 0, 29, 30))
    );
}

#[test]
fn short_terminals_have_no_panel() {
    assert_eq!(panel_area(Size::new(110, 15)), None);
    assert_eq!(panel_area(Size::new(110, 16)), Some(Rect::new(81, 0, 29, 16)));
}

#[test]
fn classifies_die_sensors_without_using_battery_or_memory_temperatures() {
    assert_eq!(
        [*b"Tp00", *b"Te05", *b"Tf04", *b"Tf49", *b"TCAD"].map(group),
        [Some(Group::Cpu); 5]
    );
    assert_eq!(
        [*b"Tg0U", *b"Tg1g", *b"Tf14", *b"Tf29", *b"TG0D"].map(group),
        [Some(Group::Gpu); 5]
    );
    assert_eq!(
        [*b"TB1T", *b"Tm0p", *b"TaLP", *b"PSTR"].map(group),
        [None; 4]
    );
}

/// A reading in degrees, as the caller turns the raw value into one.
fn sp78_degrees(data: &[u8]) -> Option<f64> {
    sp78_reading(data).map(|raw| f64::from(raw) / 256.0)
}

#[test]
fn decodes_apple_silicon_float_and_intel_fixed_point() {
    assert!(sensor_encoding_supported(*b"flt ", 4));
    assert_eq!(sp78_degrees(&[0x35, 0x80]), Some(53.5));
}

#[test]
fn invalid_or_inactive_readings_remain_unavailable() {
    assert_eq!(sp78_degrees(&[0xff, 0x00]), None);
    assert!(!sensor_encoding_supported(*b"flt ", 2));
    assert_eq!(sp78_degrees(&[1, 2, 3, 4]), None);
    assert!(!sensor_encoding_supported(*b"ui32", 4));
    assert_eq!(sp78_degrees(&[0x05, 0x00]), None);
    assert_eq!(sp78_degrees(&[0x7d, 0x00]), Some(125.0));
    assert_eq!(sp78_degrees(&[0x7d, 0x01]), None);
}

#[test]
fn parsers_use_the_latest_sample_and_preserve_unavailable_values() {
    let idle = mac_cpu_idle(
        "CPU usage: 10% user, 20% sys, 70% idle\nCPU usage: 5% user, 5% sys, 90% idle",
    );
    assert_eq!(idle.as_deref(), Some("90"));
    assert_eq!(
        idle.and_then(|v| v.parse::<f64>().ok()).map(|idle| 100.0 - idle),
        Some(10.0)
    );
    assert_eq!(
        mac_gpu_value("\"Device Utilization %\"=0,\"Other\"=4").as_deref(),
        Some("0")
    );
    assert_eq!(mac_gpu_value("no counter"), None);
}

#[test]
fn top_and_ioreg_fields_are_found() {
    assert_eq!(mac_cpu_idle("Load Avg: 1.0\nCPU usage: 3.5% user, 1.2% sys, 95.3% idle \n").as_deref(), Some("95.3"));
    assert_eq!(mac_cpu_idle("CPU usage: nothing"), None);
    assert_eq!(mac_cpu_idle(""), None);
    assert_eq!(mac_gpu_value("{\"Device Utilization %\"=42}").as_deref(), Some("42"));
    assert_eq!(
        phys_mem_token("PhysMem: 1G used\nPhysMem: 31G used (2795M wired), 1024M unused.\n").as_deref(),
        Some("31G")
    );
    assert_eq!(phys_mem_token("PhysMem: "), None);
    assert_eq!(memory_size("31G"), Some(31 * 1_073_741_824));
    assert_eq!(memory_size("2795M"), Some(2795 * 1_048_576));
    assert_eq!(memory_size("12X"), None);
    assert_eq!(memory_size("99999999999999999G"), None);
    assert_eq!(
        gpu_model_name("  | {\n    \"model\" = \"Apple M5\"\n  }"),
        "Apple M5"
    );
    assert_eq!(gpu_model_name("\"model\" = \"unterminated"), "Apple GPU");
    assert_eq!(mac_cpu_name(Some(" Apple M5 Pro\n".to_owned())), "Apple M5 Pro");
    assert_eq!(mac_cpu_name(None), "CPU");
}

#[test]
fn linux_sources_are_read() {
    let mut sampler = CpuSampler::new();
    assert_eq!(sampler.sample("cpu  100 0 100 700 100 0 0 0 0 0\ncpu0 1 2 3 4\n"), None);
    assert_eq!(sampler.sample("cpu  150 0 150 750 110 0 0 0 0 0\n"), Some((100, 160)));
    assert_eq!(sampler.sample("cpu  1 2\n"), None);
    assert_eq!(sampler.previous, Some((1160, 860)));
    assert_eq!(
        cpuinfo_name("processor\t: 0\nmodel name\t: AMD Ryzen 9 7950X  \nmodel name\t: other\n"),
        "AMD Ryzen 9 7950X"
    );
    assert_eq!(cpuinfo_name("processor\t: 0\n"), "CPU");
    assert_eq!(
        meminfo_ram("MemTotal:       32000000 kB\nMemFree: 1 kB\nMemAvailable:   12000000 kB\n"),
        Some((20_000_000 * 1024, 32_000_000 * 1024))
    );
    assert_eq!(meminfo_ram("MemTotal: 10 kB\n"), None);
    assert_eq!(
        nvidia_fields(" NVIDIA GeForce RTX 4090 , 37, 61 \n"),
        Some(("NVIDIA GeForce RTX 4090".to_owned(), " 37".to_owned(), "61".to_owned()))
    );
    assert_eq!(nvidia_fields("a,b"), None);
    assert!(is_cpu_thermal_zone("x86_pkg_temp\n"));
    assert!(is_cpu_thermal_zone("cpu-thermal"));
    assert!(!is_cpu_thermal_zone("acpitz"));
}

#[test]
fn smc_messages_follow_the_user_client_layout() {
    let info = info_request(*b"#KEY", true);
    assert_eq!(info.len(), 80);
    assert_eq!(&info[..4], b"YEK#");
    assert_eq!(info[42], 9);
    let read = read_request(*b"TC0D", 2, false);
    assert_eq!(&read[..4], b"TC0D");
    assert_eq!(&read[28..32], &[0, 0, 0, 2]);
    assert_eq!(read[42], 5);
    let index = index_request(258, true);
    assert_eq!(&index[44..48], &[2, 1, 0, 0]);
    assert_eq!(index[42], 8);
    assert!(reply_accepted(0, 80, 0));
    assert!(!reply_accepted(0, 80, 132));
    assert!(!reply_accepted(1, 80, 0));

    let mut reply = vec![0u8; 80];
    reply[28] = 4;
    reply[32..36].copy_from_slice(b"23iu");
    assert_eq!(parse_info_reply(&reply, true), Some((*b"ui32", 4)));
    reply[28] = 33;
    assert_eq!(parse_info_reply(&reply, true), None);
    reply[..4].copy_from_slice(b"D0CT");
    assert_eq!(key_from_index_reply(&reply, true), *b"TC0D");
    reply[48..52].copy_from_slice(&[0, 0, 1, 0]);
    assert_eq!(key_count(*b"ui32", 4, &reply), Some(256));
    assert_eq!(key_count(*b"ui16", 4, &reply), None);
    reply[48..52].copy_from_slice(&[0, 1, 0, 0]);
    assert_eq!(key_count(*b"ui32", 4, &reply), None);
}

#[test]
fn key_count_metadata_is_checked_before_reading() {
    assert!(key_count_info_valid(*b"ui32", 4));
    assert!(!key_count_info_valid(*b"ui32", 2));
    assert!(!key_count_info_valid(*b"ui16", 4));
}

#[test]
fn sensors_need_a_die_key_and_a_known_encoding() {
    assert_eq!(sensor_for(*b"Tp01", Some((*b"flt ", 4))), Some(Group::Cpu));
    assert_eq!(sensor_for(*b"Tg05", Some((*b"sp78", 2))), Some(Group::Gpu));
    assert_eq!(sensor_for(*b"Tp01", Some((*b"sp78", 4))), None);
    assert_eq!(sensor_for(*b"Tp01", None), None);
    assert_eq!(sensor_for(*b"TA0P", Some((*b"flt ", 4))), None);
}

#[test]
fn the_panel_can_be_switched_off() {
    assert!(panel_enabled(None));
    assert!(panel_enabled(Some("1".to_owned())));
    assert!(!panel_enabled(Some("0".to_owned())));
}
