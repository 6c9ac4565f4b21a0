use owl::policy::MemoryPressure;
use owl::pressure::{
    headroom_per_mille, map_headroom_per_mille, monitor_step, pressure_rank,
    MemoryPressureMonitorConfig, MemoryPressureReading, MemoryPressureSourceKind,
    MemoryPressureThresholds, PressureMailbox, PressureSmoother,
};
use owl::procfs::{parse_cgroup_value, parse_kb_value, read_meminfo, read_meminfo_total, read_vm_rss};
use owl::sources::{
    cgroup_reading, cgroup_v2_path, meminfo_reading, rss_reading, CgroupV2Source,
    DefaultMemoryPressureSource, SourceFiles,
};

const MEMINFO: &[u8] = b"MemTotal:       16000000 kB\nMemFree:         1000000 kB\nMemAvailable:    2400000 kB\nBuffers:          100000 kB\n";

#[test]
fn maps_headroom_to_pressure() {
    let thresholds = MemoryPressureThresholds {
        moderate_headroom_per_mille: 200,
        severe_headroom_per_mille: 100,
    };

    assert_eq!(map_headroom_per_mille(250, &thresholds), MemoryPressure::Low);
    assert_eq!(map_headroom_per_mille(150, &thresholds), MemoryPressure::Moderate);
    assert_eq!(map_headroom_per_mille(100, &thresholds), MemoryPressure::Severe);
    assert_eq!(map_headroom_per_mille(5, &thresholds), MemoryPressure::Severe);
}

#[test]
fn threshold_and_config_defaults() {
    let t = MemoryPressureThresholds::default();
    assert_eq!((t.moderate_headroom_per_mille, t.severe_headroom_per_mille), (200, 100));
    assert_eq!(map_headroom_per_mille(200, &t), MemoryPressure::Moderate);
    assert_eq!(map_headroom_per_mille(201, &t), MemoryPressure::Low);
    let c = MemoryPressureMonitorConfig::default();
    assert_eq!((c.sample_interval, c.monotonic_window), (1000, 3000));
}

#[test]
fn headroom_is_per_mille_clamped_and_needs_a_total() {
    assert_eq!(headroom_per_mille(1, 0), None);
    assert_eq!(headroom_per_mille(250, 1000), Some(250));
    assert_eq!(headroom_per_mille(3, 7), Some(428));
    assert_eq!(headroom_per_mille(5000, 1000), Some(1000));
    assert_eq!(headroom_per_mille(u64::MAX, u64::MAX), Some(1));
    assert_eq!(headroom_per_mille(u64::MAX, 1), Some(1000));
}

#[test]
fn pressure_ranks_are_ordered() {
    assert_eq!(pressure_rank(MemoryPressure::Low), 0);
    assert_eq!(pressure_rank(MemoryPressure::Moderate), 1);
    assert_eq!(pressure_rank(MemoryPressure::Severe), 2);
}

#[test]
fn kb_values_take_the_first_run_of_digits() {
    assert_eq!(parse_kb_value(b"MemTotal:       16314372 kB"), Some(16314372));
    assert_eq!(parse_kb_value(b"VmRSS:\t  42 kB 7"), Some(42));
    assert_eq!(parse_kb_value(b"MemTotal: kB"), None);
    assert_eq!(parse_kb_value(b""), None);
    assert_eq!(parse_kb_value(b"99999999999999999999999"), Some(u64::MAX));
}

#[test]
fn cgroup_values_reject_max() {
    assert_eq!(parse_cgroup_value(b"max\n"), None);
    assert_eq!(parse_cgroup_value(b"8589934592\n"), Some(8589934592));
    assert_eq!(parse_cgroup_value(b"12m"), None);
    assert_eq!(parse_cgroup_value(b"12 m"), Some(12));
    assert_eq!(parse_cgroup_value(b"\n"), None);
}

#[test]
fn meminfo_fields_are_read_in_bytes() {
    assert_eq!(read_meminfo_total(MEMINFO), Some(16000000 * 1024));
    assert_eq!(read_meminfo(MEMINFO), Some((16000000 * 1024, 2400000 * 1024)));
    assert_eq!(read_meminfo(b"MemTotal: 10 kB\n"), None);
    assert_eq!(read_vm_rss(b"Name:\towl\nVmRSS:\t  2048 kB\n"), Some(2048 * 1024));
    assert_eq!(read_vm_rss(b"Name:\towl\n"), None);
    assert_eq!(read_meminfo_total(b"MemTotal: 99999999999999999 kB"), Some(u64::MAX));
}

#[test]
fn cgroup_path_comes_from_the_unified_entry() {
    assert_eq!(
        cgroup_v2_path(b"1:name=systemd:/x\n0::/user.slice/app.scope\n"),
        Some(b"/sys/fs/cgroup/user.slice/app.scope".to_vec())
    );
    assert_eq!(cgroup_v2_path(b"0::/\n"), Some(b"/sys/fs/cgroup".to_vec()));
    assert_eq!(cgroup_v2_path(b"0::"), Some(b"/sys/fs/cgroup".to_vec()));
    assert_eq!(cgroup_v2_path(b"1:cpu:/a\n"), None);
    assert_eq!(cgroup_v2_path(b"0::/bad\xff\n"), None);
    assert_eq!(
        cgroup_v2_path("0::/caf\u{e9}\n".as_bytes()),
        Some("/sys/fs/cgroup/caf\u{e9}".as_bytes().to_vec())
    );
    assert!(DefaultMemoryPressureSource::new(b"0::/x\xc3\n").cgroup.is_none());
    let source = CgroupV2Source::new(b"0::/a\n").unwrap();
    assert_eq!(source.memory_max, b"/sys/fs/cgroup/a/memory.max".to_vec());
    assert_eq!(source.memory_current, b"/sys/fs/cgroup/a/memory.current".to_vec());
}

#[test]
fn source_readings() {
    let t = MemoryPressureThresholds::default();
    assert_eq!(cgroup_reading(b"max\n", b"10\n", &t), None);
    assert_eq!(cgroup_reading(b"0\n", b"10\n", &t), None);
    assert_eq!(
        cgroup_reading(b"1000\n", b"950\n", &t),
        Some(MemoryPressureReading {
            pressure: MemoryPressure::Severe,
            headroom_per_mille: 50,
            source: MemoryPressureSourceKind::CgroupV2,
        })
    );
    assert_eq!(cgroup_reading(b"1000\n", b"2000\n", &t).unwrap().headroom_per_mille, 0);
    assert_eq!(
        meminfo_reading(MEMINFO, &t),
        Some(MemoryPressureReading {
            pressure: MemoryPressure::Moderate,
            headroom_per_mille: 150,
            source: MemoryPressureSourceKind::SystemMemInfo,
        })
    );
    assert_eq!(
        rss_reading(MEMINFO, b"VmRSS: 4000000 kB\n", &t),
        Some(MemoryPressureReading {
            pressure: MemoryPressure::Low,
            headroom_per_mille: 750,
            source: MemoryPressureSourceKind::ProcessRss,
        })
    );
}

#[test]
fn source_chain_falls_through() {
    let t = MemoryPressureThresholds::default();
    let chain = DefaultMemoryPressureSource::new(b"0::/a\n");
    assert!(chain.cgroup.is_some());
    let files = SourceFiles {
        memory_max: Some(b"max\n".to_vec()),
        memory_current: Some(b"5\n".to_vec()),
        meminfo: Some(MEMINFO.to_vec()),
        status: Some(b"VmRSS: 1 kB\n".to_vec()),
    };
    assert_eq!(chain.sample_files(&files, &t).unwrap().source, MemoryPressureSourceKind::SystemMemInfo);
    let files = SourceFiles {
        memory_max: Some(b"100\n".to_vec()),
        memory_current: Some(b"5\n".to_vec()),
        meminfo: Some(MEMINFO.to_vec()),
        status: None,
    };
    assert_eq!(chain.sample_files(&files, &t).unwrap().source, MemoryPressureSourceKind::CgroupV2);
    let files = SourceFiles {
        memory_max: None,
        memory_current: None,
        meminfo: Some(b"MemTotal: 100 kB\n".to_vec()),
        status: Some(b"VmRSS: 95 kB\n".to_vec()),
    };
    let r = chain.sample_files(&files, &t).unwrap();
    assert_eq!((r.source, r.headroom_per_mille, r.pressure), (MemoryPressureSourceKind::ProcessRss, 50, MemoryPressure::Severe));
    let none = SourceFiles { memory_max: None, memory_current: None, meminfo: None, status: None };
    assert_eq!(chain.sample_files(&none, &t), None);
    let no_cgroup = DefaultMemoryPressureSource::new(b"");
    assert!(no_cgroup.cgroup.is_none());
}

#[test]
fn hysteresis_holds() {
    let mut smoother = PressureSmoother::new(3000);
    assert_eq!(smoother.filter(MemoryPressure::Severe, 0), MemoryPressure::Severe);
    assert_eq!(smoother.filter(MemoryPressure::Low, 1000), MemoryPressure::Severe);
    assert_eq!(smoother.filter(MemoryPressure::Low, 3100), MemoryPressure::Low);
}

#[test]
fn escalation_is_immediate_and_equal_levels_restart_the_window() {
    let mut smoother = PressureSmoother::new(3000);
    assert_eq!(smoother.filter(MemoryPressure::Moderate, 0), MemoryPressure::Moderate);
    assert_eq!(smoother.filter(MemoryPressure::Severe, 10), MemoryPressure::Severe);
    assert_eq!(smoother.filter(MemoryPressure::Severe, 2000), MemoryPressure::Severe);
    assert_eq!(smoother.filter(MemoryPressure::Moderate, 4000), MemoryPressure::Severe);
    assert_eq!(smoother.filter(MemoryPressure::Moderate, 5000), MemoryPressure::Moderate);
    assert_eq!(smoother.last_change, 5000);
}

#[test]
fn monitor_publishes_only_when_sampled() {
    let mut smoother = PressureSmoother::new(3000);
    assert_eq!(monitor_step(&mut smoother, None, 0), None);
    let reading = MemoryPressureReading {
        pressure: MemoryPressure::Moderate,
        headroom_per_mille: 150,
        source: MemoryPressureSourceKind::SystemMemInfo,
    };
    assert_eq!(monitor_step(&mut smoother, Some(reading), 100), Some(MemoryPressure::Moderate));
    let low = MemoryPressureReading { pressure: MemoryPressure::Low, ..reading };
    assert_eq!(monitor_step(&mut smoother, Some(low), 200), Some(MemoryPressure::Moderate));
}

#[test]
fn mailbox_keeps_only_the_newest_level() {
    let mut mailbox = PressureMailbox::new();
    assert_eq!(mailbox.drain_latest(), None);
    mailbox.publish(MemoryPressure::Severe);
    mailbox.publish(MemoryPressure::Moderate);
    assert_eq!(mailbox.drain_latest(), Some(MemoryPressure::Moderate));
    assert_eq!(mailbox.drain_latest(), None);
}
