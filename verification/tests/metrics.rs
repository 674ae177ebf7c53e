use hyprdeck::cli::MetricsStatusArgs;
use hyprdeck::commands::modules::metrics::{
    frequency_hz, memory_metrics, parse_cpu_ticks, parse_net_dev, parse_proc_values, select_metrics,
    select_storage, storage_candidates, CpuTicks, FsStats, MetricsError, MetricsFormat,
};

#[test]
fn metrics_selection() {
    let all = select_metrics(&MetricsStatusArgs::default());
    assert!(all.cpu && all.memory && all.storage && all.network && all.temperatures && all.sample);
    assert_eq!(all.format, MetricsFormat::Human { verbose: false });
    let mem = select_metrics(&MetricsStatusArgs { memory: true, json: true, ..Default::default() });
    assert!(mem.memory && !mem.cpu && !mem.temperatures && !mem.sample);
    assert_eq!(mem.format, MetricsFormat::Json);
    let cpu = select_metrics(&MetricsStatusArgs { cpu: true, short: true, ..Default::default() });
    assert!(cpu.cpu && cpu.temperatures && cpu.sample && !cpu.network);
    assert_eq!(cpu.format, MetricsFormat::Short);
}

#[test]
fn cpu_ticks_from_proc_stat() {
    let stat = "cpu  10 2 3 40 5 6 7 x\ncpu0 1 1 1 1\n";
    assert_eq!(parse_cpu_ticks(stat), Ok(CpuTicks { total: 73, idle: 45 }));
    assert_eq!(parse_cpu_ticks("cpu 1 2\n"), Ok(CpuTicks { total: 3, idle: 0 }));
    assert_eq!(parse_cpu_ticks(""), Err(MetricsError::EmptyStat));
    assert_eq!(
        parse_cpu_ticks("cpu 18446744073709551615 1\n"),
        Err(MetricsError::Overflow)
    );
}

#[test]
fn memory_from_meminfo() {
    let text = "MemTotal: 1000 kB\nMemAvailable:  400 kB\nSwapTotal: 50 kB\nSwapFree: 80 kB\nMemTotal: 2000 kB\n";
    let values = parse_proc_values(text);
    assert_eq!(values.iter().filter(|v| v.key == "MemTotal").count(), 1);
    let m = memory_metrics(&values).unwrap();
    assert_eq!(m.total_bytes, 2_048_000);
    assert_eq!(m.available_bytes, 409_600);
    assert_eq!(m.used_bytes, 1_638_400);
    assert_eq!(m.swap_total_bytes, 51_200);
    assert_eq!(m.swap_used_bytes, 0);
    let huge = parse_proc_values("MemTotal: 18446744073709551615 kB\n");
    assert_eq!(memory_metrics(&huge), Err(MetricsError::Overflow));
}

#[test]
fn network_counters_from_net_dev() {
    let text = "Inter-|   Receive\n face |bytes\n    lo: 9 0 0 0 0 0 0 0 9 0\n  eth0: 100 1 0 0 0 0 0 0 200 2\ndocker0: 5 0 0 0 0 0 0 0 5\nwlan0: 1 2 3\n  eth0: 300 1 0 0 0 0 0 0 400 2\n";
    let counters = parse_net_dev(text);
    assert_eq!(counters.len(), 1);
    assert_eq!(counters[0].name, "eth0");
    assert_eq!((counters[0].receive_bytes, counters[0].transmit_bytes), (300, 400));
}

#[test]
fn storage_from_mounts() {
    let mounts = "/dev/sda1 / ext4 rw 0 0\nproc /proc proc rw 0 0\n/dev/sdb1 /mnt/My\\040Disk vfat rw 0 0\n/dev/sda1 / ext4 rw 0 0\n";
    let cands = storage_candidates(mounts, None);
    assert_eq!(cands.iter().map(|c| c.mount.as_str()).collect::<Vec<_>>(), vec!["/", "/mnt/My Disk", "/"]);
    let s = FsStats { total: 10, used: 4, available: 6 };
    let report = select_storage(&cands, &vec![None, Some(s), Some(s)], None).unwrap();
    assert_eq!(report.iter().map(|e| e.mount.as_str()).collect::<Vec<_>>(), vec!["/mnt/My Disk", "/"]);
    let report = select_storage(&cands, &vec![Some(s), Some(s), Some(s)], None).unwrap();
    assert_eq!(report.len(), 2);
    let only = storage_candidates(mounts, Some("/mnt/My Disk"));
    assert_eq!(only.len(), 1);
    assert_eq!(only[0].device, "/dev/sdb1");
    assert_eq!(
        select_storage(&only, &vec![None], Some("/mnt/My Disk")),
        Err(MetricsError::MountNotFound("/mnt/My Disk".to_string()))
    );
    assert_eq!(MetricsError::MountNotFound("/x".into()).message(), "mount not found or unavailable: /x");
}

#[test]
fn cpu_frequency_from_sysfs() {
    assert_eq!(frequency_hz(" 2400000\n"), Ok(Some(2_400_000_000)));
    assert_eq!(frequency_hz("n/a"), Ok(None));
    assert_eq!(frequency_hz("18446744073709552"), Err(MetricsError::Overflow));
}
