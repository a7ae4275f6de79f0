//! Loads of the host.
use sovereign_engine::api::downloads::DiskUsage;
use sovereign_engine::metrics::{CpuLoad, CpuSampler, DiskInfo};

fn stat(idle: u64, iowait: u64, busy: u64) -> String {
    format!("cpu  {busy} 0 0 {idle} {iowait} 0 0 0 9 9\ncpu0 1 1\ncpu1 2 2\nintr 5\n")
}

#[test]
fn loads_are_differences() {
    let mut s = CpuSampler::new();
    assert_eq!(s.sample(&stat(100, 0, 50)), None);
    assert_eq!(
        s.sample(&stat(120, 10, 120)),
        Some(CpuLoad {
            busy: 70,
            total: 100,
            num_cores: 2
        })
    );
    assert_eq!(s.sample(&stat(120, 10, 120)), None);
}

#[test]
fn short_reports_are_left_out() {
    let mut s = CpuSampler::new();
    s.sample(&stat(100, 0, 50));
    assert_eq!(s.sample("cpu  1 2 3\n"), None);
    assert_eq!(s.sample("intr 5\n"), None);
    assert_eq!(
        s.sample("cpu  60 0 0 190\n"),
        Some(CpuLoad {
            busy: 10,
            total: 100,
            num_cores: 1
        })
    );
}

#[test]
fn reports_out_of_range_are_noticed() {
    let mut s = CpuSampler::new();
    s.sample(&stat(100, 0, 50));
    assert!(s.in_range(&stat(100, 0, 51)));
    assert!(!s.in_range(&stat(200, 0, 0)));
    assert!(!s.in_range("cpu  18446744073709551615 1 0 0\n"));
    assert!(s.in_range("nothing"));
}

#[test]
fn disks_keep_their_figures() {
    let d = DiskInfo::from(DiskUsage {
        total_bytes: 3,
        used_bytes: 2,
        free_bytes: 1,
    });
    assert_eq!((d.total_bytes, d.used_bytes, d.free_bytes), (3, 2, 1));
}
