//! System metrics: what is reported, and how raw readings are turned into it.
use vstd::prelude::*;
use crate::api::downloads::DiskUsage;
use crate::text::{
    chars_of, has_prefix, is_digit, lines, lines_of, number_value, opt_view, parse_unsigned,
    split_whitespace, starts_with, views, words,
};

verus! {

/// Memory and load of one GPU.
#[derive(Debug, Clone)]
pub struct GpuMemoryInfo {
    pub gpu_type: String,
    pub device_index: u32,
    pub total_mb: u64,
    pub used_mb: u64,
    pub free_mb: u64,
    pub utilization_percent: Option<u64>,
}

/// A reservation of the whole system.
#[derive(Debug, Clone)]
pub struct ActiveReservationInfo {
    pub reservation_id: String,
    pub user_id: String,
    pub user_display_name: Option<String>,
    pub end_time: String,
}

/// The last crash of a backend.
#[derive(Debug, Clone, PartialEq, Eq)]
pub struct LastCrashSummary {
    pub occurred_at: String,
    pub exit_code: Option<i64>,
    pub oom_killed: bool,
    /// Whether the end of the backend's log was kept.
    pub log_path_present: bool,
}

/// The model of a crash.
pub struct CrashView {
    pub occurred_at: Seq<char>,
    pub exit_code: Option<i64>,
    pub oom_killed: bool,
    pub log_path_present: bool,
}

impl View for LastCrashSummary {
    type V = CrashView;

    open spec fn view(&self) -> CrashView {
        CrashView {
            occurred_at: self.occurred_at@,
            exit_code: self.exit_code,
            oom_killed: self.oom_killed,
            log_path_present: self.log_path_present,
        }
    }
}

/// The state of a backend's container.
#[derive(Debug, Clone)]
pub struct ContainerStatus {
    pub model_id: String,
    pub backend_type: String,
    pub healthy: bool,
    pub state: Option<String>,
    pub vram_used_mb: Option<u64>,
    /// What the supervisor thinks of the backend.
    pub fsm_state: Option<String>,
    /// Whether the model has been taken out of use.
    pub quarantined: bool,
    pub quarantine_reason: Option<String>,
    pub last_crash: Option<LastCrashSummary>,
}

/// The model of a container's state.
pub struct StatusView {
    pub model_id: Seq<char>,
    pub backend_type: Seq<char>,
    pub healthy: bool,
    pub state: Option<Seq<char>>,
    pub vram_used_mb: Option<u64>,
    pub fsm_state: Option<Seq<char>>,
    pub quarantined: bool,
    pub quarantine_reason: Option<Seq<char>>,
    pub last_crash: Option<CrashView>,
}

impl View for ContainerStatus {
    type V = StatusView;

    open spec fn view(&self) -> StatusView {
        StatusView {
            model_id: self.model_id@,
            backend_type: self.backend_type@,
            healthy: self.healthy,
            state: opt_view(self.state),
            vram_used_mb: self.vram_used_mb,
            fsm_state: opt_view(self.fsm_state),
            quarantined: self.quarantined,
            quarantine_reason: opt_view(self.quarantine_reason),
            last_crash: match self.last_crash {
                Some(c) => Some(c@),
                None => None,
            },
        }
    }
}

/// Size and use of a file system, as reported.
#[derive(Debug, Clone, Copy, PartialEq, Eq)]
pub struct DiskInfo {
    pub total_bytes: u64,
    pub used_bytes: u64,
    pub free_bytes: u64,
}

impl From<DiskUsage> for DiskInfo {
    fn from(d: DiskUsage) -> (r: DiskInfo) {
        DiskInfo {
            total_bytes: d.total_bytes,
            used_bytes: d.used_bytes,
            free_bytes: d.free_bytes,
        }
    }
}

impl vstd::std_specs::convert::FromSpecImpl<DiskUsage> for DiskInfo {
    open spec fn obeys_from_spec() -> bool {
        true
    }

    open spec fn from_spec(d: DiskUsage) -> DiskInfo {
        DiskInfo {
            total_bytes: d.total_bytes,
            used_bytes: d.used_bytes,
            free_bytes: d.free_bytes,
        }
    }
}

/// Time counters of all CPUs together.
#[derive(Debug, Clone, Copy, PartialEq, Eq)]
pub struct CpuTimes {
    pub idle: u64,
    pub total: u64,
}

/// Time spent since the reading before: how much of it was busy, and on how many cores.
#[derive(Debug, Clone, Copy, PartialEq, Eq)]
pub struct CpuLoad {
    pub busy: u64,
    pub total: u64,
    pub num_cores: u32,
}

/// Turns readings of CPU times into loads.
#[derive(Debug)]
pub struct CpuSampler {
    prev: Option<CpuTimes>,
}

/// Whether a line counts one core: `cpu` and a digit.
pub open spec fn core_line(line: Seq<char>) -> bool {
    &&& !has_prefix(line, "cpu "@)
    &&& has_prefix(line, "cpu"@)
    &&& line.len() > 3
    &&& is_digit(line[3])
}

/// The number of cores.
pub open spec fn core_count(ls: Seq<Seq<char>>) -> int
    decreases ls.len(),
{
    if ls.len() == 0 {
        0
    } else {
        core_count(ls.drop_last()) + if core_line(ls.last()) {
            1int
        } else {
            0
        }
    }
}

/// The last line with the counters of all CPUs together.
pub open spec fn aggregate_line(ls: Seq<Seq<char>>) -> Option<Seq<char>>
    decreases ls.len(),
{
    if ls.len() == 0 {
        None
    } else if has_prefix(ls.last(), "cpu "@) {
        Some(ls.last())
    } else {
        aggregate_line(ls.drop_last())
    }
}

/// The numbers among some words.
pub open spec fn numbers(ws: Seq<Seq<char>>) -> Seq<int>
    decreases ws.len(),
{
    if ws.len() == 0 {
        Seq::empty()
    } else {
        let before = numbers(ws.drop_last());
        match number_value(ws.last(), u64::MAX as int) {
            Ok(n) => before.push(n),
            Err(_) => before,
        }
    }
}

/// The words that hold the counters: at most eight, after the first word.
pub open spec fn counter_words(line: Seq<char>) -> Seq<Seq<char>> {
    let ws = words(line);
    if ws.len() <= 1 {
        Seq::empty()
    } else if ws.len() <= 9 {
        ws.subrange(1, ws.len() as int)
    } else {
        ws.subrange(1, 9)
    }
}

/// A sum.
pub open spec fn sum_of(ns: Seq<int>) -> int
    decreases ns.len(),
{
    if ns.len() == 0 {
        0
    } else {
        sum_of(ns.drop_last()) + ns.last()
    }
}

/// The idle time among the counters: the fourth, and the fifth where there is one.
pub open spec fn idle_of(ns: Seq<int>) -> int {
    ns[3] + if ns.len() > 4 {
        ns[4]
    } else {
        0
    }
}

/// The counters of a report; `None` where it has fewer than four.
pub open spec fn report_counters(text: Seq<char>) -> Option<Seq<int>> {
    match aggregate_line(lines_of(text)) {
        Some(line) => if numbers(counter_words(line)).len() >= 4 {
            Some(numbers(counter_words(line)))
        } else {
            None
        },
        None => None,
    }
}

/// The difference of two counters; zero where the later is smaller.
pub open spec fn since(later: int, earlier: int) -> int {
    if later >= earlier {
        later - earlier
    } else {
        0
    }
}

/// The load since the reading before; `None` on the first reading, and where no time has passed.
pub open spec fn load_since(prev: Option<CpuTimes>, ns: Seq<int>, cores: int) -> Option<CpuLoad> {
    match prev {
        None => None,
        Some(p) => {
            let d_total = since(sum_of(ns), p.total as int);
            let d_idle = since(idle_of(ns), p.idle as int);
            if d_total == 0 {
                None
            } else {
                Some(
                    CpuLoad {
                        busy: (d_total - d_idle) as u64,
                        total: d_total as u64,
                        num_cores: if cores >= 1 {
                            cores as u32
                        } else {
                            1
                        },
                    },
                )
            }
        },
    }
}

/// The sum of the first numbers is at most the sum of all.
proof fn lemma_sum_grows(ns: Seq<int>, i: int)
    requires
        0 <= i <= ns.len(),
        forall|k: int| 0 <= k < ns.len() ==> 0 <= #[trigger] ns[k],
    ensures
        0 <= sum_of(ns.take(i)) <= sum_of(ns),
    decreases ns.len(),
{
    if i == ns.len() {
        assert(ns.take(i) =~= ns);
        if i > 0 {
            assert forall|k: int| 0 <= k < ns.drop_last().len() implies 0
                <= #[trigger] ns.drop_last()[k] by {
                assert(ns[k] >= 0);
            }
            lemma_sum_grows(ns.drop_last(), i - 1);
            assert(ns[i - 1] >= 0);
        }
    } else {
        assert forall|k: int| 0 <= k < ns.drop_last().len() implies 0
            <= #[trigger] ns.drop_last()[k] by {
            assert(ns[k] >= 0);
        }
        lemma_sum_grows(ns.drop_last(), i);
        assert(ns.drop_last().take(i) =~= ns.take(i));
        assert(ns[ns.len() - 1] >= 0);
    }
}

/// Whether a line counts one core.
fn is_core_line(line: &str) -> (r: bool)
    ensures
        r == core_line(line@),
{
    if starts_with(line, "cpu ") || !starts_with(line, "cpu") {
        return false;
    }
    let v = chars_of(line);
    v.len() > 3 && '0' <= v[3] && v[3] <= '9'
}

/// The numbers among the words that hold the counters.
fn read_counters(line: &str) -> (r: Vec<u64>)
    ensures
        r@.len() == numbers(counter_words(line@)).len(),
        forall|i: int| 0 <= i < r@.len() ==> #[trigger] r@[i] == numbers(counter_words(line@))[i],
{
    let ws = split_whitespace(line);
    let ghost all = words(line@);
    let ghost ours = counter_words(line@);
    assert(all.len() == ws@.len());
    let mut out: Vec<u64> = Vec::new();
    let mut i: usize = 1;
    assert(ours.take(0) =~= Seq::empty());
    while i < ws.len() && i < 9
        invariant
            all == views(ws@),
            all == words(line@),
            ours == counter_words(line@),
            1 <= i,
            i <= 9,
            ws@.len() >= 1 ==> i <= ws@.len(),
            ws@.len() == 0 ==> i == 1,
            out@.len() == numbers(ours.take(i - 1)).len(),
            forall|k: int| 0 <= k < out@.len() ==> #[trigger] out@[k] == numbers(ours.take(i - 1))[k],
        decreases 9 - i,
    {
        let ghost k = i - 1;
        assert(ours[k] == all[i as int]);
        assert(all[i as int] == ws@[i as int]@);
        assert(ours.take(k + 1).drop_last() =~= ours.take(k));
        match parse_unsigned(&ws[i], u64::MAX) {
            Ok(n) => {
                out.push(n);
            },
            Err(_) => {},
        }
        i += 1;
    }
    assert(ours.take(i - 1) =~= ours);
    out
}

/// Whether a report can be taken in after the reading `last`.
pub open spec fn sample_fits(last: Option<CpuTimes>, text: Seq<char>) -> bool {
    &&& core_count(lines_of(text)) <= u32::MAX
    &&& report_counters(text) matches Some(ns) ==> {
        &&& sum_of(ns) <= u64::MAX
        &&& last matches Some(p) ==> since(idle_of(ns), p.idle as int) <= since(
            sum_of(ns),
            p.total as int,
        ) || since(sum_of(ns), p.total as int) == 0
    }
}

/// The difference of two counters.
fn grown(later: u64, earlier: u64) -> (r: u64)
    ensures
        r == since(later as int, earlier as int),
{
    if later >= earlier {
        later - earlier
    } else {
        0
    }
}

/// The times that the counters add up to.
fn times_of(fields: &Vec<u64>, total: u64, ns: Ghost<Seq<int>>) -> (r: CpuTimes)
    requires
        fields@.len() == ns@.len(),
        ns@.len() >= 4,
        forall|j: int| 0 <= j < fields@.len() ==> #[trigger] fields@[j] == ns@[j],
        total == sum_of(ns@),
    ensures
        r == (CpuTimes { idle: idle_of(ns@) as u64, total }),
        idle_of(ns@) <= u64::MAX,
        0 <= idle_of(ns@),
{
    proof {
        assert forall|j: int| 0 <= j < ns@.len() implies 0 <= #[trigger] ns@[j] by {
            assert(fields@[j] == ns@[j]);
        }
        lemma_idle_within_sum(ns@);
    }
    assert(fields@[3] == ns@[3]);
    let mut idle: u64 = fields[3];
    if fields.len() > 4 {
        assert(fields@[4] == ns@[4]);
        idle = idle + fields[4];
    }
    CpuTimes { idle, total }
}

/// The number of cores in a report and, where there are enough, its counters.
fn scan_report(contents: &str) -> (r: (usize, Option<Vec<u64>>))
    ensures
        r.0 == core_count(lines_of(contents@)),
        match r.1 {
            Some(f) => report_counters(contents@) is Some && f@.len() == report_counters(
                contents@,
            )->0.len() && forall|j: int|
                0 <= j < f@.len() ==> #[trigger] f@[j] == report_counters(contents@)->0[j],
            None => report_counters(contents@) is None,
        },
{
    let ls = lines(contents);
    let ghost all = lines_of(contents@);
    let mut num_cores: usize = 0;
    let mut aggregate: Option<usize> = None;
    let mut i: usize = 0;
    assert(all.take(0) =~= Seq::empty());
    while i < ls.len()
        invariant
            all == views(ls@),
            i <= ls@.len(),
            num_cores == core_count(all.take(i as int)),
            num_cores <= i,
            match aggregate {
                Some(k) => k < i && aggregate_line(all.take(i as int)) == Some(all[k as int]),
                None => aggregate_line(all.take(i as int)) is None,
            },
        decreases ls@.len() - i,
    {
        proof {
            assert(all.take(i + 1).drop_last() =~= all.take(i as int));
            assert(all.take(i + 1).last() == ls@[i as int]@);
        }
        if starts_with(&ls[i], "cpu ") {
            aggregate = Some(i);
        } else if is_core_line(&ls[i]) {
            num_cores += 1;
        }
        i += 1;
    }
    assert(all.take(i as int) =~= all);
    let fields = match aggregate {
        Some(k) => {
            assert(all[k as int] == ls@[k as int]@);
            read_counters(&ls[k])
        },
        None => {
            return (num_cores, None);
        },
    };
    if fields.len() < 4 {
        return (num_cores, None);
    }
    (num_cores, Some(fields))
}

impl CpuSampler {
    /// The reading before.
    pub closed spec fn last(&self) -> Option<CpuTimes> {
        self.prev
    }

    /// No reading yet.
    pub fn new() -> (r: CpuSampler)
        ensures
            r.last() is None,
    {
        CpuSampler { prev: None }
    }

    /// Whether a report can be taken in: its counters add up within 64 bits, and the idle time has
    /// not grown by more than the whole.
    pub fn in_range(&self, contents: &str) -> (r: bool)
        ensures
            r == sample_fits(self.last(), contents@),
    {
        let (num_cores, counters) = scan_report(contents);
        if num_cores > u32::MAX as usize {
            return false;
        }
        let fields = match counters {
            Some(f) => f,
            None => {
                return true;
            },
        };
        let ghost ns = report_counters(contents@)->0;
        let mut total: u64 = 0;
        let mut k: usize = 0;
        assert(ns.take(0) =~= Seq::empty());
        while k < fields.len()
            invariant
                fields@.len() == ns.len(),
                forall|j: int| 0 <= j < fields@.len() ==> #[trigger] fields@[j] == ns[j],
                report_counters(contents@) == Some(ns),
                k <= fields@.len(),
                total == sum_of(ns.take(k as int)),
            decreases fields@.len() - k,
        {
            proof {
                assert(ns.take(k + 1).drop_last() =~= ns.take(k as int));
                assert forall|j: int| 0 <= j < ns.len() implies 0 <= #[trigger] ns[j] by {
                    assert(fields@[j] == ns[j]);
                }
                lemma_sum_grows(ns, k + 1);
            }
            assert(fields@[k as int] == ns[k as int]);
            if total > u64::MAX - fields[k] {
                return false;
            }
            total += fields[k];
            k += 1;
        }
        assert(ns.take(k as int) =~= ns);
        let current = times_of(&fields, total, Ghost(ns));
        match self.prev {
            Some(p) => {
                let d_total: u64 = grown(current.total, p.total);
                let d_idle: u64 = grown(current.idle, p.idle);
                d_idle <= d_total || d_total == 0
            },
            None => true,
        }
    }

    /// Takes in a report of CPU times, in the form of `/proc/stat`, and gives the load since the
    /// report before. A report without enough counters changes nothing.
    pub fn sample(&mut self, contents: &str) -> (r: Option<CpuLoad>)
        requires
            sample_fits(old(self).last(), contents@),
        ensures
            match report_counters(contents@) {
                None => r is None && final(self).last() == old(self).last(),
                Some(ns) => {
                    &&& r == load_since(old(self).last(), ns, core_count(lines_of(contents@)))
                    &&& final(self).last() == Some(
                        CpuTimes { idle: idle_of(ns) as u64, total: sum_of(ns) as u64 },
                    )
                },
            },
    {
        let (cores, counters) = scan_report(contents);
        let num_cores: u32 = cores as u32;
        let fields = match counters {
            Some(f) => f,
            None => {
                return None;
            },
        };
        let ghost ns = report_counters(contents@)->0;
        let mut total: u64 = 0;
        let mut k: usize = 0;
        assert(ns.take(0) =~= Seq::empty());
        while k < fields.len()
            invariant
                fields@.len() == ns.len(),
                forall|j: int| 0 <= j < fields@.len() ==> #[trigger] fields@[j] == ns[j],
                sum_of(ns) <= u64::MAX,
                k <= fields@.len(),
                total == sum_of(ns.take(k as int)),
            decreases fields@.len() - k,
        {
            proof {
                assert(ns.take(k + 1).drop_last() =~= ns.take(k as int));
                assert forall|j: int| 0 <= j < ns.len() implies 0 <= #[trigger] ns[j] by {
                    assert(fields@[j] == ns[j]);
                }
                lemma_sum_grows(ns, k + 1);
            }
            assert(fields@[k as int] == ns[k as int]);
            total += fields[k];
            k += 1;
        }
        assert(ns.take(k as int) =~= ns);
        let current = times_of(&fields, total, Ghost(ns));
        let result = match self.prev {
            Some(p) => {
                let d_total: u64 = grown(current.total, p.total);
                let d_idle: u64 = grown(current.idle, p.idle);
                if d_total == 0 {
                    None
                } else {
                    Some(
                        CpuLoad {
                            busy: d_total - d_idle,
                            total: d_total,
                            num_cores: if num_cores >= 1 {
                                num_cores
                            } else {
                                1
                            },
                        },
                    )
                }
            },
            None => None,
        };
        self.prev = Some(current);
        result
    }
}

/// The idle time is at most the sum of all counters.
proof fn lemma_idle_within_sum(ns: Seq<int>)
    requires
        ns.len() >= 4,
        forall|k: int| 0 <= k < ns.len() ==> 0 <= #[trigger] ns[k],
    ensures
        0 <= idle_of(ns) <= sum_of(ns),
{
    if ns.len() == 4 {
        lemma_sum_grows(ns, 3);
        assert(ns.take(3) =~= ns.drop_last());
        assert(sum_of(ns) == sum_of(ns.take(3)) + ns[3]);
        assert(ns[3] >= 0);
    } else {
        lemma_sum_grows(ns, 5);
        assert(ns.take(5).drop_last() =~= ns.take(4));
        assert(ns.take(4).drop_last() =~= ns.take(3));
        lemma_sum_grows(ns, 3);
        assert(sum_of(ns.take(5)) == sum_of(ns.take(4)) + ns[4]);
        assert(sum_of(ns.take(4)) == sum_of(ns.take(3)) + ns[3]);
        assert(ns[3] >= 0 && ns[4] >= 0);
    }
}

} // verus!
