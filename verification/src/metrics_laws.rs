//! What the load of the processor amounts to.
use vstd::prelude::*;
use crate::metrics::{
    aggregate_line, core_count, core_line, counter_words, idle_of, load_since, numbers, sum_of,
    CpuTimes,
};
use crate::text::{dec, has_prefix, words};
use crate::text_laws::law_numbers_are_read;

verus! {

/// The load between two reports: of all time that went by, the part that was not idle. Waiting for
/// input and output counts as idle.
pub proof fn law_load(prev: CpuTimes, ns: Seq<int>, cores: int)
    requires
        ns.len() >= 5,
        forall|i: int| 0 <= i < ns.len() ==> #[trigger] ns[i] >= 0,
        prev.idle <= ns[3] + ns[4],
        prev.total < sum_of(ns) <= u64::MAX,
        ns[3] + ns[4] - prev.idle <= sum_of(ns) - prev.total,
        1 <= cores <= u32::MAX,
    ensures
        ({
            let load = load_since(Some(prev), ns, cores);
            &&& load is Some
            &&& load->0.total + prev.total == sum_of(ns)
            &&& load->0.busy + (ns[3] + ns[4] - prev.idle) == load->0.total
            &&& load->0.num_cores == cores
        }),
        load_since(None, ns, cores) is None,
{
}

/// All time is the sum of the counters.
pub proof fn law_counters_add_up(ns: Seq<int>, n: int)
    ensures
        sum_of(Seq::empty()) == 0,
        sum_of(ns.push(n)) == sum_of(ns) + n,
{
    assert(ns.push(n).drop_last() =~= ns);
}

/// Idle time is the fourth counter, and the fifth where there is one.
pub proof fn law_idle(ns: Seq<int>)
    requires
        ns.len() >= 4,
    ensures
        ns.len() == 4 ==> idle_of(ns) == ns[3],
        ns.len() > 4 ==> idle_of(ns) == ns[3] + ns[4],
{
}

/// Each core has a line of its own, with a number behind the word.
pub proof fn law_cores(ls: Seq<Seq<char>>, line: Seq<char>)
    ensures
        core_count(Seq::empty()) == 0,
        core_count(ls.push(line)) == core_count(ls) + (if core_line(line) {
            1int
        } else {
            0int
        }),
        line.len() > 3 && line[0] == 'c' && line[1] == 'p' && line[2] == 'u' && '0' <= line[3] <= '9'
            ==> core_line(line),
        line.len() > 3 && line[3] == ' ' ==> !core_line(line),
{
    assert(ls.push(line).drop_last() =~= ls);
    reveal_strlit("cpu ");
    reveal_strlit("cpu");
    if line.len() > 3 && line[0] == 'c' && line[1] == 'p' && line[2] == 'u' && '0' <= line[3]
        <= '9' {
        assert(line.subrange(0, 3) =~= "cpu"@);
        if has_prefix(line, "cpu "@) {
            assert(line.subrange(0, 4)[3] == ' ');
        }
    }
}

/// The line of all cores together is the last that begins with the word and a space.
pub proof fn law_line_of_all_cores(ls: Seq<Seq<char>>, line: Seq<char>)
    ensures
        has_prefix(line, "cpu "@) ==> aggregate_line(ls.push(line)) == Some(line),
        !has_prefix(line, "cpu "@) ==> aggregate_line(ls.push(line)) == aggregate_line(ls),
        aggregate_line(Seq::empty()) is None,
{
    assert(ls.push(line).drop_last() =~= ls);
}

/// The counters are the numbers behind the first word, eight at most.
pub proof fn law_counters(line: Seq<char>, ws: Seq<Seq<char>>, n: u64, i: int)
    ensures
        numbers(ws.push(dec(n as nat))) == numbers(ws).push(n as int),
        counter_words(line).len() <= 8,
        0 <= i < 8 && i + 1 < words(line).len() ==> i < counter_words(line).len()
            && counter_words(line)[i] == words(line)[i + 1],
{
    assert(ws.push(dec(n as nat)).drop_last() =~= ws);
    law_numbers_are_read(n as nat, u64::MAX as int);
}

} // verus!
