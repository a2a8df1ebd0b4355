use vstd::prelude::*;

use crate::metrics::{build_record, derived_from};
use crate::types::{ProcessRecord, RawStat};
use crate::userlookup::get_user;

verus! {

/// One refresh cycle's flat process collection: every raw record the OS
/// source fully resolved, turned into a finished `ProcessRecord` with its
/// metrics, in the order the source handed them over. Records the source
/// could not resolve were already dropped by the caller and stay out of
/// this cycle, as the refresh design asks.
pub fn build_snapshot(
    raws: Vec<RawStat>,
    tick_rate: u64,
    uptime_secs: u64,
    page_size_kb: u64,
    total_mem_kb: u64,
) -> (r: Vec<ProcessRecord>)
    requires
        tick_rate >= 1,
        forall|i: int|
            0 <= i < raws@.len() ==> (#[trigger] raws@[i].rss) * page_size_kb <= u64::MAX,
    ensures
        r@.len() == raws@.len(),
        forall|i: int|
            0 <= i < r@.len() ==> derived_from(
                #[trigger] r@[i],
                raws@[i],
                tick_rate,
                uptime_secs,
                page_size_kb,
                total_mem_kb,
            ),
{
    let ghost orig: Seq<RawStat> = raws@;
    let mut rest = raws;
    let mut out: Vec<ProcessRecord> = Vec::new();
    while rest.len() > 0
        invariant
            tick_rate >= 1,
            forall|i: int| 0 <= i < orig.len() ==> (#[trigger] orig[i].rss) * page_size_kb
                <= u64::MAX,
            out@.len() + rest@.len() == orig.len(),
            rest@ == orig.subrange(out@.len() as int, orig.len() as int),
            forall|i: int|
                0 <= i < out@.len() ==> derived_from(
                    #[trigger] out@[i],
                    orig[i],
                    tick_rate,
                    uptime_secs,
                    page_size_kb,
                    total_mem_kb,
                ),
        decreases rest@.len(),
    {
        let raw = rest.remove(0);
        proof {
            assert(raw == orig[out@.len() as int]);
        }
        let user = get_user(raw.ruid);
        let rec = build_record(raw, user, tick_rate, uptime_secs, page_size_kb, total_mem_kb);
        out.push(rec);
        proof {
            assert(rest@ =~= orig.subrange(out@.len() as int, orig.len() as int));
        }
    }
    out
}

} // verus!
