use vstd::prelude::*;
use crate::process::ProcessInfo;
use crate::text::{decimal, decimal_text};
use crate::ui_state::ProcessSortMode;
use crate::vendors::{chars_of, contains_seq, contains_text};
use vstd::string::StrSliceExecFns;

verus! {

broadcast use vstd::seq_lib::group_to_multiset_ensures;

/// `a` is not after `b` in lexicographic order of code points.
pub open spec fn text_le(a: Seq<char>, b: Seq<char>) -> bool
    decreases a.len(),
{
    if a.len() == 0 {
        true
    } else if b.len() == 0 {
        false
    } else if (a[0] as u32) < (b[0] as u32) {
        true
    } else if (a[0] as u32) > (b[0] as u32) {
        false
    } else {
        text_le(a.drop_first(), b.drop_first())
    }
}

proof fn lemma_text_le_total(a: Seq<char>, b: Seq<char>)
    ensures
        text_le(a, b) || text_le(b, a),
    decreases a.len(),
{
    if a.len() > 0 && b.len() > 0 && a[0] as u32 == b[0] as u32 {
        lemma_text_le_total(a.drop_first(), b.drop_first());
    }
}

proof fn lemma_text_le_trans(a: Seq<char>, b: Seq<char>, c: Seq<char>)
    requires
        text_le(a, b),
        text_le(b, c),
    ensures
        text_le(a, c),
    decreases a.len(),
{
    if a.len() > 0 && b.len() > 0 && c.len() > 0 && a[0] as u32 == b[0] as u32 && b[0] as u32
        == c[0] as u32 {
        lemma_text_le_trans(a.drop_first(), b.drop_first(), c.drop_first());
    }
}

/// `a` may stand before `b` in a list sorted by `mode`: CPU and memory
/// descending, name and pid ascending.
pub open spec fn precedes(mode: ProcessSortMode, a: ProcessInfo, b: ProcessInfo) -> bool {
    match mode {
        ProcessSortMode::Cpu => a.cpu_usage >= b.cpu_usage,
        ProcessSortMode::Memory => a.memory_kb >= b.memory_kb,
        ProcessSortMode::Name => text_le(a.name@, b.name@),
        ProcessSortMode::Pid => a.pid <= b.pid,
    }
}

pub open spec fn sorted_by(mode: ProcessSortMode, s: Seq<ProcessInfo>) -> bool {
    forall|i: int, j: int| 0 <= i < j < s.len() ==> precedes(mode, #[trigger] s[i], #[trigger] s[j])
}

proof fn lemma_precedes_total(mode: ProcessSortMode, a: ProcessInfo, b: ProcessInfo)
    ensures
        precedes(mode, a, b) || precedes(mode, b, a),
{
    lemma_text_le_total(a.name@, b.name@);
}

proof fn lemma_precedes_trans(mode: ProcessSortMode, a: ProcessInfo, b: ProcessInfo, c: ProcessInfo)
    requires
        precedes(mode, a, b),
        precedes(mode, b, c),
    ensures
        precedes(mode, a, c),
{
    if mode == ProcessSortMode::Name {
        lemma_text_le_trans(a.name@, b.name@, c.name@);
    }
}

fn text_le_exec(a: &Vec<char>, b: &Vec<char>) -> (r: bool)
    ensures
        r == text_le(a@, b@),
{
    let mut i: usize = 0;
    assert(a@.subrange(0, a@.len() as int) =~= a@);
    assert(b@.subrange(0, b@.len() as int) =~= b@);
    while i < a.len() && i < b.len() && a[i] as u32 == b[i] as u32
        invariant
            i <= a@.len(),
            i <= b@.len(),
            text_le(a@, b@) == text_le(a@.subrange(i as int, a@.len() as int), b@.subrange(i as int, b@.len() as int)),
        decreases a@.len() - i,
    {
        proof {
            let sa = a@.subrange(i as int, a@.len() as int);
            let sb = b@.subrange(i as int, b@.len() as int);
            assert(sa.drop_first() =~= a@.subrange(i + 1, a@.len() as int));
            assert(sb.drop_first() =~= b@.subrange(i + 1, b@.len() as int));
        }
        i += 1;
    }
    proof {
        let sa = a@.subrange(i as int, a@.len() as int);
        let sb = b@.subrange(i as int, b@.len() as int);
        if i < a@.len() && i < b@.len() {
            assert(sa[0] == a@[i as int] && sb[0] == b@[i as int]);
        }
    }
    if i == a.len() {
        true
    } else if i == b.len() {
        false
    } else {
        (a[i] as u32) < (b[i] as u32)
    }
}

/// Whether `a` may stand before `b` (see `precedes`).
pub fn precedes_exec(mode: ProcessSortMode, a: &ProcessInfo, b: &ProcessInfo) -> (r: bool)
    ensures
        r == precedes(mode, *a, *b),
{
    match mode {
        ProcessSortMode::Cpu => a.cpu_usage >= b.cpu_usage,
        ProcessSortMode::Memory => a.memory_kb >= b.memory_kb,
        ProcessSortMode::Name => {
            let x = chars_of(a.name.as_str());
            let y = chars_of(b.name.as_str());
            text_le_exec(&x, &y)
        },
        ProcessSortMode::Pid => a.pid <= b.pid,
    }
}

/// The processes ordered by `mode`; processes that tie keep their order.
pub fn sort_processes(processes: Vec<ProcessInfo>, mode: ProcessSortMode) -> (r: Vec<ProcessInfo>)
    ensures
        sorted_by(mode, r@),
        r@.to_multiset() == processes@.to_multiset(),
{
    let ghost all = processes@;
    let mut rest = processes;
    let mut out: Vec<ProcessInfo> = Vec::new();
    while rest.len() > 0
        invariant
            sorted_by(mode, out@),
            out@.to_multiset().add(rest@.to_multiset()) == all.to_multiset(),
        decreases rest@.len(),
    {
        let ghost before_rest = rest@;
        let x = rest.remove(0);
        proof {
            assert(before_rest.remove(0) == rest@);
        }
        let mut p: usize = 0;
        while p < out.len() && precedes_exec(mode, &out[p], &x)
            invariant
                p <= out@.len(),
                forall|k: int| 0 <= k < p ==> precedes(mode, #[trigger] out@[k], x),
            decreases out@.len() - p,
        {
            p += 1;
        }
        let ghost old_out = out@;
        out.insert(p, x);
        proof {
            vstd::seq_lib::to_multiset_insert(old_out, p as int, x);
            assert(out@ == old_out.insert(p as int, x));
            if p < old_out.len() {
                lemma_precedes_total(mode, old_out[p as int], x);
            }
            assert forall|i: int, j: int| 0 <= i < j < out@.len() implies precedes(
                mode,
                #[trigger] out@[i],
                #[trigger] out@[j],
            ) by {
                if j < p {
                    assert(precedes(mode, old_out[i], old_out[j]));
                } else if j == p {
                } else if i > p {
                    assert(precedes(mode, old_out[i - 1], old_out[j - 1]));
                } else if i == p {
                    if j - 1 > p {
                        assert(precedes(mode, old_out[p as int], old_out[j - 1]));
                        lemma_precedes_trans(mode, x, old_out[p as int], old_out[j - 1]);
                    }
                } else {
                    assert(precedes(mode, old_out[i], old_out[j - 1]));
                }
            }
            assert(out@.to_multiset().add(rest@.to_multiset()) =~= all.to_multiset());
        }
    }
    assert(out@.to_multiset().add(rest@.to_multiset()) =~= out@.to_multiset());
    out
}


/// The top `limit` processes by `mode`: the first ones of a sorted
/// arrangement of all of them.
pub fn top_processes(processes: Vec<ProcessInfo>, mode: ProcessSortMode, limit: usize) -> (r: Vec<
    ProcessInfo,
>)
    ensures
        r@.len() == if limit < processes@.len() {
            limit as int
        } else {
            processes@.len() as int
        },
        exists|s: Seq<ProcessInfo>|
            sorted_by(mode, s) && s.to_multiset() == processes@.to_multiset() && r@ == s.subrange(
                0,
                r@.len() as int,
            ),
{
    let ghost input = processes@;
    let mut sorted = sort_processes(processes, mode);
    let ghost s = sorted@;
    proof {
        assert(s.to_multiset().len() == s.len());
        assert(input.to_multiset().len() == input.len());
    }
    if limit < sorted.len() {
        sorted.truncate(limit);
    }
    assert(sorted@ =~= s.subrange(0, sorted@.len() as int));
    sorted
}

/// What `to_lowercase` makes of a text.
pub uninterp spec fn lower_of(s: Seq<char>) -> Seq<char>;

/// Relies on `str::to_lowercase`: the lower-case form, which depends on the
/// characters alone.
#[verifier::external_body]
fn lowercase(s: &str) -> (r: String)
    ensures
        r@ == lower_of(s@),
{
    s.to_lowercase()
}

/// A process matches a lower-cased filter when its lower-cased name or
/// command line, or its pid in decimal, contains it.
pub open spec fn spec_matches(filter: Seq<char>, name: Seq<char>, cmd: Seq<char>, pid: u32) -> bool {
    contains_seq(name, filter) || contains_seq(cmd, filter) || contains_seq(decimal(pid as nat), filter)
}

/// `spec_matches` on texts already lower-cased.
pub fn process_matches(filter: &str, name: &str, cmd: &str, pid: u32) -> (r: bool)
    ensures
        r == spec_matches(filter@, name@, cmd@, pid),
{
    let n = chars_of(name);
    if contains_text(&n, filter) {
        return true;
    }
    let c = chars_of(cmd);
    if contains_text(&c, filter) {
        return true;
    }
    let p = decimal_text(pid as u64);
    let pc = chars_of(p.as_str());
    contains_text(&pc, filter)
}

/// The processes that a filter keeps, in order.
pub open spec fn filtered(s: Seq<ProcessInfo>, filter: Seq<char>) -> Seq<ProcessInfo>
    decreases s.len(),
{
    if s.len() == 0 {
        Seq::empty()
    } else {
        filtered(s.drop_last(), filter) + if filter.len() == 0 || spec_matches(
            lower_of(filter),
            lower_of(s.last().name@),
            lower_of(s.last().cmd@),
            s.last().pid,
        ) {
            seq![s.last()]
        } else {
            Seq::empty()
        }
    }
}

/// The processes whose name, command line or pid contains `filter`, case
/// aside; all of them for an empty filter.
pub fn filter_processes(processes: Vec<ProcessInfo>, filter: &str) -> (r: Vec<ProcessInfo>)
    ensures
        r@ == filtered(processes@, filter@),
{
    let ghost all = processes@;
    let f = lowercase(filter);
    let empty = filter.unicode_len() == 0;
    proof {
        if empty {
            assert(filter@.len() == 0);
        }
    }
    let mut rest = processes;
    let total = rest.len();
    let mut out: Vec<ProcessInfo> = Vec::new();
    let mut i: usize = 0;
    while rest.len() > 0
        invariant
            total == all.len(),
            empty == (filter@.len() == 0),
            f@ == lower_of(filter@),
            rest@.len() + i == all.len(),
            rest@ == all.subrange(i as int, all.len() as int),
            out@ == filtered(all.subrange(0, i as int), filter@),
        decreases rest@.len(),
    {
        let ghost before_rest = rest@;
        let x = rest.remove(0);
        proof {
            assert(x == all[i as int]);
            assert(rest@ =~= all.subrange(i + 1, all.len() as int));
            let p = all.subrange(0, i + 1);
            assert(p.drop_last() =~= all.subrange(0, i as int));
            assert(p.last() == x);
        }
        let keep = if empty {
            true
        } else {
            let name = lowercase(x.name.as_str());
            let cmd = lowercase(x.cmd.as_str());
            process_matches(f.as_str(), name.as_str(), cmd.as_str(), x.pid)
        };
        if keep {
            out.push(x);
        } else {
            assert(out@ =~= out@ + Seq::<ProcessInfo>::empty());
        }
        i += 1;
    }
    assert(all.subrange(0, all.len() as int) =~= all);
    out
}

} // verus!
