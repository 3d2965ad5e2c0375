use vstd::prelude::*;
use std::collections::VecDeque;
use crate::gpu::GPUInfo;

verus! {

/// One timestamped sample.
#[derive(Debug, Clone, Copy)]
pub struct DataPoint<T> {
    pub value: T,
    pub timestamp: u64,
}

impl<T> DataPoint<T> {
    pub fn new(value: T, timestamp: u64) -> (r: Self)
        ensures
            r.value == value,
            r.timestamp == timestamp,
    {
        DataPoint { value, timestamp }
    }
}

/// The last `cap` entries of `s` (all of `s` when it is shorter).
pub open spec fn last_n<A>(s: Seq<A>, cap: nat) -> Seq<A> {
    if s.len() <= cap {
        s
    } else {
        s.subrange(s.len() - cap, s.len() as int)
    }
}

/// What a buffer of capacity `cap` holding `s` holds after one push of `p`.
pub open spec fn after_push<A>(s: Seq<A>, cap: nat, p: A) -> Seq<A> {
    last_n(s.push(p), cap)
}

/// Fixed-capacity time series: the oldest entry is evicted when a push
/// would exceed the capacity.
pub struct CircularBuffer<T> {
    data: VecDeque<DataPoint<T>>,
    capacity: usize,
}

impl<T: Copy> CircularBuffer<T> {
    pub closed spec fn view(&self) -> Seq<DataPoint<T>> {
        self.data@
    }

    pub closed spec fn spec_capacity(&self) -> nat {
        self.capacity as nat
    }

    /// The buffer never holds more entries than its capacity.
    pub open spec fn wf(&self) -> bool {
        self.view().len() <= self.spec_capacity()
    }

    pub fn new(capacity: usize) -> (r: Self)
        ensures
            r.wf(),
            r.view() == Seq::<DataPoint<T>>::empty(),
            r.spec_capacity() == capacity,
    {
        CircularBuffer { data: VecDeque::new(), capacity }
    }

    pub fn capacity(&self) -> (r: usize)
        ensures
            r == self.spec_capacity(),
    {
        self.capacity
    }

    pub fn push(&mut self, value: T, timestamp: u64)
        requires
            old(self).wf(),
        ensures
            final(self).wf(),
            final(self).spec_capacity() == old(self).spec_capacity(),
            final(self).view() == after_push(
                old(self).view(),
                old(self).spec_capacity(),
                DataPoint { value, timestamp },
            ),
            old(self).spec_capacity() > 0 ==> final(self).view().last() == (DataPoint {
                value,
                timestamp,
            }),
            timestamps_sorted(old(self).view()) && (old(self).view().len() == 0
                || old(self).view().last().timestamp <= timestamp) ==> timestamps_sorted(
                final(self).view(),
            ),
    {
        let ghost s = self.data@.push(DataPoint { value, timestamp });
        proof {
            let o = self.data@;
            if timestamps_sorted(o) && (o.len() == 0 || o.last().timestamp <= timestamp) {
                assert forall|i: int, j: int| 0 <= i <= j < s.len() implies s[i].timestamp
                    <= s[j].timestamp by {
                    if j == s.len() - 1 && i < j {
                        assert(o[i].timestamp <= o.last().timestamp);
                    }
                }
            }
        }
        if self.capacity == 0 {
            assert(last_n(s, 0) =~= Seq::<DataPoint<T>>::empty());
            assert(self.data@ =~= Seq::<DataPoint<T>>::empty());
            return ;
        }
        if self.data.len() >= self.capacity {
            self.data.pop_front();
        }
        self.data.push_back(DataPoint::new(value, timestamp));
        assert(self.data@ =~= last_n(s, self.capacity as nat));
        proof {
            let f = self.data@;
            if timestamps_sorted(s) {
                assert forall|i: int, j: int| 0 <= i <= j < f.len() implies f[i].timestamp
                    <= f[j].timestamp by {
                    assert(f[i] == s[i + s.len() - f.len()]);
                    assert(f[j] == s[j + s.len() - f.len()]);
                }
            }
        }
    }

    pub fn get_values(&self) -> (r: Vec<T>)
        ensures
            r@.len() == self.view().len(),
            forall|i: int| 0 <= i < r@.len() ==> r@[i] == #[trigger] self.view()[i].value,
    {
        let mut r: Vec<T> = Vec::new();
        let n = self.data.len();
        let mut i: usize = 0;
        while i < n
            invariant
                n == self.view().len(),
                i <= n,
                r@.len() == i,
                forall|j: int| 0 <= j < i ==> r@[j] == #[trigger] self.view()[j].value,
            decreases n - i,
        {
            r.push(self.data[i].value);
            i += 1;
        }
        r
    }

    pub fn get_latest(&self) -> (r: Option<&T>)
        ensures
            self.view().len() == 0 ==> r.is_none(),
            self.view().len() > 0 ==> r == Some(&self.view().last().value),
    {
        let n = self.data.len();
        if n == 0 {
            None
        } else {
            Some(&self.data[n - 1].value)
        }
    }

    pub fn get_all(&self) -> (r: &VecDeque<DataPoint<T>>)
        ensures
            r@ == self.view(),
    {
        &self.data
    }

    pub fn len(&self) -> (r: usize)
        ensures
            r == self.view().len(),
    {
        self.data.len()
    }

    pub fn is_empty(&self) -> (r: bool)
        ensures
            r == (self.view().len() == 0),
    {
        self.data.len() == 0
    }

    pub fn clear(&mut self)
        ensures
            final(self).wf(),
            final(self).view() == Seq::<DataPoint<T>>::empty(),
            final(self).spec_capacity() == old(self).spec_capacity(),
    {
        self.data.clear();
    }

    pub fn get_at(&self, index: usize) -> (r: Option<(u64, T)>)
        ensures
            index >= self.view().len() ==> r.is_none(),
            index < self.view().len() ==> r == Some(
                (self.view()[index as int].timestamp, self.view()[index as int].value),
            ),
    {
        if index < self.data.len() {
            let dp = self.data[index];
            Some((dp.timestamp, dp.value))
        } else {
            None
        }
    }
}

impl<T: Copy> Default for CircularBuffer<T> {
    fn default() -> (r: Self)
        ensures
            r.wf(),
            r.view() == Seq::<DataPoint<T>>::empty(),
            r.spec_capacity() == 60,
    {
        CircularBuffer::new(60)
    }
}

/// The contents of a buffer of capacity `cap` that held `s` after `items`
/// were pushed one by one, in order.
pub open spec fn push_all<A>(s: Seq<A>, cap: nat, items: Seq<A>) -> Seq<A>
    decreases items.len(),
{
    if items.len() == 0 {
        s
    } else {
        after_push(push_all(s, cap, items.drop_last()), cap, items.last())
    }
}

pub open spec fn timestamps_sorted<T>(s: Seq<DataPoint<T>>) -> bool {
    forall|i: int, j: int| 0 <= i <= j < s.len() ==> s[i].timestamp <= s[j].timestamp
}

proof fn lemma_last_n_push<A>(s: Seq<A>, cap: nat, p: A)
    ensures
        last_n(last_n(s, cap).push(p), cap) == last_n(s.push(p), cap),
{
    let l = last_n(s, cap);
    if s.len() > cap {
        assert(l.len() == cap);
        assert(last_n(l.push(p), cap) =~= last_n(s.push(p), cap));
    }
}

/// Whatever is pushed, a buffer holds at most its capacity, and what it holds
/// is exactly the most recent `cap` entries of everything it was given, in
/// the order given; so entries pushed with non-decreasing timestamps come
/// back in non-decreasing timestamp order.
pub proof fn lemma_push_all_keeps_most_recent<T>(s: Seq<DataPoint<T>>, cap: nat, items: Seq<DataPoint<T>>)
    requires
        s.len() <= cap,
    ensures
        push_all(s, cap, items) == last_n(s + items, cap),
        push_all(s, cap, items).len() <= cap,
        timestamps_sorted(s + items) ==> timestamps_sorted(push_all(s, cap, items)),
    decreases items.len(),
{
    if items.len() == 0 {
        assert(s + items =~= s);
    } else {
        lemma_push_all_keeps_most_recent(s, cap, items.drop_last());
        assert(s + items =~= (s + items.drop_last()).push(items.last()));
        lemma_last_n_push(s + items.drop_last(), cap, items.last());
    }
    let all = s + items;
    let r = last_n(all, cap);
    if timestamps_sorted(all) && all.len() > cap {
        assert forall|i: int, j: int| 0 <= i <= j < r.len() implies r[i].timestamp <= r[j].timestamp by {
            assert(r[i] == all[i + all.len() - cap]);
            assert(r[j] == all[j + all.len() - cap]);
        }
    }
}

/// History of every sampled metric, one buffer per scalar metric and one per
/// GPU and metric. Values are in thousandths of their unit (percent or
/// degree Celsius).
pub struct MetricsHistory {
    pub cpu_usage: CircularBuffer<u32>,
    pub memory_usage: CircularBuffer<u32>,
    pub swap_usage: CircularBuffer<u32>,
    pub gpu_temp: Vec<CircularBuffer<u32>>,
    pub gpu_util: Vec<CircularBuffer<u32>>,
    pub gpu_mem: Vec<CircularBuffer<u32>>,
}

impl MetricsHistory {
    /// All buffers are well formed and the three per-GPU arrays have one
    /// buffer per GPU each.
    pub open spec fn wf(&self) -> bool {
        &&& self.cpu_usage.wf()
        &&& self.memory_usage.wf()
        &&& self.swap_usage.wf()
        &&& self.gpu_util@.len() == self.gpu_temp@.len()
        &&& self.gpu_mem@.len() == self.gpu_temp@.len()
        &&& forall|i: int| 0 <= i < self.gpu_temp@.len() ==> (#[trigger] self.gpu_temp@[i]).wf()
        &&& forall|i: int| 0 <= i < self.gpu_util@.len() ==> (#[trigger] self.gpu_util@[i]).wf()
        &&& forall|i: int| 0 <= i < self.gpu_mem@.len() ==> (#[trigger] self.gpu_mem@[i]).wf()
    }

    pub open spec fn gpu_count(&self) -> nat {
        self.gpu_temp@.len()
    }

    pub fn new(capacity: usize, gpu_count: usize) -> (r: Self)
        ensures
            r.wf(),
            r.gpu_count() == gpu_count,
            r.cpu_usage.view().len() == 0 && r.cpu_usage.spec_capacity() == capacity,
            r.memory_usage.view().len() == 0 && r.memory_usage.spec_capacity() == capacity,
            r.swap_usage.view().len() == 0 && r.swap_usage.spec_capacity() == capacity,
            forall|i: int| 0 <= i < gpu_count ==> {
                &&& (#[trigger] r.gpu_temp@[i]).view().len() == 0
                &&& r.gpu_temp@[i].spec_capacity() == capacity
                &&& r.gpu_util@[i].view().len() == 0
                &&& r.gpu_util@[i].spec_capacity() == capacity
                &&& r.gpu_mem@[i].view().len() == 0
                &&& r.gpu_mem@[i].spec_capacity() == capacity
            },
    {
        let mut r = MetricsHistory {
            cpu_usage: CircularBuffer::new(capacity),
            memory_usage: CircularBuffer::new(capacity),
            swap_usage: CircularBuffer::new(capacity),
            gpu_temp: Vec::new(),
            gpu_util: Vec::new(),
            gpu_mem: Vec::new(),
        };
        r.resize_gpu_buffers(gpu_count, capacity);
        r
    }

    /// Records one tick: the three scalar metrics always, and for each GPU
    /// that has buffers, each of its readings that is present.
    pub fn update(
        &mut self,
        timestamp: u64,
        cpu_usage: u32,
        memory_usage: u32,
        swap_usage: u32,
        gpu_infos: &[GPUInfo],
    )
        requires
            old(self).wf(),
        ensures
            final(self).wf(),
            final(self).gpu_count() == old(self).gpu_count(),
            final(self).cpu_usage.view() == after_push(
                old(self).cpu_usage.view(),
                old(self).cpu_usage.spec_capacity(),
                DataPoint { value: cpu_usage, timestamp },
            ),
            final(self).memory_usage.view() == after_push(
                old(self).memory_usage.view(),
                old(self).memory_usage.spec_capacity(),
                DataPoint { value: memory_usage, timestamp },
            ),
            final(self).swap_usage.view() == after_push(
                old(self).swap_usage.view(),
                old(self).swap_usage.spec_capacity(),
                DataPoint { value: swap_usage, timestamp },
            ),
            forall|i: int| 0 <= i < old(self).gpu_count() ==> {
                &&& (#[trigger] final(self).gpu_temp@[i]).view() == gpu_pushed(
                    old(self).gpu_temp@[i],
                    gpu_infos@,
                    i,
                    timestamp,
                    |g: GPUInfo| g.temperature,
                )
                &&& final(self).gpu_util@[i].view() == gpu_pushed(
                    old(self).gpu_util@[i],
                    gpu_infos@,
                    i,
                    timestamp,
                    |g: GPUInfo| g.utilization,
                )
                &&& final(self).gpu_mem@[i].view() == gpu_pushed(
                    old(self).gpu_mem@[i],
                    gpu_infos@,
                    i,
                    timestamp,
                    |g: GPUInfo| g.spec_memory_usage_percent(),
                )
            },
    {
        self.cpu_usage.push(cpu_usage, timestamp);
        self.memory_usage.push(memory_usage, timestamp);
        self.swap_usage.push(swap_usage, timestamp);
        let ghost old_temp = self.gpu_temp@;
        let ghost old_util = self.gpu_util@;
        let ghost old_mem = self.gpu_mem@;
        let ghost scalars = (self.cpu_usage, self.memory_usage, self.swap_usage);
        let count = self.gpu_temp.len();
        let mut i: usize = 0;
        while i < gpu_infos.len() && i < count
            invariant
                scalars == (self.cpu_usage, self.memory_usage, self.swap_usage),
                count == self.gpu_temp@.len(),
                old_temp.len() == count && old_util.len() == count && old_mem.len() == count,
                self.gpu_util@.len() == count,
                self.gpu_mem@.len() == count,
                forall|j: int| 0 <= j < count ==> (#[trigger] self.gpu_temp@[j]).wf(),
                forall|j: int| 0 <= j < count ==> (#[trigger] self.gpu_util@[j]).wf(),
                forall|j: int| 0 <= j < count ==> (#[trigger] self.gpu_mem@[j]).wf(),
                forall|j: int| i <= j < count ==> #[trigger] self.gpu_temp@[j] == old_temp[j],
                forall|j: int| i <= j < count ==> #[trigger] self.gpu_util@[j] == old_util[j],
                forall|j: int| i <= j < count ==> #[trigger] self.gpu_mem@[j] == old_mem[j],
                forall|j: int| 0 <= j < i && j < count ==> (#[trigger] self.gpu_temp@[j]).view()
                    == gpu_pushed(old_temp[j], gpu_infos@, j, timestamp, |g: GPUInfo| g.temperature),
                forall|j: int| 0 <= j < i && j < count ==> (#[trigger] self.gpu_util@[j]).view()
                    == gpu_pushed(old_util[j], gpu_infos@, j, timestamp, |g: GPUInfo| g.utilization),
                forall|j: int| 0 <= j < i && j < count ==> (#[trigger] self.gpu_mem@[j]).view()
                    == gpu_pushed(
                    old_mem[j],
                    gpu_infos@,
                    j,
                    timestamp,
                    |g: GPUInfo| g.spec_memory_usage_percent(),
                ),
            decreases count - i,
        {
            let info = &gpu_infos[i];
            if let Some(temp) = info.temperature {
                push_at(&mut self.gpu_temp, i, temp, timestamp);
            }
            if let Some(util) = info.utilization {
                push_at(&mut self.gpu_util, i, util, timestamp);
            }
            if let Some(mem) = info.memory_usage_percent() {
                push_at(&mut self.gpu_mem, i, mem, timestamp);
            }
            i += 1;
        }
        assert forall|j: int| 0 <= j < count implies (#[trigger] self.gpu_temp@[j]).view()
            == gpu_pushed(old_temp[j], gpu_infos@, j, timestamp, |g: GPUInfo| g.temperature) by {
            if j >= i {
                assert(j >= gpu_infos@.len());
            }
        }
        assert forall|j: int| 0 <= j < count implies (#[trigger] self.gpu_util@[j]).view()
            == gpu_pushed(old_util[j], gpu_infos@, j, timestamp, |g: GPUInfo| g.utilization) by {
            if j >= i {
                assert(j >= gpu_infos@.len());
            }
        }
        assert forall|j: int| 0 <= j < count implies (#[trigger] self.gpu_mem@[j]).view()
            == gpu_pushed(
            old_mem[j],
            gpu_infos@,
            j,
            timestamp,
            |g: GPUInfo| g.spec_memory_usage_percent(),
        ) by {
            if j >= i {
                assert(j >= gpu_infos@.len());
            }
        }
    }

    /// Grows the per-GPU arrays to `new_count` buffers each; existing
    /// buffers are kept as they are and nothing is ever removed.
    pub fn resize_gpu_buffers(&mut self, new_count: usize, capacity: usize)
        requires
            old(self).wf(),
        ensures
            final(self).wf(),
            final(self).cpu_usage == old(self).cpu_usage,
            final(self).memory_usage == old(self).memory_usage,
            final(self).swap_usage == old(self).swap_usage,
            final(self).gpu_count() == if new_count > old(self).gpu_count() {
                new_count as nat
            } else {
                old(self).gpu_count()
            },
            forall|i: int| 0 <= i < old(self).gpu_count() ==> {
                &&& #[trigger] final(self).gpu_temp@[i] == old(self).gpu_temp@[i]
                &&& final(self).gpu_util@[i] == old(self).gpu_util@[i]
                &&& final(self).gpu_mem@[i] == old(self).gpu_mem@[i]
            },
            forall|i: int| old(self).gpu_count() <= i < final(self).gpu_count() ==> {
                &&& (#[trigger] final(self).gpu_temp@[i]).view().len() == 0
                &&& final(self).gpu_temp@[i].spec_capacity() == capacity
                &&& final(self).gpu_util@[i].view().len() == 0
                &&& final(self).gpu_util@[i].spec_capacity() == capacity
                &&& final(self).gpu_mem@[i].view().len() == 0
                &&& final(self).gpu_mem@[i].spec_capacity() == capacity
            },
    {
        let ghost n0 = self.gpu_temp@.len();
        while self.gpu_temp.len() < new_count
            invariant
                self.wf(),
                n0 <= self.gpu_temp@.len(),
                self.gpu_temp@.len() <= if new_count > n0 { new_count as nat } else { n0 },
                self.cpu_usage == old(self).cpu_usage,
                self.memory_usage == old(self).memory_usage,
                self.swap_usage == old(self).swap_usage,
                forall|i: int| 0 <= i < n0 ==> {
                    &&& #[trigger] self.gpu_temp@[i] == old(self).gpu_temp@[i]
                    &&& self.gpu_util@[i] == old(self).gpu_util@[i]
                    &&& self.gpu_mem@[i] == old(self).gpu_mem@[i]
                },
                forall|i: int| n0 <= i < self.gpu_temp@.len() ==> {
                    &&& (#[trigger] self.gpu_temp@[i]).view().len() == 0
                    &&& self.gpu_temp@[i].spec_capacity() == capacity
                    &&& self.gpu_util@[i].view().len() == 0
                    &&& self.gpu_util@[i].spec_capacity() == capacity
                    &&& self.gpu_mem@[i].view().len() == 0
                    &&& self.gpu_mem@[i].spec_capacity() == capacity
                },
            decreases new_count - self.gpu_temp@.len(),
        {
            self.gpu_temp.push(CircularBuffer::new(capacity));
            self.gpu_util.push(CircularBuffer::new(capacity));
            self.gpu_mem.push(CircularBuffer::new(capacity));
        }
    }
}

/// Pushes one sample into the `i`-th buffer of `v`, leaving the others.
fn push_at(v: &mut Vec<CircularBuffer<u32>>, i: usize, value: u32, timestamp: u64)
    requires
        i < old(v)@.len(),
        old(v)@[i as int].wf(),
    ensures
        final(v)@.len() == old(v)@.len(),
        final(v)@[i as int].wf(),
        final(v)@[i as int].spec_capacity() == old(v)@[i as int].spec_capacity(),
        final(v)@[i as int].view() == after_push(
            old(v)@[i as int].view(),
            old(v)@[i as int].spec_capacity(),
            DataPoint { value, timestamp },
        ),
        forall|j: int| 0 <= j < old(v)@.len() && j != i ==> #[trigger] final(v)@[j] == old(v)@[j],
{
    let mut b = v.remove(i);
    b.push(value, timestamp);
    v.insert(i, b);
}

/// The contents of GPU `i`'s buffer `b` after one tick: the reading that
/// `read` picks from the `i`-th snapshot is pushed when that snapshot exists
/// and the reading is present; otherwise the buffer is unchanged.
pub open spec fn gpu_pushed(
    b: CircularBuffer<u32>,
    infos: Seq<GPUInfo>,
    i: int,
    timestamp: u64,
    read: spec_fn(GPUInfo) -> Option<u32>,
) -> Seq<DataPoint<u32>> {
    if i < infos.len() && read(infos[i]) is Some {
        after_push(b.view(), b.spec_capacity(), DataPoint { value: read(infos[i])->0, timestamp })
    } else {
        b.view()
    }
}

} // verus!
