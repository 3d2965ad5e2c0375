use vstd::prelude::*;
use crate::config::AlertsConfig;
use crate::gpu::GPUInfo;
use crate::text::{decimal, decimal_text, one_decimal, one_decimal_text};

verus! {

/// How serious an alert is.
#[derive(Debug, Clone, Copy, PartialEq, Eq, Structural)]
pub enum AlertLevel {
    Info,
    Warning,
    Critical,
}

/// The metric an alert is about, with the GPU where there is one.
#[derive(Debug, Clone, Copy, PartialEq, Eq, Structural, Hash)]
pub enum AlertType {
    CpuUsage,
    MemoryUsage,
    SwapUsage,
    GpuTemperature { gpu_id: usize },
    GpuUtilization { gpu_id: usize },
    GpuMemory { gpu_id: usize },
}

/// One threshold breach. `value` and `threshold` are in thousandths of a
/// percent (GPU temperature: thousandths of a degree Celsius); `timestamp`
/// is in seconds since the Unix epoch.
#[derive(Debug, Clone)]
pub struct Alert {
    pub alert_type: AlertType,
    pub level: AlertLevel,
    pub value: u32,
    pub threshold: u32,
    pub message: String,
    pub timestamp: u64,
}

/// What an alert holds, with its message as characters.
pub struct AlertView {
    pub alert_type: AlertType,
    pub level: AlertLevel,
    pub value: u32,
    pub threshold: u32,
    pub message: Seq<char>,
    pub timestamp: u64,
}

impl Alert {
    pub open spec fn view(&self) -> AlertView {
        AlertView {
            alert_type: self.alert_type,
            level: self.level,
            value: self.value,
            threshold: self.threshold,
            message: self.message@,
            timestamp: self.timestamp,
        }
    }
}

/// The stable text key of an alert type: the metric, with the GPU id where
/// there is one.
pub open spec fn alert_key(t: AlertType) -> Seq<char> {
    match t {
        AlertType::CpuUsage => "cpu"@,
        AlertType::MemoryUsage => "memory"@,
        AlertType::SwapUsage => "swap"@,
        AlertType::GpuTemperature { gpu_id } => "gpu_"@ + decimal(gpu_id as nat) + "_temp"@,
        AlertType::GpuUtilization { gpu_id } => "gpu_"@ + decimal(gpu_id as nat) + "_util"@,
        AlertType::GpuMemory { gpu_id } => "gpu_"@ + decimal(gpu_id as nat) + "_mem"@,
    }
}

impl AlertType {
    /// The stable text key (see `alert_key`); the cooldown records are kept
    /// per alert type, which this key names.
    pub fn key(&self) -> (r: String)
        ensures
            r@ == alert_key(*self),
    {
        let (id, suffix) = match self {
            AlertType::CpuUsage => {
                return String::from_str("cpu");
            },
            AlertType::MemoryUsage => {
                return String::from_str("memory");
            },
            AlertType::SwapUsage => {
                return String::from_str("swap");
            },
            AlertType::GpuTemperature { gpu_id } => (*gpu_id, "_temp"),
            AlertType::GpuUtilization { gpu_id } => (*gpu_id, "_util"),
            AlertType::GpuMemory { gpu_id } => (*gpu_id, "_mem"),
        };
        let mut k = String::from_str("gpu_");
        let d = decimal_text(id as u64);
        k.append(d.as_str());
        k.append(suffix);
        k
    }
}

/// CPU and memory usage above this (95%) are critical.
pub const CRITICAL_USAGE: u32 = 95_000;

/// GPU temperature above this (85 °C) is critical.
pub const CRITICAL_GPU_TEMP: u32 = 85_000;

pub open spec fn usage_message(label: Seq<char>, value: u32, threshold: u32) -> Seq<char> {
    label + " usage at "@ + one_decimal(value) + "% (threshold: "@ + one_decimal(threshold) + "%)"@
}

pub open spec fn gpu_message(
    gpu: nat,
    what: Seq<char>,
    value: u32,
    threshold: u32,
    unit: Seq<char>,
) -> Seq<char> {
    "GPU "@ + decimal(gpu) + what + one_decimal(value) + unit + " (threshold: "@ + one_decimal(
        threshold,
    ) + unit + ")"@
}

/// The alert that `value` raises against `threshold`, if it is above it.
pub open spec fn breach(
    above: bool,
    alert_type: AlertType,
    level: AlertLevel,
    value: u32,
    threshold: u32,
    message: Seq<char>,
    now: u64,
) -> Seq<AlertView> {
    if above {
        seq![AlertView { alert_type, level, value, threshold, message, timestamp: now }]
    } else {
        Seq::empty()
    }
}

/// The alerts of GPU `i`: temperature (critical above 85 °C, else a
/// warning), utilization (info only) and memory (warning only), each only
/// when its reading is present and above its threshold.
pub open spec fn gpu_alerts(c: AlertsConfig, g: GPUInfo, i: usize, now: u64) -> Seq<AlertView> {
    let temp = g.temperature->0;
    let util = g.utilization->0;
    let mem = g.spec_memory_usage_percent()->0;
    breach(
        g.temperature is Some && temp > c.gpu_temp_threshold,
        AlertType::GpuTemperature { gpu_id: i },
        if temp > CRITICAL_GPU_TEMP {
            AlertLevel::Critical
        } else {
            AlertLevel::Warning
        },
        temp,
        c.gpu_temp_threshold,
        gpu_message(i as nat, " temperature at "@, temp, c.gpu_temp_threshold, "\u{b0}C"@),
        now,
    ) + breach(
        g.utilization is Some && util > c.gpu_util_threshold,
        AlertType::GpuUtilization { gpu_id: i },
        AlertLevel::Info,
        util,
        c.gpu_util_threshold,
        gpu_message(i as nat, " utilization at "@, util, c.gpu_util_threshold, "%"@),
        now,
    ) + breach(
        g.spec_memory_usage_percent() is Some && mem > c.gpu_mem_threshold,
        AlertType::GpuMemory { gpu_id: i },
        AlertLevel::Warning,
        mem,
        c.gpu_mem_threshold,
        gpu_message(i as nat, " memory at "@, mem, c.gpu_mem_threshold, "%"@),
        now,
    )
}

/// The alerts of GPUs `0..gpus.len()`, in GPU order.
pub open spec fn all_gpu_alerts(c: AlertsConfig, gpus: Seq<GPUInfo>, now: u64) -> Seq<AlertView>
    decreases gpus.len(),
{
    if gpus.len() == 0 {
        Seq::empty()
    } else {
        all_gpu_alerts(c, gpus.drop_last(), now) + gpu_alerts(
            c,
            gpus.last(),
            (gpus.len() - 1) as usize,
            now,
        )
    }
}

/// Every alert of one tick, in order: CPU (critical above 95%, else a
/// warning), memory (the same), swap (a warning, and only when there is
/// swap), then each GPU's; nothing when alerts are disabled.
pub open spec fn spec_alerts(
    c: AlertsConfig,
    cpu: u32,
    mem: u32,
    swap: u32,
    swap_total: u64,
    gpus: Seq<GPUInfo>,
    now: u64,
) -> Seq<AlertView> {
    if !c.enabled {
        Seq::empty()
    } else {
        breach(
            cpu > c.cpu_threshold,
            AlertType::CpuUsage,
            if cpu > CRITICAL_USAGE {
                AlertLevel::Critical
            } else {
                AlertLevel::Warning
            },
            cpu,
            c.cpu_threshold,
            usage_message("CPU"@, cpu, c.cpu_threshold),
            now,
        ) + breach(
            mem > c.memory_threshold,
            AlertType::MemoryUsage,
            if mem > CRITICAL_USAGE {
                AlertLevel::Critical
            } else {
                AlertLevel::Warning
            },
            mem,
            c.memory_threshold,
            usage_message("Memory"@, mem, c.memory_threshold),
            now,
        ) + breach(
            swap > c.swap_threshold && swap_total > 0,
            AlertType::SwapUsage,
            AlertLevel::Warning,
            swap,
            c.swap_threshold,
            usage_message("SWAP"@, swap, c.swap_threshold),
            now,
        ) + all_gpu_alerts(c, gpus, now)
    }
}

pub open spec fn views(s: Seq<Alert>) -> Seq<AlertView> {
    s.map_values(|a: Alert| a.view())
}

/// The last notification time recorded for `t`, if any.
pub open spec fn lookup(s: Seq<(AlertType, u64)>, t: AlertType) -> Option<u64>
    decreases s.len(),
{
    if s.len() == 0 {
        None
    } else if s[0].0 == t {
        Some(s[0].1)
    } else {
        lookup(s.drop_first(), t)
    }
}

/// Seconds from `last` to `now`, zero when the clock went back.
pub open spec fn elapsed(last: u64, now: u64) -> int {
    if now >= last {
        now - last
    } else {
        0
    }
}

/// Whether the cooldown gate lets a notification for `t` through at `now`.
pub open spec fn gate_open(last: Option<u64>, cooldown: u64, now: u64) -> bool {
    match last {
        None => true,
        Some(t) => elapsed(t, now) >= cooldown,
    }
}

proof fn lemma_lookup_absent_push(s: Seq<(AlertType, u64)>, t: AlertType, now: u64, u: AlertType)
    requires
        lookup(s, t) is None,
    ensures
        lookup(s.push((t, now)), u) == if u == t {
            Some(now)
        } else {
            lookup(s, u)
        },
    decreases s.len(),
{
    let p = s.push((t, now));
    if s.len() > 0 {
        assert(p[0] == s[0]);
        assert(s[0].0 != t);
        assert(p.drop_first() =~= s.drop_first().push((t, now)));
        if s[0].0 != u {
            lemma_lookup_absent_push(s.drop_first(), t, now, u);
        }
    } else {
        assert(p[0] == (t, now));
        assert(p.drop_first() =~= Seq::<(AlertType, u64)>::empty());
        assert(lookup(p.drop_first(), u) is None);
    }
}

proof fn lemma_lookup_update(s: Seq<(AlertType, u64)>, i: int, t: AlertType, now: u64, u: AlertType)
    requires
        0 <= i < s.len(),
        s[i].0 == t,
        forall|k: int| 0 <= k < i ==> s[k].0 != t,
    ensures
        lookup(s.update(i, (t, now)), u) == if u == t {
            Some(now)
        } else {
            lookup(s, u)
        },
    decreases s.len(),
{
    let p = s.update(i, (t, now));
    if i > 0 {
        assert(p[0] == s[0]);
        assert(p.drop_first() =~= s.drop_first().update(i - 1, (t, now)));
        if s[0].0 != u {
            lemma_lookup_update(s.drop_first(), i - 1, t, now, u);
        }
    } else {
        assert(p[0] == (t, now));
        assert(p.drop_first() =~= s.drop_first());
    }
}

/// Relies on `SystemTime::now` (read as whole seconds since the Unix epoch;
/// zero for a clock set before it). Nothing is known of the value.
#[verifier::external_body]
fn unix_time_secs() -> (r: u64) {
    std::time::SystemTime::now().duration_since(std::time::UNIX_EPOCH).unwrap_or_default().as_secs()
}

/// Threshold detection per tick, and per-alert notification cooldown.
pub struct AlertDetector {
    config: AlertsConfig,
    active_alerts: Vec<Alert>,
    last_notification_time: Vec<(AlertType, u64)>,
}

impl AlertDetector {
    pub closed spec fn spec_config(&self) -> AlertsConfig {
        self.config
    }

    pub closed spec fn spec_active(&self) -> Seq<Alert> {
        self.active_alerts@
    }

    /// When `t` last passed the cooldown gate, if ever.
    pub closed spec fn last_notified(&self, t: AlertType) -> Option<u64> {
        lookup(self.last_notification_time@, t)
    }

    pub fn new(config: AlertsConfig) -> (r: Self)
        ensures
            r.spec_config() == config,
            r.spec_active().len() == 0,
            forall|t: AlertType| #[trigger] r.last_notified(t) is None,
    {
        AlertDetector { config, active_alerts: Vec::new(), last_notification_time: Vec::new() }
    }

    /// `should_notify` at time `now` (seconds): true, recording `now`, when
    /// `t` was never notified or at least the cooldown has passed since it
    /// last was; otherwise false, changing nothing.
    pub fn should_notify_at(&mut self, alert_type: &AlertType, now: u64) -> (r: bool)
        ensures
            r == gate_open(
                old(self).last_notified(*alert_type),
                old(self).spec_config().notification_cooldown_secs,
                now,
            ),
            r ==> final(self).last_notified(*alert_type) == Some(now),
            r ==> forall|u: AlertType| u != *alert_type ==> #[trigger] final(self).last_notified(u)
                == old(self).last_notified(u),
            !r ==> *final(self) == *old(self),
            final(self).spec_config() == old(self).spec_config(),
            final(self).spec_active() == old(self).spec_active(),
    {
        let t = *alert_type;
        match find_key(&self.last_notification_time, t) {
            Some(i) => {
                let last = self.last_notification_time[i].1;
                proof {
                    lemma_lookup_found(self.last_notification_time@, i as int, t);
                }
                let since = if now >= last {
                    now - last
                } else {
                    0
                };
                if since < self.config.notification_cooldown_secs {
                    return false;
                }
                let ghost s = self.last_notification_time@;
                self.last_notification_time.set(i, (t, now));
                proof {
                    assert forall|u: AlertType| true implies #[trigger] lookup(
                        self.last_notification_time@,
                        u,
                    ) == if u == t {
                        Some(now)
                    } else {
                        lookup(s, u)
                    } by {
                        lemma_lookup_update(s, i as int, t, now, u);
                    }
                }
                true
            },
            None => {
                proof {
                    lemma_lookup_missing(self.last_notification_time@, t);
                }
                let ghost s = self.last_notification_time@;
                self.last_notification_time.push((t, now));
                proof {
                    assert forall|u: AlertType| true implies #[trigger] lookup(
                        self.last_notification_time@,
                        u,
                    ) == if u == t {
                        Some(now)
                    } else {
                        lookup(s, u)
                    } by {
                        lemma_lookup_absent_push(s, t, now, u);
                    }
                }
                true
            },
        }
    }

    /// `should_notify_at` with the current time of the system clock.
    pub fn should_notify(&mut self, alert_type: &AlertType) -> (r: bool)
        ensures
            final(self).spec_config() == old(self).spec_config(),
            final(self).spec_active() == old(self).spec_active(),
            old(self).last_notified(*alert_type) is None ==> r,
            exists|now: u64|
                r == #[trigger] gate_open(
                    old(self).last_notified(*alert_type),
                    old(self).spec_config().notification_cooldown_secs,
                    now,
                ) && (r ==> final(self).last_notified(*alert_type) == Some(now)),
            r ==> forall|u: AlertType| u != *alert_type ==> #[trigger] final(self).last_notified(u)
                == old(self).last_notified(u),
            !r ==> *final(self) == *old(self),
    {
        let now = unix_time_secs();
        self.should_notify_at(alert_type, now)
    }
}

/// The first position of `t` among the recorded keys.
fn find_key(v: &Vec<(AlertType, u64)>, t: AlertType) -> (r: Option<usize>)
    ensures
        match r {
            Some(i) => i < v@.len() && v@[i as int].0 == t && forall|k: int|
                0 <= k < i ==> v@[k].0 != t,
            None => forall|k: int| 0 <= k < v@.len() ==> v@[k].0 != t,
        },
{
    let mut i: usize = 0;
    while i < v.len()
        invariant
            i <= v@.len(),
            forall|k: int| 0 <= k < i ==> v@[k].0 != t,
        decreases v@.len() - i,
    {
        if v[i].0 == t {
            return Some(i);
        }
        i += 1;
    }
    None
}

proof fn lemma_lookup_found(s: Seq<(AlertType, u64)>, i: int, t: AlertType)
    requires
        0 <= i < s.len(),
        s[i].0 == t,
        forall|k: int| 0 <= k < i ==> s[k].0 != t,
    ensures
        lookup(s, t) == Some(s[i].1),
    decreases s.len(),
{
    if i > 0 {
        lemma_lookup_found(s.drop_first(), i - 1, t);
    }
}

proof fn lemma_lookup_missing(s: Seq<(AlertType, u64)>, t: AlertType)
    requires
        forall|k: int| 0 <= k < s.len() ==> s[k].0 != t,
    ensures
        lookup(s, t) is None,
    decreases s.len(),
{
    if s.len() > 0 {
        lemma_lookup_missing(s.drop_first(), t);
    }
}


fn usage_message_text(label: &str, value: u32, threshold: u32) -> (r: String)
    ensures
        r@ == usage_message(label@, value, threshold),
{
    let mut m = String::from_str(label);
    m.append(" usage at ");
    let v = one_decimal_text(value);
    m.append(v.as_str());
    m.append("% (threshold: ");
    let t = one_decimal_text(threshold);
    m.append(t.as_str());
    m.append("%)");
    m
}

fn gpu_message_text(gpu: usize, what: &str, value: u32, threshold: u32, unit: &str) -> (r: String)
    ensures
        r@ == gpu_message(gpu as nat, what@, value, threshold, unit@),
{
    let mut m = String::from_str("GPU ");
    let g = decimal_text(gpu as u64);
    m.append(g.as_str());
    m.append(what);
    let v = one_decimal_text(value);
    m.append(v.as_str());
    m.append(unit);
    m.append(" (threshold: ");
    let t = one_decimal_text(threshold);
    m.append(t.as_str());
    m.append(unit);
    m.append(")");
    m
}

/// Appends the alert to `out` when `above` holds.
fn push_breach(
    out: &mut Vec<Alert>,
    above: bool,
    alert_type: AlertType,
    level: AlertLevel,
    value: u32,
    threshold: u32,
    message: String,
    now: u64,
)
    ensures
        views(final(out)@) == views(old(out)@) + breach(
            above,
            alert_type,
            level,
            value,
            threshold,
            message@,
            now,
        ),
{
    if above {
        let a = Alert { alert_type, level, value, threshold, message, timestamp: now };
        out.push(a);
        assert(views(out@) =~= views(old(out)@) + seq![a.view()]);
    } else {
        assert(views(out@) =~= views(old(out)@) + Seq::<AlertView>::empty());
    }
}

fn push_gpu_alerts(out: &mut Vec<Alert>, c: &AlertsConfig, g: &GPUInfo, i: usize, now: u64)
    ensures
        views(final(out)@) == views(old(out)@) + gpu_alerts(*c, *g, i, now),
{
    let ghost start = views(out@);
    let temp = match g.temperature {
        Some(t) => t,
        None => 0,
    };
    let temp_above = g.temperature.is_some() && temp > c.gpu_temp_threshold;
    if temp_above {
        let level = if temp > CRITICAL_GPU_TEMP {
            AlertLevel::Critical
        } else {
            AlertLevel::Warning
        };
        let m = gpu_message_text(i, " temperature at ", temp, c.gpu_temp_threshold, "\u{b0}C");
        push_breach(
            out,
            true,
            AlertType::GpuTemperature { gpu_id: i },
            level,
            temp,
            c.gpu_temp_threshold,
            m,
            now,
        );
    }
    let ghost after_temp = views(out@);
    let util = match g.utilization {
        Some(u) => u,
        None => 0,
    };
    let util_above = g.utilization.is_some() && util > c.gpu_util_threshold;
    if util_above {
        let m = gpu_message_text(i, " utilization at ", util, c.gpu_util_threshold, "%");
        push_breach(
            out,
            true,
            AlertType::GpuUtilization { gpu_id: i },
            AlertLevel::Info,
            util,
            c.gpu_util_threshold,
            m,
            now,
        );
    }
    let ghost after_util = views(out@);
    let mem_pct = g.memory_usage_percent();
    let mem = match mem_pct {
        Some(m) => m,
        None => 0,
    };
    let mem_above = mem_pct.is_some() && mem > c.gpu_mem_threshold;
    if mem_above {
        let m = gpu_message_text(i, " memory at ", mem, c.gpu_mem_threshold, "%");
        push_breach(
            out,
            true,
            AlertType::GpuMemory { gpu_id: i },
            AlertLevel::Warning,
            mem,
            c.gpu_mem_threshold,
            m,
            now,
        );
    }
    proof {
        let c = *c;
        let g = *g;
        let tb = breach(
            g.temperature is Some && g.temperature->0 > c.gpu_temp_threshold,
            AlertType::GpuTemperature { gpu_id: i },
            if g.temperature->0 > CRITICAL_GPU_TEMP {
                AlertLevel::Critical
            } else {
                AlertLevel::Warning
            },
            g.temperature->0,
            c.gpu_temp_threshold,
            gpu_message(i as nat, " temperature at "@, g.temperature->0, c.gpu_temp_threshold, "\u{b0}C"@),
            now,
        );
        let ub = breach(
            g.utilization is Some && g.utilization->0 > c.gpu_util_threshold,
            AlertType::GpuUtilization { gpu_id: i },
            AlertLevel::Info,
            g.utilization->0,
            c.gpu_util_threshold,
            gpu_message(i as nat, " utilization at "@, g.utilization->0, c.gpu_util_threshold, "%"@),
            now,
        );
        let mb = breach(
            g.spec_memory_usage_percent() is Some && g.spec_memory_usage_percent()->0
                > c.gpu_mem_threshold,
            AlertType::GpuMemory { gpu_id: i },
            AlertLevel::Warning,
            g.spec_memory_usage_percent()->0,
            c.gpu_mem_threshold,
            gpu_message(
                i as nat,
                " memory at "@,
                g.spec_memory_usage_percent()->0,
                c.gpu_mem_threshold,
                "%"@,
            ),
            now,
        );
        if !temp_above {
            assert(after_temp =~= start + tb);
        }
        assert(after_temp =~= start + tb);
        if !util_above {
            assert(after_util =~= after_temp + ub);
        }
        assert(after_util =~= after_temp + ub);
        if !mem_above {
            assert(views(out@) =~= after_util + mb);
        }
        assert(views(out@) =~= start + gpu_alerts(c, g, i, now));
    }
}

fn copy_alerts(v: &Vec<Alert>) -> (r: Vec<Alert>)
    ensures
        views(r@) == views(v@),
{
    let mut r: Vec<Alert> = Vec::new();
    let mut i: usize = 0;
    while i < v.len()
        invariant
            i <= v@.len(),
            views(r@) == views(v@.subrange(0, i as int)),
        decreases v@.len() - i,
    {
        let a = &v[i];
        let b = Alert {
            alert_type: a.alert_type,
            level: a.level,
            value: a.value,
            threshold: a.threshold,
            message: a.message.clone(),
            timestamp: a.timestamp,
        };
        let ghost before = r@;
        assert(b.view() == v@[i as int].view());
        r.push(b);
        assert(views(r@) =~= views(before).push(b.view()));
        assert(v@.subrange(0, i + 1) =~= v@.subrange(0, i as int).push(v@[i as int]));
        assert(views(v@.subrange(0, i + 1)) =~= views(v@.subrange(0, i as int)).push(
            v@[i as int].view(),
        ));
        assert(views(r@) =~= views(v@.subrange(0, i + 1)));
        i += 1;
    }
    assert(v@.subrange(0, v@.len() as int) =~= v@);
    r
}

impl AlertDetector {
    /// The alerts of one tick at time `now` (see `spec_alerts`); they
    /// replace the active set, and the cooldown records are left as they
    /// are.
    pub fn check_alerts_at(
        &mut self,
        cpu_usage: u32,
        mem_usage: u32,
        swap_usage: u32,
        swap_total: u64,
        gpu_infos: &[GPUInfo],
        now: u64,
    ) -> (r: Vec<Alert>)
        ensures
            views(r@) == spec_alerts(
                old(self).spec_config(),
                cpu_usage,
                mem_usage,
                swap_usage,
                swap_total,
                gpu_infos@,
                now,
            ),
            views(final(self).spec_active()) == views(r@),
            final(self).spec_config() == old(self).spec_config(),
            forall|t: AlertType| #[trigger] final(self).last_notified(t) == old(self).last_notified(t),
    {
        let c = self.config;
        let mut out: Vec<Alert> = Vec::new();
        if !c.enabled {
            self.active_alerts = Vec::new();
            assert(views(out@) =~= Seq::<AlertView>::empty());
            assert(views(self.active_alerts@) =~= Seq::<AlertView>::empty());
            return out;
        }
        let level = if cpu_usage > CRITICAL_USAGE {
            AlertLevel::Critical
        } else {
            AlertLevel::Warning
        };
        let above = cpu_usage > c.cpu_threshold;
        let m = if above {
            usage_message_text("CPU", cpu_usage, c.cpu_threshold)
        } else {
            String::new()
        };
        let ghost s0 = views(out@);
        push_breach(&mut out, above, AlertType::CpuUsage, level, cpu_usage, c.cpu_threshold, m, now);
        let level = if mem_usage > CRITICAL_USAGE {
            AlertLevel::Critical
        } else {
            AlertLevel::Warning
        };
        let above = mem_usage > c.memory_threshold;
        let m = if above {
            usage_message_text("Memory", mem_usage, c.memory_threshold)
        } else {
            String::new()
        };
        push_breach(
            &mut out,
            above,
            AlertType::MemoryUsage,
            level,
            mem_usage,
            c.memory_threshold,
            m,
            now,
        );
        let above = swap_usage > c.swap_threshold && swap_total > 0;
        let m = if above {
            usage_message_text("SWAP", swap_usage, c.swap_threshold)
        } else {
            String::new()
        };
        push_breach(
            &mut out,
            above,
            AlertType::SwapUsage,
            AlertLevel::Warning,
            swap_usage,
            c.swap_threshold,
            m,
            now,
        );
        let ghost head = views(out@);
        let mut i: usize = 0;
        while i < gpu_infos.len()
            invariant
                i <= gpu_infos@.len(),
                c == old(self).spec_config(),
                views(out@) == head + all_gpu_alerts(c, gpu_infos@.subrange(0, i as int), now),
            decreases gpu_infos@.len() - i,
        {
            push_gpu_alerts(&mut out, &c, &gpu_infos[i], i, now);
            proof {
                let p = gpu_infos@.subrange(0, i + 1);
                assert(p.drop_last() =~= gpu_infos@.subrange(0, i as int));
                assert(p.last() == gpu_infos@[i as int]);
            }
            i += 1;
        }
        proof {
            assert(gpu_infos@.subrange(0, gpu_infos@.len() as int) =~= gpu_infos@);
            assert(views(out@) =~= spec_alerts(
                c,
                cpu_usage,
                mem_usage,
                swap_usage,
                swap_total,
                gpu_infos@,
                now,
            ));
        }
        self.active_alerts = copy_alerts(&out);
        out
    }
}


/// How many alerts of `s` are at `level`.
pub open spec fn count_level(s: Seq<AlertView>, level: AlertLevel) -> nat
    decreases s.len(),
{
    if s.len() == 0 {
        0
    } else {
        count_level(s.drop_last(), level) + if s.last().level == level {
            1nat
        } else {
            0nat
        }
    }
}

impl AlertDetector {
    /// `check_alerts_at` with the current time of the system clock.
    pub fn check_alerts(
        &mut self,
        cpu_usage: u32,
        mem_usage: u32,
        swap_usage: u32,
        swap_total: u64,
        gpu_infos: &[GPUInfo],
    ) -> (r: Vec<Alert>)
        ensures
            exists|now: u64|
                views(r@) == #[trigger] spec_alerts(
                    old(self).spec_config(),
                    cpu_usage,
                    mem_usage,
                    swap_usage,
                    swap_total,
                    gpu_infos@,
                    now,
                ),
            views(final(self).spec_active()) == views(r@),
            final(self).spec_config() == old(self).spec_config(),
            forall|t: AlertType| #[trigger] final(self).last_notified(t) == old(self).last_notified(t),
    {
        let now = unix_time_secs();
        self.check_alerts_at(cpu_usage, mem_usage, swap_usage, swap_total, gpu_infos, now)
    }

    pub fn active_alerts(&self) -> (r: &[Alert])
        ensures
            r@ == self.spec_active(),
    {
        self.active_alerts.as_slice()
    }

    pub fn has_alerts(&self) -> (r: bool)
        ensures
            r == (self.spec_active().len() > 0),
    {
        self.active_alerts.len() > 0
    }

    fn count(&self, level: AlertLevel) -> (r: usize)
        ensures
            r == count_level(views(self.spec_active()), level),
    {
        let mut n: usize = 0;
        let mut i: usize = 0;
        let ghost all = views(self.active_alerts@);
        while i < self.active_alerts.len()
            invariant
                i <= self.active_alerts@.len(),
                all == views(self.active_alerts@),
                n == count_level(all.subrange(0, i as int), level),
                n <= i,
            decreases self.active_alerts@.len() - i,
        {
            proof {
                assert(all.subrange(0, i + 1).drop_last() =~= all.subrange(0, i as int));
            }
            if self.active_alerts[i].level == level {
                n += 1;
            }
            i += 1;
        }
        assert(all.subrange(0, all.len() as int) =~= all);
        n
    }

    /// How many active alerts are critical.
    pub fn critical_count(&self) -> (r: usize)
        ensures
            r == count_level(views(self.spec_active()), AlertLevel::Critical),
    {
        self.count(AlertLevel::Critical)
    }

    /// How many active alerts are warnings.
    pub fn warning_count(&self) -> (r: usize)
        ensures
            r == count_level(views(self.spec_active()), AlertLevel::Warning),
    {
        self.count(AlertLevel::Warning)
    }
}

/// The cooldown gate over time: an alert type never notified passes; once it
/// has passed at `t0`, it is held back at every `now` from `t0` until the
/// cooldown has elapsed, and passes again from then on.
pub proof fn lemma_cooldown_gate(cooldown: u64, t0: u64, now: u64)
    ensures
        gate_open(None, cooldown, now),
        t0 <= now ==> (gate_open(Some(t0), cooldown, now) <==> now - t0 >= cooldown),
        t0 <= now < t0 + cooldown ==> !gate_open(Some(t0), cooldown, now),
        now >= t0 + cooldown ==> gate_open(Some(t0), cooldown, now),
{
}


/// Desktop notification urgency.
#[derive(Debug, Clone, Copy, PartialEq, Eq, Structural)]
pub enum Urgency {
    Low,
    Normal,
    Critical,
}

/// A desktop notification ready to be shown.
#[derive(Debug, Clone)]
pub struct NotificationRequest {
    pub summary: String,
    pub body: String,
    pub icon: String,
    pub urgency: Urgency,
    pub timeout_ms: u32,
}

/// How long a notification stays up.
pub const NOTIFICATION_TIMEOUT_MS: u32 = 5000;

pub open spec fn level_summary(level: AlertLevel) -> Seq<char> {
    match level {
        AlertLevel::Critical => "\u{26a0}\u{fe0f} Critical Alert - GleamObserver"@,
        AlertLevel::Warning => "\u{26a0} Warning - GleamObserver"@,
        AlertLevel::Info => "\u{2139} Info - GleamObserver"@,
    }
}

pub open spec fn level_icon(level: AlertLevel) -> Seq<char> {
    match level {
        AlertLevel::Critical => "dialog-error"@,
        AlertLevel::Warning => "dialog-warning"@,
        AlertLevel::Info => "dialog-information"@,
    }
}

pub open spec fn level_urgency(level: AlertLevel) -> Urgency {
    match level {
        AlertLevel::Critical => Urgency::Critical,
        AlertLevel::Warning => Urgency::Normal,
        AlertLevel::Info => Urgency::Low,
    }
}

/// Turns alerts into desktop notifications, unless notifications are off.
pub struct Notifier {
    enabled: bool,
}

impl Notifier {
    pub fn new(enabled: bool) -> (r: Self)
        ensures
            r.is_enabled_spec() == enabled,
    {
        Notifier { enabled }
    }

    pub closed spec fn is_enabled_spec(&self) -> bool {
        self.enabled
    }

    pub fn is_enabled(&self) -> (r: bool)
        ensures
            r == self.is_enabled_spec(),
    {
        self.enabled
    }

    /// The notification for `alert`: nothing when disabled; otherwise the
    /// alert's message under a summary, icon and urgency set by its level.
    pub fn notification_for(&self, alert: &Alert) -> (r: Option<NotificationRequest>)
        ensures
            !self.is_enabled_spec() ==> r is None,
            self.is_enabled_spec() ==> r is Some && r->0.summary@ == level_summary(alert.level)
                && r->0.body@ == alert.message@ && r->0.icon@ == level_icon(alert.level)
                && r->0.urgency == level_urgency(alert.level) && r->0.timeout_ms
                == NOTIFICATION_TIMEOUT_MS,
    {
        if !self.enabled {
            return None;
        }
        let (summary, icon, urgency) = match alert.level {
            AlertLevel::Critical => (
                "\u{26a0}\u{fe0f} Critical Alert - GleamObserver",
                "dialog-error",
                Urgency::Critical,
            ),
            AlertLevel::Warning => (
                "\u{26a0} Warning - GleamObserver",
                "dialog-warning",
                Urgency::Normal,
            ),
            AlertLevel::Info => ("\u{2139} Info - GleamObserver", "dialog-information", Urgency::Low),
        };
        Some(
            NotificationRequest {
                summary: String::from_str(summary),
                body: alert.message.clone(),
                icon: String::from_str(icon),
                urgency,
                timeout_ms: NOTIFICATION_TIMEOUT_MS,
            },
        )
    }
}

} // verus!
