use vstd::prelude::*;

verus! {

/// Which screen is shown.
#[derive(Debug, Clone, Copy, PartialEq, Eq, Structural)]
pub enum ViewMode {
    Dashboard,
    Processes,
    History,
}

/// How the process list is ordered.
#[derive(Debug, Clone, Copy, PartialEq, Eq, Structural)]
pub enum ProcessSortMode {
    Cpu,
    Memory,
    Name,
    Pid,
}

/// Which dialog is open.
#[derive(Debug, Clone, Copy, PartialEq, Eq, Structural)]
pub enum DialogMode {
    Closed,
    ConfirmKill,
    ConfirmTerminate,
    ProcessInfo,
}

impl ViewMode {
    /// Dashboard and process list swap; history returns to the dashboard.
    pub fn toggled(self) -> (r: ViewMode)
        ensures
            r == match self {
                ViewMode::Dashboard => ViewMode::Processes,
                ViewMode::Processes => ViewMode::Dashboard,
                ViewMode::History => ViewMode::Dashboard,
            },
    {
        match self {
            ViewMode::Dashboard => ViewMode::Processes,
            ViewMode::Processes => ViewMode::Dashboard,
            ViewMode::History => ViewMode::Dashboard,
        }
    }
}

impl ProcessSortMode {
    /// CPU, memory, name, pid, and round again.
    pub fn cycled(self) -> (r: ProcessSortMode)
        ensures
            r == match self {
                ProcessSortMode::Cpu => ProcessSortMode::Memory,
                ProcessSortMode::Memory => ProcessSortMode::Name,
                ProcessSortMode::Name => ProcessSortMode::Pid,
                ProcessSortMode::Pid => ProcessSortMode::Cpu,
            },
    {
        match self {
            ProcessSortMode::Cpu => ProcessSortMode::Memory,
            ProcessSortMode::Memory => ProcessSortMode::Name,
            ProcessSortMode::Name => ProcessSortMode::Pid,
            ProcessSortMode::Pid => ProcessSortMode::Cpu,
        }
    }
}

/// The selection one row up, stopping at the first row.
pub fn selection_up(index: usize) -> (r: usize)
    ensures
        r == if index > 0 {
            (index - 1) as usize
        } else {
            0
        },
{
    if index > 0 {
        index - 1
    } else {
        0
    }
}

/// The selection one row down, stopping at the last of `max` rows.
pub fn selection_down(index: usize, max: usize) -> (r: usize)
    ensures
        r == if max > 0 && index < max - 1 {
            (index + 1) as usize
        } else {
            index
        },
{
    if max > 0 && index < max - 1 {
        index + 1
    } else {
        index
    }
}

/// Entering history playback starts at the newest of `history_len`
/// samples, or nowhere when there are none.
pub fn playback_start(history_len: usize) -> (r: Option<usize>)
    ensures
        r == if history_len > 0 {
            Some((history_len - 1) as usize)
        } else {
            None::<usize>
        },
{
    if history_len > 0 {
        Some(history_len - 1)
    } else {
        None
    }
}

/// One sample back in playback, stopping at the oldest.
pub fn playback_back(index: Option<usize>) -> (r: Option<usize>)
    ensures
        r == match index {
            Some(i) => Some(
                if i > 0 {
                    (i - 1) as usize
                } else {
                    0usize
                },
            ),
            None => None,
        },
{
    match index {
        Some(i) => Some(
            if i > 0 {
                i - 1
            } else {
                0
            },
        ),
        None => None,
    }
}

/// One sample forward in playback, stopping at the newest of `max_len`.
pub fn playback_forward(index: Option<usize>, max_len: usize) -> (r: Option<usize>)
    ensures
        r == match index {
            Some(i) => Some(
                if i + 1 < max_len {
                    (i + 1) as usize
                } else {
                    i
                },
            ),
            None => None,
        },
{
    match index {
        Some(i) => Some(
            if i < max_len && i + 1 < max_len {
                i + 1
            } else {
                i
            },
        ),
        None => None,
    }
}

/// Key events are polled with this timeout, in milliseconds.
pub struct EventHandler {
    tick_rate_ms: u64,
}

impl EventHandler {
    pub fn new(tick_rate_ms: u64) -> (r: Self)
        ensures
            r.spec_tick_rate_ms() == tick_rate_ms,
    {
        EventHandler { tick_rate_ms }
    }

    pub closed spec fn spec_tick_rate_ms(&self) -> u64 {
        self.tick_rate_ms
    }

    pub fn tick_rate_ms(&self) -> (r: u64)
        ensures
            r == self.spec_tick_rate_ms(),
    {
        self.tick_rate_ms
    }
}

} // verus!
