//! Capture of whole monitors, frame by frame, as the compositor hands them out.
use vstd::prelude::*;

use crate::text::{decimal, decimal_text, join2, join3, same};

verus! {

/// A monitor that can be captured.
pub struct WgcMonitorInfo {
    pub index: usize,
    pub name: String,
    pub width: u32,
    pub height: u32,
    pub refresh_rate: u32,
    pub primary: bool,
}

/// What the system tells of a monitor. What it does not tell is missing.
pub struct RawDisplay {
    pub name: Option<String>,
    pub width: Option<u32>,
    pub height: Option<u32>,
    pub refresh_rate: Option<u32>,
}

/// What comes of asking the system for its monitors.
pub enum Enumerated {
    /// The system cannot capture so.
    Unsupported,
    /// The system refused, for this reason.
    Failed(String),
    /// The monitors, and the name of the primary one.
    Found(Vec<RawDisplay>, Option<String>),
}

/// What does the capturing.
pub fn backend_name(windows: bool) -> (r: &'static str)
    ensures
        r@ == if windows {
            "Windows Graphics Capture"@
        } else {
            "unsupported"@
        },
{
    if windows {
        "Windows Graphics Capture"
    } else {
        "unsupported"
    }
}

/// A monitor's name: what it is called, and its place where it has no name.
pub open spec fn display_name(d: RawDisplay, i: int) -> Seq<char> {
    match d.name {
        Some(n) => n@,
        None => "Display "@ + decimal((i + 1) as nat),
    }
}

/// The number, and none where it is missing.
pub open spec fn or_zero(n: Option<u32>) -> u32 {
    match n {
        Some(v) => v,
        None => 0,
    }
}

/// The name of the primary monitor, empty where the system does not tell it.
pub open spec fn primary_name(name: Option<String>) -> Seq<char> {
    match name {
        Some(n) => n@,
        None => seq![],
    }
}

/// Whether a monitor is listed as the system tells of it.
pub open spec fn is_listed_as(m: WgcMonitorInfo, d: RawDisplay, i: int, primary: Seq<char>) -> bool {
    &&& m.index == i
    &&& m.name@ == display_name(d, i)
    &&& m.width == or_zero(d.width)
    &&& m.height == or_zero(d.height)
    &&& m.refresh_rate == or_zero(d.refresh_rate)
    &&& m.primary == (display_name(d, i) == primary)
}

fn number_of(n: &Option<u32>) -> (r: u32)
    ensures
        r == or_zero(*n),
{
    match n {
        Some(v) => *v,
        None => 0,
    }
}

/// Lists the monitors that can be captured, in the system's order.
pub fn list_monitors(found: &Enumerated) -> (r: Result<Vec<WgcMonitorInfo>, String>)
    ensures
        match *found {
            Enumerated::Unsupported => r matches Err(e) && e@
                == "Windows Graphics Capture requires Windows."@,
            Enumerated::Failed(why) => r matches Err(e) && e@ == "Monitor enumerate failed: "@
                + why@,
            Enumerated::Found(ds, primary) => r matches Ok(ms) && ms@.len() == ds@.len()
                && forall|i: int|
                0 <= i < ds@.len() ==> is_listed_as(
                    #[trigger] ms@[i],
                    ds@[i],
                    i,
                    primary_name(primary),
                ),
        },
{
    match found {
        Enumerated::Unsupported => Err("Windows Graphics Capture requires Windows.".to_string()),
        Enumerated::Failed(why) => Err(join2("Monitor enumerate failed: ", why.as_str())),
        Enumerated::Found(ds, primary) => {
            let primary_text = match primary {
                Some(n) => n.clone(),
                None => String::new(),
            };
            assert(primary_text@ =~= primary_name(*primary));
            let mut out: Vec<WgcMonitorInfo> = Vec::new();
            let count: usize = ds.len();
            let mut i: usize = 0;
            while i < count
                invariant
                    i <= count,
                    count == ds@.len(),
                    out@.len() == i,
                    primary_text@ == primary_name(*primary),
                    forall|k: int|
                        0 <= k < i ==> is_listed_as(
                            #[trigger] out@[k],
                            ds@[k],
                            k,
                            primary_name(*primary),
                        ),
                decreases count - i,
            {
                let d = &ds[i];
                let name = match &d.name {
                    Some(n) => n.clone(),
                    None => join2("Display ", decimal_text(i as u64 + 1).as_str()),
                };
                let primary: bool = same(name.as_str(), primary_text.as_str());
                out.push(
                    WgcMonitorInfo {
                        index: i,
                        name,
                        width: number_of(&d.width),
                        height: number_of(&d.height),
                        refresh_rate: number_of(&d.refresh_rate),
                        primary,
                    },
                );
                i = i + 1;
            }
            Ok(out)
        },
    }
}

// ---- trying a capture out ----

/// How long a trial lasts, in seconds: at least one.
pub fn probe_seconds(secs: u64) -> (r: u64)
    ensures
        r == if secs < 1 {
            1
        } else {
            secs as int
        },
{
    if secs < 1 {
        1
    } else {
        secs
    }
}

/// What is said where the monitor to try is not there: the one with this number, or the
/// primary one.
pub fn probe_error(index: Option<usize>, why: &str) -> (r: String)
    ensures
        r@ == match index {
            Some(i) => "Monitor "@ + decimal(i as nat) + " not found: "@ + why@,
            None => "Primary monitor not found: "@ + why@,
        },
{
    match index {
        Some(i) => {
            let head = join3("Monitor ", decimal_text(i as u64).as_str(), " not found: ");
            join2(head.as_str(), why)
        },
        None => join2("Primary monitor not found: ", why),
    }
}

/// What is said where the capture could not be run.
pub fn probe_failed(why: &str) -> (r: String)
    ensures
        r@ == "WGC session failed: "@ + why@,
{
    join2("WGC session failed: ", why)
}

/// What a trial has seen so far. Times are in nanoseconds, on one clock.
pub struct ProbeCount {
    pub frames: u64,
    pub width: u32,
    pub height: u32,
    pub first: Option<u64>,
    pub last: Option<u64>,
    pub monotonic: bool,
}

/// What a trial has seen.
pub struct WgcStats {
    pub backend: String,
    pub width: u32,
    pub height: u32,
    pub frames: u64,
    pub elapsed_ms: u64,
    pub monotonic: bool,
}

impl ProbeCount {
    /// Whether the trial started with its first frame, and has a last one then.
    pub open spec fn wf(self) -> bool {
        &&& (self.frames > 0) == (self.first is Some)
        &&& (self.frames > 0) == (self.last is Some)
        &&& self.frames > 0 && self.monotonic ==> self.first->0 <= self.last->0
    }

    /// A trial that has seen nothing yet.
    pub fn new() -> (r: Self)
        ensures
            r.wf(),
            r.frames == 0,
            r.width == 0,
            r.height == 0,
            !r.monotonic,
    {
        ProbeCount { frames: 0, width: 0, height: 0, first: None, last: None, monotonic: false }
    }

    /// Counts a frame. The first one tells the size; a frame that is earlier than the one
    /// before it breaks the order of times for good. Says whether the trial is over.
    pub fn on_frame(&mut self, now: u64, width: u32, height: u32, deadline: u64) -> (r: bool)
        requires
            old(self).wf(),
            old(self).frames < u64::MAX,
        ensures
            final(self).wf(),
            r == (now >= deadline),
            final(self).frames == old(self).frames + 1,
            final(self).last == Some(now),
            old(self).frames == 0 ==> final(self).width == width && final(self).height == height
                && final(self).first == Some(now) && final(self).monotonic,
            old(self).frames > 0 ==> final(self).width == old(self).width,
            old(self).frames > 0 ==> final(self).height == old(self).height,
            old(self).frames > 0 ==> final(self).first == old(self).first,
            old(self).frames > 0 ==> final(self).monotonic == (old(self).monotonic && now >= old(
                self).last->0),
    {
        if self.frames == 0 {
            self.width = width;
            self.height = height;
            self.first = Some(now);
            self.monotonic = true;
        } else {
            match self.last {
                Some(last) => {
                    if now < last {
                        self.monotonic = false;
                    }
                },
                None => {},
            }
        }
        self.frames = self.frames + 1;
        self.last = Some(now);
        now >= deadline
    }

    /// What the trial has seen, after this long.
    pub fn stats(&self, elapsed_ms: u64) -> (r: WgcStats)
        ensures
            r.backend@ == "Windows Graphics Capture"@,
            r.width == self.width,
            r.height == self.height,
            r.frames == self.frames,
            r.elapsed_ms == elapsed_ms,
            r.monotonic == self.monotonic,
    {
        WgcStats {
            backend: backend_name(true).to_string(),
            width: self.width,
            height: self.height,
            frames: self.frames,
            elapsed_ms,
            monotonic: self.monotonic,
        }
    }
}

// ---- laws ----

/// A monitor is listed with the number, the name and the size that the system tells; one without
/// a name is called by its place, counted from one. The primary one is that with the primary name.
pub proof fn law_listed_as(m: WgcMonitorInfo, d: RawDisplay, i: int, primary: Seq<char>)
    requires
        is_listed_as(m, d, i, primary),
        i >= 0,
    ensures
        m.index == i,
        d.name matches Some(n) ==> m.name@ == n@,
        d.name is None ==> m.name@ == "Display "@ + decimal((i + 1) as nat),
        d.width matches Some(v) ==> m.width == v,
        d.height matches Some(v) ==> m.height == v,
        d.refresh_rate matches Some(v) ==> m.refresh_rate == v,
        d.width is None ==> m.width == 0,
        d.height is None ==> m.height == 0,
        d.refresh_rate is None ==> m.refresh_rate == 0,
        m.primary <==> m.name@ == primary,
{
}

/// A trial lasts as long as it is asked to, and a second at least.
pub proof fn law_probe_seconds(secs: u64, r: u64)
    requires
        call_ensures(probe_seconds, (secs,), r),
    ensures
        r >= 1 && r >= secs,
        r == secs || r == 1,
{
}

} // verus!
