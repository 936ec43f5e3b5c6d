//! The state of recording and of the instant replay, and how it changes.
//!
//! Times are milliseconds of a clock that never runs backwards.
use vstd::prelude::*;

use crate::clock::{id_text, instant_text, new_id, now_rfc3339};
use crate::paths::{is_in, join};
use crate::recorder::command::is_software;
use crate::recorder::history::RecHistoryItem;
use crate::recorder::live::LiveStats;
use crate::recorder::params::{
    asked_audio, audio_mode, is_full_virtual, resolve_params, resolved_picture, whole_screen, Area,
    Params,
};
use crate::recorder::probe::{is_hw, lemma_software_label, EncCand, Probe};
use crate::screens::{on_screen, MonitorInfo};
use crate::settings::AppSettings;
use crate::text::{
    decimal, decimal_text, is_listed, join2, join3, listed, padded, padded_text, same, texts,
};

verus! {

/// A recording that has been started.
pub struct ActiveRec {
    /// Whether the encoder runs; else the recording is paused.
    pub running: bool,
    pub partials: Vec<String>,
    pub workdir: String,
    /// The time recorded before the last start or resumption.
    pub active_ms: u64,
    /// When the recording was last started or resumed.
    pub active_start: Option<u64>,
    pub params: Params,
    pub final_name: String,
}

impl ActiveRec {
    /// Whether the times are possible at `now`: what was recorded before the last
    /// start does not exceed the time before it, and time runs while the encoder
    /// does.
    pub open spec fn timed(self, now: u64) -> bool {
        &&& self.running == (self.active_start is Some)
        &&& match self.active_start {
            Some(t) => self.active_ms <= t <= now,
            None => self.active_ms <= now,
        }
    }

    /// The time recorded, in milliseconds.
    pub open spec fn recorded_ms(self, now: u64) -> int {
        match self.active_start {
            Some(t) => self.active_ms + (now - t),
            None => self.active_ms as int,
        }
    }

    /// The time recorded, in milliseconds.
    pub fn elapsed_ms(&self, now: u64) -> (r: u64)
        requires
            self.timed(now),
        ensures
            r == self.recorded_ms(now),
    {
        match self.active_start {
            Some(t) => self.active_ms + (now - t),
            None => self.active_ms,
        }
    }
}

/// The instant replay while it is on.
pub struct ActiveReplay {
    /// Whether the encoder runs; else the replay is being saved.
    pub running: bool,
    pub segdir: String,
    pub started_at: u64,
    pub duration_s: u64,
    pub params: Params,
}

impl ActiveReplay {
    /// How long the replay has been on, in seconds.
    pub open spec fn ready(self, now: u64) -> int {
        if now >= self.started_at {
            (now - self.started_at) / 1000
        } else {
            0
        }
    }

    /// How long the replay has been on, in seconds.
    pub fn ready_s(&self, now: u64) -> (r: u64)
        ensures
            r == self.ready(now),
    {
        if now >= self.started_at {
            (now - self.started_at) / 1000
        } else {
            0
        }
    }
}

/// Recording and replay, with the last message for the user.
pub struct Recorder {
    pub rec: Option<ActiveRec>,
    pub replay: Option<ActiveReplay>,
    pub last_message: String,
}

/// The state of the replay, in a word.
pub open spec fn replay_word(replay: Option<ActiveReplay>, now: u64) -> Seq<char> {
    match replay {
        None => "off"@,
        Some(r) => if !r.running {
            "saving"@
        } else if r.ready(now) < 3 {
            "starting"@
        } else {
            "ready"@
        },
    }
}

impl Recorder {
    /// Nothing is on.
    pub fn new() -> (r: Self)
        ensures
            r.rec is None,
            r.replay is None,
            r.last_message@.len() == 0,
    {
        Recorder { rec: None, replay: None, last_message: String::new() }
    }

    /// Whether a recording runs.
    pub open spec fn recording(self) -> bool {
        self.rec matches Some(r) && r.running
    }

    /// Whether a recording is paused.
    pub open spec fn paused(self) -> bool {
        self.rec matches Some(r) && !r.running
    }

    /// Whether a recording runs.
    pub fn is_recording(&self) -> (r: bool)
        ensures
            r == self.recording(),
    {
        match &self.rec {
            Some(r) => r.running,
            None => false,
        }
    }

    /// Whether a recording is paused.
    pub fn is_paused(&self) -> (r: bool)
        ensures
            r == self.paused(),
    {
        match &self.rec {
            Some(r) => !r.running,
            None => false,
        }
    }

    /// The state of the replay, in a word.
    pub fn replay_state(&self, now: u64) -> (r: &'static str)
        ensures
            r@ == replay_word(self.replay, now),
    {
        match &self.replay {
            None => "off",
            Some(r) => if !r.running {
                "saving"
            } else if r.ready_s(now) < 3 {
                "starting"
            } else {
                "ready"
            },
        }
    }

    /// Leaves a message for the user.
    pub fn note(&mut self, m: &str)
        ensures
            final(self).last_message@ == m@,
            final(self).rec == old(self).rec,
            final(self).replay == old(self).replay,
    {
        self.last_message = m.to_string();
    }
}

// ---- status ----

/// What the user is shown.
pub struct RecStatus {
    pub recording: bool,
    pub paused: bool,
    pub replay: String,
    pub replay_ready_s: u64,
    pub replay_duration: u64,
    pub elapsed_s: u64,
    pub frames: u64,
    pub fps: u32,
    pub width: u32,
    pub height: u32,
    pub encoder: String,
    pub encoder_label: String,
    pub size_bytes: u64,
    pub dropped: u64,
    pub message: String,
    pub ffmpeg: bool,
    pub ffmpeg_path: Option<String>,
    pub power_note: Option<String>,
}

/// Whether the status shows the picture and the encoder of these parameters.
pub open spec fn shows_params(st: RecStatus, p: Params) -> bool {
    &&& st.fps == p.fps
    &&& st.width == p.out_w
    &&& st.height == p.out_h
    &&& st.encoder@ == p.encoder@
    &&& st.encoder_label@ == p.encoder_label@
}

/// Whether the status shows what is known of the running encoder.
pub open spec fn shows_live(st: RecStatus, live: LiveStats) -> bool {
    st.frames == live.frames_base + live.frames && st.size_bytes == live.size_bytes
}

/// Whether the status shows no encoder.
pub open spec fn shows_nothing(st: RecStatus) -> bool {
    &&& st.fps == 0
    &&& st.width == 0
    &&& st.height == 0
    &&& st.encoder@.len() == 0
    &&& st.encoder_label@.len() == 0
    &&& st.frames == 0
    &&& st.size_bytes == 0
}

/// How many frames should be there by now.
pub open spec fn wanted_frames(r: ActiveRec, now: u64) -> int {
    r.recorded_ms(now) / 1000 * r.params.fps
}

/// How many frames should be there by now and are not.
pub open spec fn dropped_frames(r: ActiveRec, frames: int, now: u64) -> int {
    let wanted = wanted_frames(r, now);
    if wanted > frames {
        wanted - frames
    } else {
        0
    }
}

/// Whether `st` is the status: that of the recording if there is one, else that of
/// the replay. `live` is what is known of its encoder.
pub open spec fn is_status(
    st: RecStatus,
    rec: Recorder,
    live: LiveStats,
    now: u64,
    ffmpeg: Option<String>,
) -> bool {
    &&& st.recording == rec.recording()
    &&& st.paused == rec.paused()
    &&& st.replay@ == replay_word(rec.replay, now)
    &&& st.replay_ready_s == (match rec.replay {
        Some(r) => r.ready(now),
        None => 0,
    })
    &&& st.replay_duration == (match rec.replay {
        Some(r) => r.duration_s as int,
        None => 0,
    })
    &&& st.message@ == rec.last_message@
    &&& st.ffmpeg == (ffmpeg is Some)
    &&& st.ffmpeg_path == ffmpeg
    &&& match rec.rec {
        Some(r) => {
            &&& shows_params(st, r.params)
            &&& shows_live(st, live)
            &&& st.elapsed_s == r.recorded_ms(now) / 1000
            &&& st.dropped == dropped_frames(r, st.frames as int, now)
            &&& st.power_note == r.params.power_note
        },
        None => {
            &&& st.elapsed_s == 0
            &&& st.dropped == 0
            &&& st.power_note is None
            &&& match rec.replay {
                Some(r) => shows_params(st, r.params) && shows_live(st, live),
                None => shows_nothing(st),
            }
        },
    }
}

/// What the user is shown now.
pub fn status_of(rec: &Recorder, live: &LiveStats, now: u64, ffmpeg: Option<String>) -> (r:
    RecStatus)
    requires
        rec.rec matches Some(a) ==> a.timed(now) && wanted_frames(a, now) <= u64::MAX,
        live.frames_base + live.frames <= u64::MAX,
    ensures
        is_status(r, *rec, *live, now, ffmpeg),
{
    let replay = rec.replay_state(now).to_string();
    let (replay_ready_s, replay_duration): (u64, u64) = match &rec.replay {
        Some(r) => (r.ready_s(now), r.duration_s),
        None => (0, 0),
    };
    let message = rec.last_message.clone();
    let has_ffmpeg: bool = ffmpeg.is_some();
    let frames: u64 = live.frames_base + live.frames;
    match &rec.rec {
        Some(r) => {
            let elapsed_s: u64 = r.elapsed_ms(now) / 1000;
            let wanted: u64 = elapsed_s * r.params.fps as u64;
            let dropped: u64 = if wanted > frames {
                wanted - frames
            } else {
                0
            };
            RecStatus {
                recording: r.running,
                paused: !r.running,
                replay,
                replay_ready_s,
                replay_duration,
                elapsed_s,
                frames,
                fps: r.params.fps,
                width: r.params.out_w,
                height: r.params.out_h,
                encoder: r.params.encoder.clone(),
                encoder_label: r.params.encoder_label.clone(),
                size_bytes: live.size_bytes,
                dropped,
                message,
                ffmpeg: has_ffmpeg,
                ffmpeg_path: ffmpeg,
                power_note: r.params.power_note.clone(),
            }
        },
        None => match &rec.replay {
            Some(r) => RecStatus {
                recording: false,
                paused: false,
                replay,
                replay_ready_s,
                replay_duration,
                elapsed_s: 0,
                frames,
                fps: r.params.fps,
                width: r.params.out_w,
                height: r.params.out_h,
                encoder: r.params.encoder.clone(),
                encoder_label: r.params.encoder_label.clone(),
                size_bytes: live.size_bytes,
                dropped: 0,
                message,
                ffmpeg: has_ffmpeg,
                ffmpeg_path: ffmpeg,
                power_note: None,
            },
            None => RecStatus {
                recording: false,
                paused: false,
                replay,
                replay_ready_s,
                replay_duration,
                elapsed_s: 0,
                frames: 0,
                fps: 0,
                width: 0,
                height: 0,
                encoder: String::new(),
                encoder_label: String::new(),
                size_bytes: 0,
                dropped: 0,
                message,
                ffmpeg: has_ffmpeg,
                ffmpeg_path: ffmpeg,
                power_note: None,
            },
        },
    }
}

/// Minutes and seconds, in two digits each.
pub open spec fn clock(ms: int) -> Seq<char> {
    padded((ms / 1000 / 60) as nat, 2) + ":"@ + padded((ms / 1000 % 60) as nat, 2)
}

fn clock_text(ms: u64) -> (r: String)
    ensures
        r@ == clock(ms as int),
{
    let s: u64 = ms / 1000;
    let m = padded_text(s / 60, 2);
    let rest = padded_text(s % 60, 2);
    join3(m.as_str(), ":", rest.as_str())
}

/// The text at the tray icon.
pub open spec fn tooltip(rec: Recorder, now: u64) -> Seq<char> {
    match rec.rec {
        Some(r) => if r.running {
            "● Recording "@ + clock(r.recorded_ms(now)) + " — Ctrl+Shift+R to stop"@
        } else {
            "❚❚ Paused "@ + clock(r.recorded_ms(now))
        },
        None => match rec.replay {
            Some(rp) => "Instant Replay: "@ + replay_word(rec.replay, now) + " ("@ + decimal(
                rp.duration_s as nat,
            ) + "s)"@,
            None => "Open Screen"@,
        },
    }
}

/// The text at the tray icon.
pub fn tooltip_text(rec: &Recorder, now: u64) -> (r: String)
    requires
        rec.rec matches Some(a) ==> a.timed(now),
    ensures
        r@ == tooltip(*rec, now),
{
    match &rec.rec {
        Some(r) => {
            let t = clock_text(r.elapsed_ms(now));
            if r.running {
                join3("● Recording ", t.as_str(), " — Ctrl+Shift+R to stop")
            } else {
                join2("❚❚ Paused ", t.as_str())
            }
        },
        None => match &rec.replay {
            Some(rp) => {
                let mut s = join3("Instant Replay: ", rec.replay_state(now), " (");
                let d = decimal_text(rp.duration_s);
                s.append(d.as_str());
                s.append("s)");
                s
            },
            None => "Open Screen".to_string(),
        },
    }
}

// ---- starting ----

/// The encoder program is missing.
pub fn missing_engine() -> (r: String)
    ensures
        r@
            == "Recorder engine (ffmpeg) is missing. Open Settings → Recording and download it once. / محرك التسجيل غير موجود."@,
{
    "Recorder engine (ffmpeg) is missing. Open Settings → Recording and download it once. / محرك التسجيل غير موجود.".to_string()
}

/// Whether `p` is how `area` is recorded: as the settings say, but without sound
/// where there is no device for it.
pub open spec fn prepared(
    p: Params,
    s: AppSettings,
    probe: Probe,
    area: Area,
    replay: bool,
    desktop: bool,
) -> bool {
    &&& resolved_picture(p, s, probe, area, replay)
    &&& p.desktop == desktop
    &&& p.audio@ == if p.mic is None && p.sys is None {
        "none"@
    } else {
        audio_mode(asked_audio(s, replay))
    }
}

/// Whether sound is asked for and there is no device for it.
pub open spec fn sound_missing(p: Params, s: AppSettings, replay: bool) -> bool {
    audio_mode(asked_audio(s, replay)) != "none"@ && p.mic is None && p.sys is None
}

/// What to say once the encoder runs: that another encoder than the first is used,
/// or that sound was left out.
pub open spec fn start_note(
    p: Params,
    first_name: Seq<char>,
    first_label: Seq<char>,
    wanted_audio: Seq<char>,
    silent: Seq<char>,
) -> Option<Seq<char>> {
    if p.encoder@ != first_name {
        if is_software(p.encoder@) {
            Some("Hardware encoder unavailable. Using software encoding."@)
        } else {
            Some(first_label + " unavailable. Using "@ + p.encoder_label@ + "."@)
        }
    } else if wanted_audio != "none"@ && p.audio@ == "none"@ {
        Some(silent)
    } else {
        None
    }
}

pub(crate) fn make_start_note(p: &Params, first: &EncCand, wanted_audio: &str, silent: &str) -> (r: Option<
    String,
>)
    ensures
        match start_note(*p, first.name@, first.label@, wanted_audio@, silent@) {
            Some(m) => r matches Some(t) && t@ == m,
            None => r is None,
        },
{
    if !same(p.encoder.as_str(), first.name.as_str()) {
        if same(p.encoder.as_str(), "libx264") || same(p.encoder.as_str(), "libx265") {
            Some("Hardware encoder unavailable. Using software encoding.".to_string())
        } else {
            let mut m = join3(first.label.as_str(), " unavailable. Using ", p.encoder_label.as_str());
            m.append(".");
            Some(m)
        }
    } else if !same(wanted_audio, "none") && same(p.audio.as_str(), "none") {
        Some(silent.to_string())
    } else {
        None
    }
}

pub(crate) fn make_prepared(
    s: &AppSettings,
    probe: &Probe,
    area: Area,
    replay: bool,
    desktop: bool,
) -> (r: (Params, bool))
    ensures
        prepared(r.0, *s, *probe, area, replay, desktop),
        r.1 == sound_missing(r.0, *s, replay),
{
    let p = resolve_params(s, probe, area, replay);
    if p.mic.is_none() && p.sys.is_none() {
        let missing: bool = !same(p.audio.as_str(), "none");
        (Params { desktop, audio: "none".to_string(), ..p }, missing)
    } else {
        (Params { desktop, ..p }, false)
    }
}

impl Recorder {
    /// Whether a recording can be started: not while there is one.
    pub fn check_start(&self) -> (r: Result<(), String>)
        ensures
            match self.rec {
                Some(_) => r matches Err(e) && e@ == "Already recording."@,
                None => r is Ok,
            },
    {
        if self.rec.is_some() {
            Err("Already recording.".to_string())
        } else {
            Ok(())
        }
    }

    /// Decides how `area` is recorded.
    pub fn prepare_recording(
        &mut self,
        s: &AppSettings,
        probe: &Probe,
        area: Area,
        ms: &Vec<MonitorInfo>,
    ) -> (r: Params)
        requires
            on_screen(ms@),
        ensures
            prepared(r, *s, *probe, area, false, r.area == whole_screen(ms@)),
            final(self).rec == old(self).rec,
            final(self).replay == old(self).replay,
            final(self).last_message@ == if sound_missing(r, *s, false) {
                "Audio capture is unavailable — recording video only."@
            } else {
                old(self).last_message@
            },
    {
        let (p, missing) = make_prepared(s, probe, area, false, false);
        let desktop: bool = is_full_virtual(&p.area, ms);
        if missing {
            self.note("Audio capture is unavailable — recording video only.");
        }
        Params { desktop, ..p }
    }

    /// The encoder runs: the recording has begun. `first` is the encoder that was
    /// to be used.
    pub fn recording_started(
        &mut self,
        params: Params,
        first: &EncCand,
        wanted_audio: &str,
        workdir: String,
        final_name: String,
        now: u64,
    )
        ensures
            final(self).rec matches Some(a) && a.timed(now) && a.running && a.partials@.len() == 0
                && a.workdir == workdir && a.active_ms == 0 && a.active_start == Some(now)
                && a.params == params && a.final_name == final_name,
            final(self).replay == old(self).replay,
            final(self).last_message@ == if params.sw_fallback_note {
                "Hardware encoder unavailable. Using software encoding."@
            } else {
                match start_note(
                    params,
                    first.name@,
                    first.label@,
                    wanted_audio@,
                    "Audio capture failed — recording video only."@,
                ) {
                    Some(m) => m,
                    None => old(self).last_message@,
                }
            },
    {
        match make_start_note(
            &params,
            first,
            wanted_audio,
            "Audio capture failed — recording video only.",
        ) {
            Some(m) => {
                self.note(m.as_str());
            },
            None => {},
        }
        if params.sw_fallback_note {
            self.note("Hardware encoder unavailable. Using software encoding.");
        }
        self.rec = Some(
            ActiveRec {
                running: true,
                partials: Vec::new(),
                workdir,
                active_ms: 0,
                active_start: Some(now),
                params,
                final_name,
            },
        );
    }
}

// ---- pausing ----

/// The name of the part that a recording begins with.
pub open spec fn first_part() -> Seq<char> {
    "part001.mp4"@
}

/// The name of the part that is recorded after a resumption.
pub open spec fn live_part(n: nat) -> Seq<char> {
    "live"@ + padded(n, 3) + ".mp4"@
}

proof fn lemma_padded_digits(n: nat, width: int)
    ensures
        forall|i: int|
            0 <= i < padded(n, width).len() ==> '0' <= (#[trigger] padded(n, width)[i]) <= '9',
    decreases n,
{
    lemma_decimal_digits(n);
    assert forall|i: int| 0 <= i < padded(n, width).len() implies '0' <= (#[trigger] padded(
        n,
        width,
    )[i]) <= '9' by {
        let z = crate::text::zeros(width - decimal(n).len());
        if i < z.len() {
            assert(padded(n, width)[i] == z[i]);
        } else {
            assert(padded(n, width)[i] == decimal(n)[i - z.len()]);
        }
    }
}

proof fn lemma_decimal_digits(n: nat)
    ensures
        forall|i: int| 0 <= i < decimal(n).len() ==> '0' <= (#[trigger] decimal(n)[i]) <= '9',
    decreases n,
{
    if n >= 10 {
        lemma_decimal_digits(n / 10);
        let front = decimal(n / 10);
        assert forall|i: int| 0 <= i < decimal(n).len() implies '0' <= (#[trigger] decimal(n)[i])
            <= '9' by {
            if i < front.len() {
                assert(decimal(n)[i] == front[i]);
            } else {
                assert(decimal(n)[i] == crate::text::digit((n % 10) as int));
            }
        }
    }
}

/// The file that a recording with this folder begins with.
pub fn first_part_in(workdir: &str) -> (r: String)
    ensures
        is_in(r@, workdir@, first_part()),
{
    proof {
        reveal_strlit("part001.mp4");
    }
    join(workdir, "part001.mp4")
}

fn live_part_in(workdir: &str, n: usize) -> (r: String)
    ensures
        is_in(r@, workdir@, live_part(n as nat)),
{
    let digits = padded_text(n as u64, 3);
    let name = join3("live", digits.as_str(), ".mp4");
    proof {
        reveal_strlit("live");
        reveal_strlit(".mp4");
        lemma_padded_digits(n as nat, 3);
        assert("live"@.len() == 4 && ".mp4"@.len() == 4);
        assert forall|i: int| 0 <= i < name@.len() implies (#[trigger] name@[i]) != '/' && name@[i]
            != '\\' && name@[i] != ':' by {
            let d = padded(n as nat, 3);
            if i < 4 {
                assert(name@[i] == "live"@[i]);
            } else if i < 4 + d.len() {
                assert(name@[i] == d[i - 4]);
            } else {
                assert(name@[i] == ".mp4"@[i - 4 - d.len()]);
            }
        }
    }
    join(workdir, name.as_str())
}

/// Whether `after` is the recording `before`, paused at `now`. The part that the
/// recording began with is listed where it is there and none is listed yet; later
/// parts are listed when they are begun.
pub open spec fn is_pause(
    before: ActiveRec,
    after: ActiveRec,
    first_part_there: bool,
    now: u64,
) -> bool {
    &&& !after.running
    &&& after.active_start is None
    &&& after.active_ms == before.recorded_ms(now)
    &&& after.workdir == before.workdir
    &&& after.params == before.params
    &&& after.final_name == before.final_name
    &&& if before.partials@.len() == 0 && first_part_there {
        after.partials@.len() == 1 && is_in(after.partials@[0]@, before.workdir@, first_part())
    } else {
        after.partials@ == before.partials@
    }
}

/// Whether `after` is the paused recording `before`, resumed at `now` with a new
/// part.
pub open spec fn is_resumption(before: ActiveRec, after: ActiveRec, part: String, now: u64) -> bool {
    &&& after.running
    &&& after.active_start == Some(now)
    &&& after.active_ms == before.active_ms
    &&& after.partials@ == before.partials@.push(part)
    &&& after.workdir == before.workdir
    &&& after.params == before.params
    &&& after.final_name == before.final_name
}

impl Recorder {
    /// Whether the recording can be paused.
    pub fn check_pause(&self) -> (r: Result<(), String>)
        ensures
            match self.rec {
                None => r matches Err(e) && e@ == "Not recording."@,
                Some(a) => if a.running {
                    r is Ok
                } else {
                    r matches Err(e) && e@ == "Already paused."@
                },
            },
    {
        match &self.rec {
            None => Err("Not recording.".to_string()),
            Some(a) => if a.running {
                Ok(())
            } else {
                Err("Already paused.".to_string())
            },
        }
    }

    /// The file that the recording begins with.
    pub fn first_part(&self) -> (r: Option<String>)
        ensures
            match self.rec {
                Some(a) => r matches Some(p) && is_in(p@, a.workdir@, first_part()),
                None => r is None,
            },
    {
        match &self.rec {
            Some(a) => Some(first_part_in(a.workdir.as_str())),
            None => None,
        }
    }

    /// The encoder has ended: the recording is paused.
    pub fn recording_paused(&mut self, first_part_there: bool, now: u64)
        requires
            old(self).rec matches Some(a) && a.timed(now) && a.running,
        ensures
            final(self).replay == old(self).replay,
            final(self).last_message == old(self).last_message,
            final(self).rec matches Some(after) && is_pause(
                old(self).rec->0,
                after,
                first_part_there,
                now,
            ) && after.timed(now),
    {
        if let Some(mut a) = self.rec.take() {
            let active_ms: u64 = a.elapsed_ms(now);
            if a.partials.len() == 0 && first_part_there {
                let part = first_part_in(a.workdir.as_str());
                a.partials.push(part);
            }
            a.active_ms = active_ms;
            a.active_start = None;
            a.running = false;
            self.rec = Some(a);
        }
    }
}

/// What the paused encoder counted becomes part of what was counted before.
pub fn live_paused(live: &mut LiveStats)
    requires
        old(live).frames_base + old(live).frames <= u64::MAX,
    ensures
        final(live).frames_base == old(live).frames_base + old(live).frames,
        final(live).frames == 0,
        final(live).size_bytes == old(live).size_bytes,
        final(live).err_tail == old(live).err_tail,
{
    live.frames_base = live.frames_base + live.frames;
    live.frames = 0;
}

impl Recorder {
    /// Whether the recording can be resumed.
    pub fn check_resume(&self) -> (r: Result<(), String>)
        ensures
            match self.rec {
                None => r matches Err(e) && e@ == "Not recording."@,
                Some(a) => if a.running {
                    r matches Err(e) && e@ == "Already recording."@
                } else {
                    r is Ok
                },
            },
    {
        match &self.rec {
            None => Err("Not recording.".to_string()),
            Some(a) => if a.running {
                Err("Already recording.".to_string())
            } else {
                Ok(())
            },
        }
    }

    /// The file of the part that is recorded after a resumption: none that is
    /// listed already.
    pub fn next_part(&self) -> (r: Option<String>)
        requires
            self.rec matches Some(a) ==> a.partials@.len() < usize::MAX,
        ensures
            match self.rec {
                Some(a) => r matches Some(p) && is_in(
                    p@,
                    a.workdir@,
                    live_part((a.partials@.len() + 1) as nat),
                ),
                None => r is None,
            },
    {
        match &self.rec {
            Some(a) => {
                let n: usize = a.partials.len();
                Some(live_part_in(a.workdir.as_str(), n + 1))
            },
            None => None,
        }
    }

    /// The encoder runs again, and writes to `part`.
    pub fn recording_resumed(&mut self, part: String, now: u64)
        requires
            old(self).rec matches Some(a) && a.timed(now) && !a.running,
        ensures
            final(self).replay == old(self).replay,
            final(self).last_message == old(self).last_message,
            final(self).rec matches Some(after) && is_resumption(old(self).rec->0, after, part, now)
                && after.timed(now),
    {
        if let Some(mut a) = self.rec.take() {
            a.running = true;
            a.active_start = Some(now);
            a.partials.push(part);
            self.rec = Some(a);
        }
    }
}

// ---- stopping ----

/// Files of at most this size hold nothing.
pub const EMPTY_PART: u64 = 4096;

/// What a saved file needs beyond the size of its parts.
pub const DISK_MARGIN: u64 = 104_857_600;

/// The parts of a recording that is stopped: those listed, and the first of two
/// files that is there and not listed.
pub open spec fn sealed(
    parts: Seq<Seq<char>>,
    first: Seq<char>,
    first_there: bool,
    last: Seq<char>,
    last_there: bool,
) -> Seq<Seq<char>> {
    if first_there && !parts.contains(first) {
        parts.push(first)
    } else if last_there && !parts.contains(last) {
        parts.push(last)
    } else {
        parts
    }
}

proof fn lemma_listed_contains(v: Seq<String>, t: Seq<char>)
    ensures
        listed(v, t) == texts(v).contains(t),
{
    if listed(v, t) {
        let i = choose|i: int| 0 <= i < v.len() && (#[trigger] v[i])@ == t;
        assert(texts(v)[i] == t);
    }
    if texts(v).contains(t) {
        let i = choose|i: int| 0 <= i < texts(v).len() && texts(v)[i] == t;
        assert(v[i]@ == t);
    }
}

impl ActiveRec {
    /// The files that may hold the part that was being recorded.
    pub fn live_candidates(&self) -> (r: (String, String))
        ensures
            is_in(r.0@, self.workdir@, first_part()),
            is_in(r.1@, self.workdir@, live_part(self.partials@.len() as nat)),
    {
        (
            first_part_in(self.workdir.as_str()),
            live_part_in(self.workdir.as_str(), self.partials.len()),
        )
    }

    /// Lists the part that was being recorded.
    pub fn seal(&mut self, first: &str, first_there: bool, last: &str, last_there: bool)
        ensures
            texts(final(self).partials@) == sealed(
                texts(old(self).partials@),
                first@,
                first_there,
                last@,
                last_there,
            ),
            *final(self) == (ActiveRec { partials: final(self).partials, ..*old(self) }),
    {
        let ghost before = texts(self.partials@);
        proof {
            lemma_listed_contains(self.partials@, first@);
            lemma_listed_contains(self.partials@, last@);
        }
        if first_there && !is_listed(&self.partials, first) {
            self.partials.push(first.to_string());
            assert(texts(self.partials@) =~= before.push(first@));
        } else if last_there && !is_listed(&self.partials, last) {
            self.partials.push(last.to_string());
            assert(texts(self.partials@) =~= before.push(last@));
        }
    }
}

/// Whether a file holds something: it is there, and not empty.
pub open spec fn holds_something(size: Option<u64>) -> bool {
    size matches Some(n) && n > EMPTY_PART
}

/// Those of the first `n` parts that hold something.
pub open spec fn usable(parts: Seq<String>, sizes: Seq<Option<u64>>, n: int) -> Seq<String>
    decreases n,
{
    if n <= 0 {
        seq![]
    } else if holds_something(sizes[n - 1]) {
        usable(parts, sizes, n - 1).push(parts[n - 1])
    } else {
        usable(parts, sizes, n - 1)
    }
}

/// Those of the first `n` parts that are there and hold nothing.
pub open spec fn useless(parts: Seq<String>, sizes: Seq<Option<u64>>, n: int) -> Seq<String>
    decreases n,
{
    if n <= 0 {
        seq![]
    } else if sizes[n - 1] is Some && !holds_something(sizes[n - 1]) {
        useless(parts, sizes, n - 1).push(parts[n - 1])
    } else {
        useless(parts, sizes, n - 1)
    }
}

/// Sorts the parts of a recording into those that are joined and those that are
/// deleted. `sizes` holds the size of each part that is there.
pub fn sort_parts(parts: &Vec<String>, sizes: &Vec<Option<u64>>) -> (r: (Vec<String>, Vec<String>))
    requires
        parts.len() == sizes.len(),
    ensures
        r.0@ == usable(parts@, sizes@, parts@.len() as int),
        r.1@ == useless(parts@, sizes@, parts@.len() as int),
{
    let mut good: Vec<String> = Vec::new();
    let mut bad: Vec<String> = Vec::new();
    let mut i: usize = 0;
    while i < parts.len()
        invariant
            i <= parts.len(),
            parts.len() == sizes.len(),
            good@ == usable(parts@, sizes@, i as int),
            bad@ == useless(parts@, sizes@, i as int),
        decreases parts.len() - i,
    {
        if let Some(n) = sizes[i] {
            if n > EMPTY_PART {
                good.push(parts[i].clone());
            } else {
                bad.push(parts[i].clone());
            }
        }
        i = i + 1;
    }
    (good, bad)
}

/// The sum of the first `n` sizes.
pub open spec fn sum(sizes: Seq<u64>, n: int) -> int
    decreases n,
{
    if n <= 0 {
        0
    } else {
        sum(sizes, n - 1) + sizes[n - 1]
    }
}

proof fn lemma_sum_grows(sizes: Seq<u64>, a: int, b: int)
    requires
        0 <= a <= b <= sizes.len(),
    ensures
        0 <= sum(sizes, a) <= sum(sizes, b),
    decreases b,
{
    if a < b {
        lemma_sum_grows(sizes, a, b - 1);
    } else if a > 0 {
        lemma_sum_grows(sizes, a - 1, a - 1);
    }
}

/// The space that a file made of parts of these sizes needs.
pub fn space_for(sizes: &Vec<u64>) -> (r: u64)
    requires
        sum(sizes@, sizes@.len() as int) + DISK_MARGIN <= u64::MAX,
    ensures
        r == sum(sizes@, sizes@.len() as int) + DISK_MARGIN,
{
    let mut total: u64 = 0;
    let mut i: usize = 0;
    while i < sizes.len()
        invariant
            i <= sizes.len(),
            total == sum(sizes@, i as int),
            sum(sizes@, sizes@.len() as int) + DISK_MARGIN <= u64::MAX,
        decreases sizes.len() - i,
    {
        proof {
            lemma_sum_grows(sizes@, i + 1, sizes@.len() as int);
        }
        total = total + sizes[i];
        i = i + 1;
    }
    total + DISK_MARGIN
}

impl Recorder {
    /// Ends the recording, and hands it out.
    pub fn take_recording(&mut self) -> (r: Result<ActiveRec, String>)
        ensures
            match old(self).rec {
                Some(a) => r == Ok::<ActiveRec, String>(a),
                None => r matches Err(e) && e@ == "Not recording."@,
            },
            final(self).rec is None,
            final(self).replay == old(self).replay,
            final(self).last_message == old(self).last_message,
    {
        match self.rec.take() {
            Some(a) => Ok(a),
            None => Err("Not recording.".to_string()),
        }
    }

    /// Nothing is left of a recording that was stopped. `tail` is what the encoder
    /// said last of errors.
    pub fn nothing_recorded(&mut self, tail: &str)
        ensures
            final(self).rec == old(self).rec,
            final(self).replay == old(self).replay,
            final(self).last_message@ == if tail@.len() == 0 {
                "Nothing was recorded."@
            } else {
                "Nothing was recorded. "@ + tail@
            },
    {
        if tail.is_empty() {
            self.note("Nothing was recorded.");
        } else {
            let m = join2("Nothing was recorded. ", tail);
            self.note(m.as_str());
        }
    }
}

/// The entry of a recording that was stopped at `now`, and saved at `out`.
pub fn recorded_item_at(
    a: &ActiveRec,
    id: String,
    created_at: String,
    out: &str,
    size: u64,
    now: u64,
) -> (r: RecHistoryItem)
    requires
        a.timed(now),
    ensures
        r.id == id,
        r.created_at == created_at,
        r.name@ == a.final_name@,
        r.path@ == out@,
        r.duration_s == a.recorded_ms(now) / 1000,
        r.width == a.params.out_w,
        r.height == a.params.out_h,
        r.fps == a.params.fps,
        r.size == size,
        r.kind@ == "screen"@,
{
    RecHistoryItem {
        id,
        name: a.final_name.clone(),
        path: out.to_string(),
        created_at,
        duration_s: a.elapsed_ms(now) / 1000,
        width: a.params.out_w,
        height: a.params.out_h,
        fps: a.params.fps,
        size,
        kind: "screen".to_string(),
    }
}

/// The entry of a recording that was stopped at `now`, and saved at `out`, with
/// the date and a fresh identity.
pub fn recorded_item(a: &ActiveRec, out: &str, size: u64, now: u64) -> (r: RecHistoryItem)
    requires
        a.timed(now),
    ensures
        id_text(r.id@),
        instant_text(r.created_at@),
        r.name@ == a.final_name@,
        r.path@ == out@,
        r.duration_s == a.recorded_ms(now) / 1000,
        r.width == a.params.out_w,
        r.height == a.params.out_h,
        r.fps == a.params.fps,
        r.size == size,
        r.kind@ == "screen"@,
{
    recorded_item_at(a, new_id(), now_rfc3339(), out, size, now)
}

// ---- laws ----

/// The status agrees with the recorder: a recording never runs and pauses at once, the
/// frames that are missing are those of the seconds that are shown, and without a recording
/// nothing of one is shown.
pub proof fn law_status_agrees(
    st: RecStatus,
    rec: Recorder,
    live: LiveStats,
    now: u64,
    ffmpeg: Option<String>,
)
    requires
        is_status(st, rec, live, now, ffmpeg),
    ensures
        st.recording == rec.recording() && st.paused == rec.paused(),
        !(st.recording && st.paused),
        st.replay@ == replay_word(rec.replay, now),
        st.ffmpeg == (st.ffmpeg_path is Some),
        st.recording || st.paused ==> st.dropped == if st.elapsed_s * st.fps > st.frames {
            st.elapsed_s * st.fps - st.frames
        } else {
            0
        },
        !st.recording && !st.paused ==> st.elapsed_s == 0 && st.dropped == 0
            && st.power_note is None,
{
}

/// A recording that is encoded in software says so: either no hardware was on offer at all,
/// or the hardware that was to be used did not work.
pub proof fn law_software_is_told(
    p: Params,
    first_name: Seq<char>,
    first_label: Seq<char>,
    wanted_audio: Seq<char>,
    silent: Seq<char>,
)
    requires
        is_software(p.encoder@),
        p.sw_fallback_note == !is_hw(first_name),
    ensures
        p.sw_fallback_note || start_note(p, first_name, first_label, wanted_audio, silent) == Some(
            "Hardware encoder unavailable. Using software encoding."@,
        ),
{
    lemma_software_label();
}

/// The time that a recording is paused does not count: what is recorded is the
/// time before the pause and the time after the resumption.
pub proof fn law_pause_does_not_count(
    before: ActiveRec,
    paused: ActiveRec,
    resumed: ActiveRec,
    there: bool,
    part: String,
    t1: u64,
    t2: u64,
    t3: u64,
)
    requires
        before.timed(t1),
        is_pause(before, paused, there, t1),
        is_resumption(paused, resumed, part, t2),
        t1 <= t2 <= t3,
    ensures
        resumed.recorded_ms(t3) == before.recorded_ms(t1) + (t3 - t2),
        paused.recorded_ms(t2) == before.recorded_ms(t1),
{
}

/// Pausing and resuming lose no part: every part that was listed stays listed, in
/// its place.
pub proof fn law_parts_stay(
    before: ActiveRec,
    paused: ActiveRec,
    resumed: ActiveRec,
    there: bool,
    part: String,
    t1: u64,
    t2: u64,
    i: int,
)
    requires
        is_pause(before, paused, there, t1),
        is_resumption(paused, resumed, part, t2),
        0 <= i < before.partials@.len(),
    ensures
        resumed.partials@.len() > before.partials@.len(),
        resumed.partials@[i] == before.partials@[i],
{
}

/// What is recorded grows with the clock while the recording runs, and stands still while it
/// is paused; it never exceeds the time that has passed.
pub proof fn law_time_recorded(a: ActiveRec, now: u64, later: u64)
    requires
        a.timed(now),
        now <= later,
    ensures
        a.timed(later),
        a.running ==> a.recorded_ms(later) == a.recorded_ms(now) + later - now,
        !a.running ==> a.recorded_ms(later) == a.recorded_ms(now),
        0 <= a.recorded_ms(now) <= now,
        a.active_start == Some(now) || a.active_start is None ==> a.recorded_ms(now) == a.active_ms,
{
}

/// A replay is ready once it has been on for three seconds, and not before; while it is
/// saved, it is neither.
pub proof fn law_replay_words(r: ActiveReplay, now: u64)
    ensures
        replay_word(None, now) == "off"@,
        !r.running ==> replay_word(Some(r), now) == "saving"@,
        r.running && now >= r.started_at + 3000 ==> replay_word(Some(r), now) == "ready"@,
        r.running && now < r.started_at + 3000 ==> replay_word(Some(r), now) == "starting"@,
        now >= r.started_at ==> 1000 * r.ready(now) <= now - r.started_at < 1000 * (r.ready(now)
            + 1),
        now < r.started_at ==> r.ready(now) == 0,
{
}

/// The status shows the seconds that were recorded in full, all frames that were counted,
/// and the picture that is recorded: that of the recording, if there is one, else that of
/// the replay.
pub proof fn law_status_shows(
    st: RecStatus,
    rec: Recorder,
    live: LiveStats,
    now: u64,
    ffmpeg: Option<String>,
)
    requires
        is_status(st, rec, live, now, ffmpeg),
    ensures
        rec.rec matches Some(a) ==> {
            &&& 1000 * st.elapsed_s <= a.recorded_ms(now) < 1000 * (st.elapsed_s + 1)
            &&& st.recording == a.running && st.paused == !a.running
            &&& st.fps == a.params.fps && st.width == a.params.out_w && st.height == a.params.out_h
            &&& st.encoder@ == a.params.encoder@ && st.encoder_label@ == a.params.encoder_label@
            &&& st.power_note == a.params.power_note
            &&& st.frames == live.frames + live.frames_base
            &&& st.size_bytes == live.size_bytes
            &&& st.dropped <= st.elapsed_s * st.fps
            &&& st.dropped + st.frames >= st.elapsed_s * st.fps
            &&& st.dropped > 0 ==> st.dropped + st.frames == st.elapsed_s * st.fps
        },
        rec.rec is None && rec.replay is Some ==> {
            let r = rec.replay->0;
            &&& st.fps == r.params.fps && st.width == r.params.out_w && st.height == r.params.out_h
            &&& st.encoder@ == r.params.encoder@ && st.encoder_label@ == r.params.encoder_label@
            &&& st.frames == live.frames + live.frames_base
            &&& st.size_bytes == live.size_bytes
        },
        rec.rec is None && rec.replay is None ==> st.frames == 0 && st.size_bytes == 0 && st.fps == 0
            && st.width == 0 && st.height == 0 && st.encoder@.len() == 0
            && st.encoder_label@.len() == 0,
        match rec.replay {
            Some(r) => st.replay_duration == r.duration_s && (now >= r.started_at ==> 1000
                * st.replay_ready_s <= now - r.started_at < 1000 * (st.replay_ready_s + 1)),
            None => st.replay_duration == 0 && st.replay_ready_s == 0,
        },
        st.message@ == rec.last_message@,
        st.ffmpeg_path == ffmpeg,
{
    if let Some(a) = rec.rec {
        let seconds = a.recorded_ms(now) / 1000;
        assert(0 <= seconds * a.params.fps) by (nonlinear_arith)
            requires
                0 <= seconds,
                0 <= a.params.fps,
        ;
    }
}

/// The clock shows minutes and seconds.
pub proof fn law_clock(ms: int, minutes: nat, seconds: nat)
    requires
        seconds < 60,
        1000 * (60 * minutes + seconds) <= ms < 1000 * (60 * minutes + seconds) + 1000,
    ensures
        clock(ms) == padded(minutes, 2) + ":"@ + padded(seconds, 2),
{
}

/// The text at the tray icon shows the time of the recording, running or paused; without a
/// recording it shows the replay, and without that the name of the program.
pub proof fn law_tooltip(rec: Recorder, now: u64)
    ensures
        rec.rec matches Some(a) ==> (a.running ==> tooltip(rec, now) == "● Recording "@ + clock(
            a.recorded_ms(now),
        ) + " — Ctrl+Shift+R to stop"@) && (!a.running ==> tooltip(rec, now) == "❚❚ Paused "@
            + clock(a.recorded_ms(now))),
        rec.rec is None ==> (rec.replay matches Some(r) ==> tooltip(rec, now) == "Instant Replay: "@
            + replay_word(rec.replay, now) + " ("@ + decimal(r.duration_s as nat) + "s)"@),
        rec.rec is None && rec.replay is None ==> tooltip(rec, now) == "Open Screen"@,
{
}

/// The user hears of an encoder that is not the one that was to be used, and, where it is,
/// of sound that was asked for and is not recorded; of nothing else.
pub proof fn law_start_note(
    p: Params,
    first_name: Seq<char>,
    first_label: Seq<char>,
    wanted_audio: Seq<char>,
    silent: Seq<char>,
)
    ensures
        p.encoder@ == first_name && (p.audio@ != "none"@ || wanted_audio == "none"@) <==> start_note(
            p,
            first_name,
            first_label,
            wanted_audio,
            silent,
        ) is None,
        p.encoder@ == first_name && p.audio@ == "none"@ && wanted_audio != "none"@ ==> start_note(
            p,
            first_name,
            first_label,
            wanted_audio,
            silent,
        ) == Some(silent),
        p.encoder@ != first_name && (p.encoder@ == "libx264"@ || p.encoder@ == "libx265"@)
            ==> start_note(p, first_name, first_label, wanted_audio, silent) == Some(
            "Hardware encoder unavailable. Using software encoding."@,
        ),
        p.encoder@ != first_name && p.encoder@ != "libx264"@ && p.encoder@ != "libx265"@
            ==> start_note(p, first_name, first_label, wanted_audio, silent) == Some(
            first_label + " unavailable. Using "@ + p.encoder_label@ + "."@,
        ),
{
}

/// The parts of a recording have names of their own: that it begins with none that is
/// recorded after a resumption, and no two of those the same.
pub proof fn law_part_names(n: nat)
    ensures
        live_part(n) == "live"@ + padded(n, 3) + ".mp4"@,
        first_part() != live_part(n),
{
    reveal_strlit("part001.mp4");
    reveal_strlit("live");
    assert(first_part()[0] == 'p');
    assert(live_part(n)[0] == 'l');
}

/// Pausing lists the first part where nothing is listed yet and it is there, and changes
/// nothing else of what is listed; the recording stays what it was.
pub proof fn law_pause(before: ActiveRec, after: ActiveRec, there: bool, now: u64)
    requires
        before.timed(now),
        is_pause(before, after, there, now),
    ensures
        !after.running && after.active_start is None,
        before.active_start matches Some(t) ==> after.active_ms == before.active_ms + (now - t),
        before.partials@.len() > 0 || !there ==> after.partials@ == before.partials@,
        before.partials@.len() == 0 && there ==> after.partials@.len() == 1 && is_in(
            after.partials@[0]@,
            before.workdir@,
            "part001.mp4"@,
        ),
        after.workdir == before.workdir && after.params == before.params && after.final_name
            == before.final_name,
{
}

/// Resuming adds the new part behind the others.
pub proof fn law_resume(before: ActiveRec, after: ActiveRec, part: String, now: u64)
    requires
        is_resumption(before, after, part, now),
    ensures
        after.running && after.active_start == Some(now) && after.active_ms == before.active_ms,
        after.partials@.len() == before.partials@.len() + 1,
        after.partials@[before.partials@.len() as int] == part,
        after.workdir == before.workdir && after.params == before.params && after.final_name
            == before.final_name,
{
}

/// Sealing lists one file more at most, behind the others; it lists a file that is there,
/// and none twice. What is listed afterwards misses the file that the recording began with
/// only where that is not there.
pub proof fn law_sealed(
    parts: Seq<Seq<char>>,
    first: Seq<char>,
    first_there: bool,
    last: Seq<char>,
    last_there: bool,
)
    ensures
        ({
            let r = sealed(parts, first, first_there, last, last_there);
            &&& r.len() <= parts.len() + 1
            &&& r.take(parts.len() as int) == parts
            &&& r.len() > parts.len() ==> !parts.contains(r.last()) && (r.last() == first
                && first_there || r.last() == last && last_there)
            &&& first_there ==> r.contains(first)
            &&& last_there && (!first_there || parts.contains(first)) ==> r.contains(last)
        }),
{
    let r = sealed(parts, first, first_there, last, last_there);
    assert(r.take(parts.len() as int) =~= parts);
    if first_there && !parts.contains(first) {
        assert(r[parts.len() as int] == first);
    } else if last_there && !parts.contains(last) {
        assert(r[parts.len() as int] == last);
        if first_there {
            let i = choose|i: int| 0 <= i < parts.len() && parts[i] == first;
            assert(r[i] == first);
        }
    }
}

/// Of the parts of a recording, those above 4096 bytes are joined, in their order, and those
/// that are there and no larger are deleted; what is not there is neither.
pub proof fn law_parts_sorted(
    parts: Seq<String>,
    sizes: Seq<Option<u64>>,
    p: String,
    size: Option<u64>,
)
    requires
        parts.len() == sizes.len(),
    ensures
        ({
            let n = parts.len() as int;
            let good = usable(parts, sizes, n);
            let bad = useless(parts, sizes, n);
            let more_good = usable(parts.push(p), sizes.push(size), n + 1);
            let more_bad = useless(parts.push(p), sizes.push(size), n + 1);
            match size {
                Some(k) => if k > 4096 {
                    more_good == good.push(p) && more_bad == bad
                } else {
                    more_good == good && more_bad == bad.push(p)
                },
                None => more_good == good && more_bad == bad,
            }
        }),
        usable(seq![], seq![], 0).len() == 0,
        useless(seq![], seq![], 0).len() == 0,
{
    lemma_sorted_front(parts, sizes, p, size, parts.len() as int);
}

proof fn lemma_sorted_front(
    parts: Seq<String>,
    sizes: Seq<Option<u64>>,
    p: String,
    size: Option<u64>,
    n: int,
)
    requires
        parts.len() == sizes.len(),
        n <= parts.len(),
    ensures
        usable(parts.push(p), sizes.push(size), n) == usable(parts, sizes, n),
        useless(parts.push(p), sizes.push(size), n) == useless(parts, sizes, n),
    decreases n,
{
    if n > 0 {
        lemma_sorted_front(parts, sizes, p, size, n - 1);
    }
}

/// The sum of sizes counts each of them once.
pub proof fn law_sum(sizes: Seq<u64>, size: u64)
    ensures
        sum(sizes.push(size), sizes.len() as int + 1) == sum(sizes, sizes.len() as int) + size,
        sum(seq![], 0) == 0,
        DISK_MARGIN == 100 * 1024 * 1024,
{
    lemma_sum_front(sizes, size, sizes.len() as int);
}

proof fn lemma_sum_front(sizes: Seq<u64>, size: u64, n: int)
    requires
        n <= sizes.len(),
    ensures
        sum(sizes.push(size), n) == sum(sizes, n),
    decreases n,
{
    if n > 0 {
        lemma_sum_front(sizes, size, n - 1);
    }
}

/// Nothing is recorded of sound where there is no device for it; where there is one, what is
/// recorded is what is asked for.
pub proof fn law_sound_as_asked(
    p: Params,
    s: AppSettings,
    probe: Probe,
    area: Area,
    replay: bool,
    desktop: bool,
)
    requires
        prepared(p, s, probe, area, replay, desktop),
    ensures
        p.desktop == desktop,
        p.mic is None && p.sys is None ==> p.audio@ == "none"@,
        p.mic is Some || p.sys is Some ==> p.audio@ == audio_mode(asked_audio(s, replay)),
        sound_missing(p, s, replay) ==> p.audio@ == "none"@ && p.mic is None && p.sys is None,
        p.audio@ == "none"@ && !sound_missing(p, s, replay) ==> audio_mode(asked_audio(s, replay))
            == "none"@,
{
}

/// Of starting, pausing and resuming, just one can be done at a time: starting where there is no
/// recording, pausing where one runs, and resuming where one is paused.
pub proof fn law_one_can_be_done(
    rec: &Recorder,
    start: Result<(), String>,
    pause: Result<(), String>,
    resume: Result<(), String>,
)
    requires
        call_ensures(Recorder::check_start, (rec,), start),
        call_ensures(Recorder::check_pause, (rec,), pause),
        call_ensures(Recorder::check_resume, (rec,), resume),
    ensures
        start is Ok <==> rec.rec is None,
        pause is Ok <==> rec.recording(),
        resume is Ok <==> rec.paused(),
        start is Ok ==> !(pause is Ok) && !(resume is Ok),
        pause is Ok ==> !(resume is Ok),
        start is Ok || pause is Ok || resume is Ok,
{
}

/// A recording runs or is paused if there is one, and never both.
pub proof fn law_running_or_paused(rec: &Recorder, a: bool, b: bool)
    requires
        call_ensures(Recorder::is_recording, (rec,), a),
        call_ensures(Recorder::is_paused, (rec,), b),
    ensures
        rec.rec is Some <==> a || b,
        !(a && b),
        rec.rec matches Some(r) ==> a == r.running,
{
}

} // verus!
