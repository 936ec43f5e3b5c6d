//! What to record, and how: the settings resolved against what is offered.
use vstd::prelude::*;

use crate::recorder::probe::{
    chain_names, encoder_chain, is_hw, is_hw_encoder, label_of, labelled, names, Probe,
};
use crate::screens::{
    bounds, law_span_holds_all, on_screen, span, ActiveWindowInfo, MonitorInfo,
};
use crate::settings::{clamped, is_default, AppSettings};
use crate::text::{
    ascii_only, begins, contains, decimal, holds, is_listed, law_decimal, law_lowercase,
    law_number_reads_back, listed, lowercase, number, parse_number, same, starts_with, tail_from, to_lowercase, trim, trimmed,
};

verus! {

/// A part of the virtual screen.
#[derive(Clone, Copy)]
pub struct Area {
    pub x: i32,
    pub y: i32,
    pub w: u32,
    pub h: u32,
}

/// How to record.
pub struct Params {
    pub area: Area,
    /// Whether the whole virtual screen is recorded.
    pub desktop: bool,
    /// `auto`, `h264`, `hevc` or `av1`.
    pub codec: String,
    pub out_w: u32,
    pub out_h: u32,
    pub fps: u32,
    pub encoder: String,
    pub encoder_label: String,
    pub sw_fallback_note: bool,
    pub bitrate_k: u32,
    /// `none`, `mic`, `system` or `both`.
    pub audio: String,
    pub mic: Option<String>,
    pub sys: Option<String>,
    pub sample_rate: u32,
    pub channels: u32,
    pub cursor: bool,
    pub power_note: Option<String>,
}

impl Clone for Params {
    fn clone(&self) -> (r: Self)
        ensures
            r == *self,
    {
        Params {
            area: self.area,
            desktop: self.desktop,
            codec: self.codec.clone(),
            out_w: self.out_w,
            out_h: self.out_h,
            fps: self.fps,
            encoder: self.encoder.clone(),
            encoder_label: self.encoder_label.clone(),
            sw_fallback_note: self.sw_fallback_note,
            bitrate_k: self.bitrate_k,
            audio: self.audio.clone(),
            mic: self.mic.clone(),
            sys: self.sys.clone(),
            sample_rate: self.sample_rate,
            channels: self.channels,
            cursor: self.cursor,
            power_note: self.power_note.clone(),
        }
    }
}

/// The even number at or just below `n`, at least 2.
pub open spec fn evened(n: int) -> int {
    if n < 2 {
        2
    } else {
        n / 2 * 2
    }
}

/// The even number at or just below `n`, at least 2.
pub fn even(n: u32) -> (r: u32)
    ensures
        r == evened(n as int),
        r % 2 == 0,
        r >= 2,
        n >= 2 ==> n - 1 <= r <= n,
{
    if n < 2 {
        2
    } else {
        n / 2 * 2
    }
}

/// One of three bit rates, by the height of the picture.
pub open spec fn by_height(height: int, full: int, mid: int, small: int) -> int {
    if height >= 1080 {
        full
    } else if height >= 720 {
        mid
    } else {
        small
    }
}

/// The bit rate, in thousands per second, for a quality and a height.
pub open spec fn bitrate(quality: Seq<char>, height: int) -> int {
    if quality == "low"@ {
        by_height(height, 5000, 3000, 1500)
    } else if quality == "high"@ {
        by_height(height, 12000, 10000, 5000)
    } else if quality == "veryhigh"@ {
        by_height(height, 20000, 16000, 8000)
    } else {
        by_height(height, 8000, 6000, 3000)
    }
}

fn pick_rate(height: u32, full: u32, mid: u32, small: u32) -> (r: u32)
    ensures
        r == by_height(height as int, full as int, mid as int, small as int),
{
    if height >= 1080 {
        full
    } else if height >= 720 {
        mid
    } else {
        small
    }
}

/// The bit rate, in thousands per second, for a quality and a height.
pub fn bitrate_for(quality: &str, height: u32) -> (r: u32)
    ensures
        r == bitrate(quality@, height as int),
{
    if same(quality, "low") {
        pick_rate(height, 5000, 3000, 1500)
    } else if same(quality, "high") {
        pick_rate(height, 12000, 10000, 5000)
    } else if same(quality, "veryhigh") {
        pick_rate(height, 20000, 16000, 8000)
    } else {
        pick_rate(height, 8000, 6000, 3000)
    }
}

// ---- audio ----

/// Whether the name of a device is that of a recording of what is played.
pub open spec fn is_loopback(name: Seq<char>) -> bool {
    let l = lowercase(name);
    holds(l, "stereo mix"@) || holds(l, "what u hear"@) || holds(l, "loopback"@) || holds(
        l,
        "wave out"@,
    )
}

/// The first device from `from` on that is no recording of what is played.
pub open spec fn first_mic(devs: Seq<String>, from: int) -> Option<String>
    decreases devs.len() - from,
{
    if from < 0 || from >= devs.len() {
        None
    } else if !is_loopback(devs[from]@) {
        Some(devs[from])
    } else {
        first_mic(devs, from + 1)
    }
}

/// The microphone: the chosen one if it is there, else the first device that is
/// no recording of what is played, else the first device.
pub open spec fn mic_of(s: AppSettings, devs: Seq<String>) -> Option<String> {
    if trimmed(s.rec_mic_device@).len() > 0 && listed(devs, s.rec_mic_device@) {
        Some(s.rec_mic_device)
    } else {
        match first_mic(devs, 0) {
            Some(d) => Some(d),
            None => if devs.len() > 0 {
                Some(devs[0])
            } else {
                None
            },
        }
    }
}

/// Picks the microphone.
pub fn pick_mic(s: &AppSettings, devs: &Vec<String>) -> (r: Option<String>)
    ensures
        r == mic_of(*s, devs@),
{
    let wanted = s.rec_mic_device.as_str();
    let t = trim(wanted);
    if !t.as_str().is_empty() && is_listed(devs, wanted) {
        return Some(s.rec_mic_device.clone());
    }
    let mut i: usize = 0;
    while i < devs.len()
        invariant
            i <= devs.len(),
            !(trimmed(s.rec_mic_device@).len() > 0 && listed(devs@, s.rec_mic_device@)),
            first_mic(devs@, 0) == first_mic(devs@, i as int),
        decreases devs.len() - i,
    {
        let l = to_lowercase(devs[i].as_str());
        let n = l.as_str();
        if !(contains(n, "stereo mix") || contains(n, "what u hear") || contains(n, "loopback")
            || contains(n, "wave out")) {
            return Some(devs[i].clone());
        }
        i = i + 1;
    }
    if devs.len() > 0 {
        Some(devs[0].clone())
    } else {
        None
    }
}

/// What is asked for, in lower case.
pub open spec fn asked_audio(s: AppSettings, replay: bool) -> Seq<char> {
    lowercase(
        if replay {
            s.replay_audio@
        } else {
            s.rec_audio@
        },
    )
}

/// What is recorded: `mic`, `system`, `both` or `none`.
pub open spec fn audio_mode(asked: Seq<char>) -> Seq<char> {
    if asked == "mic"@ || asked == "microphone"@ {
        "mic"@
    } else if asked == "system"@ {
        "system"@
    } else if asked == "both"@ {
        "both"@
    } else {
        "none"@
    }
}

/// Whether a mode has the microphone in it.
pub open spec fn has_mic(mode: Seq<char>) -> bool {
    mode == "mic"@ || mode == "both"@
}

/// Whether a mode has in it what is played.
pub open spec fn has_system(mode: Seq<char>) -> bool {
    mode == "system"@ || mode == "both"@
}

pub(crate) proof fn lemma_modes_differ()
    ensures
        "mic"@ != "system"@,
        "mic"@ != "both"@,
        "mic"@ != "none"@,
        "system"@ != "both"@,
        "system"@ != "none"@,
        "both"@ != "none"@,
{
    reveal_strlit("mic");
    reveal_strlit("system");
    reveal_strlit("both");
    reveal_strlit("none");
    assert("mic"@.len() == 3 && "system"@.len() == 6);
    assert("both"@.len() == 4 && "none"@.len() == 4);
    assert("both"@[0] == 'b' && "none"@[0] == 'n');
}

/// Decides what is recorded of sound, and from which devices.
pub fn resolve_audio(s: &AppSettings, probe: &Probe, replay: bool) -> (r: (
    String,
    Option<String>,
    Option<String>,
))
    ensures
        r.0@ == audio_mode(asked_audio(*s, replay)),
        r.1 == if has_mic(r.0@) {
            mic_of(*s, probe.audio_devices@)
        } else {
            None
        },
        r.2 == if has_system(r.0@) {
            probe.system_hint
        } else {
            None
        },
{
    proof {
        lemma_modes_differ();
    }
    let asked = if replay {
        to_lowercase(s.replay_audio.as_str())
    } else {
        to_lowercase(s.rec_audio.as_str())
    };
    let mode = asked.as_str();
    if same(mode, "mic") || same(mode, "microphone") {
        ("mic".to_string(), pick_mic(s, &probe.audio_devices), None)
    } else if same(mode, "system") {
        ("system".to_string(), None, probe.system_hint.clone())
    } else if same(mode, "both") {
        (
            "both".to_string(),
            pick_mic(s, &probe.audio_devices),
            probe.system_hint.clone(),
        )
    } else {
        ("none".to_string(), None, None)
    }
}

// ---- picture ----

/// The frame rate: 24, 30 or 60.
pub open spec fn rate_of(s: AppSettings, replay: bool) -> int {
    if replay {
        if s.replay_preset@ == "quick"@ {
            30
        } else {
            60
        }
    } else if s.rec_fps == 24 || s.rec_fps == 30 || s.rec_fps == 60 {
        s.rec_fps as int
    } else {
        60
    }
}

/// The resolution that is asked for.
pub open spec fn resolution(s: AppSettings, replay: bool) -> Seq<char> {
    if replay {
        if s.replay_preset@ == "quick"@ {
            "720p"@
        } else {
            "1080p"@
        }
    } else {
        s.rec_resolution@
    }
}

/// The height that a resolution stands for.
pub open spec fn named_height(res: Seq<char>, custom: int, source: int) -> int {
    if res == "1080p"@ {
        1080
    } else if res == "720p"@ {
        720
    } else if res == "480p"@ {
        480
    } else if res == "custom"@ {
        clamped(custom, 240, 2160)
    } else {
        source
    }
}

/// The height of the picture before it is made even. Only a height of the user's
/// own may be above that of the source.
pub open spec fn raw_height(s: AppSettings, area: Area, replay: bool) -> int {
    let res = resolution(s, replay);
    let h = named_height(res, s.rec_custom_h as int, area.h as int);
    if h > area.h && res != "custom"@ {
        area.h as int
    } else {
        h
    }
}

/// The width of the picture before it is made even: in proportion to its height,
/// but for the source's own and the user's own.
pub open spec fn raw_width(s: AppSettings, area: Area, replay: bool) -> int {
    let res = resolution(s, replay);
    if res == "custom"@ && !replay {
        clamped(s.rec_custom_w as int, 320, 3840)
    } else if res == "source"@ {
        area.w as int
    } else {
        area.w * raw_height(s, area, replay) / (if area.h < 1 {
            1
        } else {
            area.h as int
        })
    }
}

/// The quality of a recording.
pub open spec fn quality_of(s: AppSettings) -> Seq<char> {
    if s.rec_preset@ == "battery"@ {
        "low"@
    } else if s.rec_preset@ == "quality"@ {
        "high"@
    } else if s.rec_preset@ == "custom"@ {
        s.rec_quality@
    } else {
        "high"@
    }
}

/// The bit rate in millions per second that the user asks for.
pub open spec fn own_rate(s: AppSettings) -> int {
    if s.rec_bitrate@ == "custom"@ {
        clamped(s.rec_bitrate_custom as int, 1, 100)
    } else {
        match number(s.rec_bitrate@, u32::MAX as int) {
            Some(n) => clamped(n as int, 1, 100),
            None => 8,
        }
    }
}

/// The bit rate in thousands per second, for a picture of this height.
pub open spec fn rate_k(s: AppSettings, replay: bool, out_h: int) -> int {
    if replay {
        bitrate(
            if s.replay_preset@ == "quick"@ {
                "low"@
            } else {
                "high"@
            },
            out_h,
        )
    } else if s.rec_preset@ == "custom"@ && s.rec_bitrate@ != "auto"@ {
        own_rate(s) * 1000
    } else {
        bitrate(quality_of(s), out_h)
    }
}

/// The codec that is asked for.
pub open spec fn codec_of(s: AppSettings, replay: bool) -> Seq<char> {
    if replay {
        "h264"@
    } else if s.rec_codec@ == "hevc"@ || s.rec_codec@ == "av1"@ {
        s.rec_codec@
    } else {
        "auto"@
    }
}

/// Whether recording is to save power.
pub open spec fn saves_power(s: AppSettings, replay: bool) -> bool {
    !replay && s.rec_power_saving
}

fn clamp(n: u32, low: u32, high: u32) -> (r: u32)
    ensures
        r == clamped(n as int, low as int, high as int),
{
    if n < low {
        low
    } else if n > high {
        high
    } else {
        n
    }
}

fn resolve_rate(s: &AppSettings, replay: bool) -> (r: u32)
    ensures
        r == rate_of(*s, replay),
{
    if replay {
        if same(s.replay_preset.as_str(), "quick") {
            30
        } else {
            60
        }
    } else if s.rec_fps == 24 || s.rec_fps == 30 || s.rec_fps == 60 {
        s.rec_fps
    } else {
        60
    }
}

proof fn lemma_resolutions_differ()
    ensures
        "1080p"@ != "720p"@,
        "1080p"@ != "480p"@,
        "1080p"@ != "custom"@,
        "1080p"@ != "source"@,
        "720p"@ != "480p"@,
        "720p"@ != "custom"@,
        "720p"@ != "source"@,
        "480p"@ != "custom"@,
        "480p"@ != "source"@,
        "custom"@ != "source"@,
{
    reveal_strlit("1080p");
    reveal_strlit("720p");
    reveal_strlit("480p");
    reveal_strlit("custom");
    reveal_strlit("source");
    assert("720p"@[0] == '7' && "480p"@[0] == '4');
    assert("custom"@[0] == 'c' && "source"@[0] == 's');
}

/// The size of the picture, before it is made even.
fn raw_size(s: &AppSettings, area: &Area, replay: bool) -> (r: (u32, u32))
    ensures
        r.0 == raw_width(*s, *area, replay),
        r.1 == raw_height(*s, *area, replay),
{
    proof {
        lemma_resolutions_differ();
    }
    let res = if replay {
        if same(s.replay_preset.as_str(), "quick") {
            "720p".to_string()
        } else {
            "1080p".to_string()
        }
    } else {
        s.rec_resolution.clone()
    };
    let key = res.as_str();
    let custom: bool = same(key, "custom");
    let mut h: u32 = if same(key, "1080p") {
        1080
    } else if same(key, "720p") {
        720
    } else if same(key, "480p") {
        480
    } else if custom {
        clamp(s.rec_custom_h, 240, 2160)
    } else {
        area.h
    };
    if h > area.h && !custom {
        h = area.h;
    }
    let w: u32 = if custom && !replay {
        clamp(s.rec_custom_w, 320, 3840)
    } else if same(key, "source") {
        area.w
    } else {
        let below: u64 = if area.h < 1 {
            1
        } else {
            area.h as u64
        };
        proof {
            assert(area.w * h <= 0xffff_ffff * 0xffff_ffff) by (nonlinear_arith)
                requires
                    area.w <= 0xffff_ffff,
                    h <= 0xffff_ffff,
            ;
            assert((area.w * h) / (below as int) <= area.w) by (nonlinear_arith)
                requires
                    0 <= h <= below,
                    0 < below,
                    0 <= area.w,
            ;
        }
        (area.w as u64 * h as u64 / below) as u32
    };
    (w, h)
}

fn resolve_bitrate(s: &AppSettings, replay: bool, out_h: u32) -> (r: u32)
    ensures
        r == rate_k(*s, replay, out_h as int),
{
    if replay {
        return if same(s.replay_preset.as_str(), "quick") {
            bitrate_for("low", out_h)
        } else {
            bitrate_for("high", out_h)
        };
    }
    let preset = s.rec_preset.as_str();
    let own: bool = same(preset, "custom");
    if own && !same(s.rec_bitrate.as_str(), "auto") {
        let millions: u32 = if same(s.rec_bitrate.as_str(), "custom") {
            clamp(s.rec_bitrate_custom, 1, 100)
        } else {
            match parse_number(s.rec_bitrate.as_str(), u32::MAX as u64) {
                Some(n) => clamp(n as u32, 1, 100),
                None => 8,
            }
        };
        return millions * 1000;
    }
    if same(preset, "battery") {
        bitrate_for("low", out_h)
    } else if same(preset, "quality") {
        bitrate_for("high", out_h)
    } else if own {
        bitrate_for(s.rec_quality.as_str(), out_h)
    } else {
        bitrate_for("high", out_h)
    }
}

/// Whether `p` is how the settings say to record `area`, leaving aside whether
/// that is the whole screen, and whether sound is recorded in the end.
pub open spec fn resolved_picture(
    p: Params,
    s: AppSettings,
    probe: Probe,
    area: Area,
    replay: bool,
) -> bool {
    let out_h = evened(raw_height(s, area, replay));
    let mode = audio_mode(asked_audio(s, replay));
    &&& p.area == (Area {
        x: area.x,
        y: area.y,
        w: evened(area.w as int) as u32,
        h: evened(area.h as int) as u32,
    })
    &&& p.codec@ == codec_of(s, replay)
    &&& p.out_w == evened(raw_width(s, area, replay))
    &&& p.out_h == out_h
    &&& p.fps == if saves_power(s, replay) && rate_of(s, replay) > 30 {
        30
    } else {
        rate_of(s, replay)
    }
    &&& p.encoder@ == chain_names(probe, codec_of(s, replay))[0]
    &&& p.encoder_label@ == label_of(p.encoder@)
    &&& p.sw_fallback_note == !is_hw(p.encoder@)
    &&& p.bitrate_k == if saves_power(s, replay) && rate_k(s, replay, out_h) > bitrate(
        "low"@,
        out_h,
    ) {
        bitrate("low"@, out_h)
    } else {
        rate_k(s, replay, out_h)
    }
    &&& p.mic == if has_mic(mode) {
        mic_of(s, probe.audio_devices@)
    } else {
        None
    }
    &&& p.sys == if has_system(mode) {
        probe.system_hint
    } else {
        None
    }
    &&& p.sample_rate == if s.rec_sample_rate == 44100 {
        44100int
    } else {
        48000
    }
    &&& p.channels == if s.rec_channels == 1 {
        1int
    } else {
        2
    }
    &&& p.cursor == s.rec_cursor
    &&& match p.power_note {
        Some(n) => saves_power(s, replay) && n@ == "Power saving active: 30 FPS, lower bitrate."@,
        None => !saves_power(s, replay),
    }
}

/// Whether `p` is how the settings say to record `area`.
pub open spec fn resolved(p: Params, s: AppSettings, probe: Probe, area: Area, replay: bool) -> bool {
    &&& resolved_picture(p, s, probe, area, replay)
    &&& !p.desktop
    &&& p.audio@ == audio_mode(asked_audio(s, replay))
}

/// Resolves the settings for a recording, or for the replay, of `area`.
pub fn resolve_params(s: &AppSettings, probe: &Probe, area: Area, replay: bool) -> (r: Params)
    ensures
        resolved(r, *s, *probe, area, replay),
{
    let fps: u32 = resolve_rate(s, replay);
    let (raw_w, raw_h) = raw_size(s, &area, replay);
    let out_w: u32 = even(raw_w);
    let out_h: u32 = even(raw_h);
    let bitrate_k: u32 = resolve_bitrate(s, replay, out_h);
    let codec = if replay {
        "h264".to_string()
    } else if same(s.rec_codec.as_str(), "hevc") || same(s.rec_codec.as_str(), "av1") {
        s.rec_codec.clone()
    } else {
        "auto".to_string()
    };
    let chain = encoder_chain(probe, codec.as_str());
    assert(names(chain@)[0] == chain@[0].name@);
    assert(labelled(chain@));
    let encoder = chain[0].name.clone();
    let encoder_label = chain[0].label.clone();
    let sw_fallback_note: bool = !is_hw_encoder(encoder.as_str());
    let (audio, mic, sys) = resolve_audio(s, probe, replay);
    let mut power_note: Option<String> = None;
    let mut fps_out: u32 = fps;
    let mut bitrate_out: u32 = bitrate_k;
    if !replay && s.rec_power_saving {
        if fps > 30 {
            fps_out = 30;
        }
        let low: u32 = bitrate_for("low", out_h);
        if bitrate_k > low {
            bitrate_out = low;
        }
        power_note = Some("Power saving active: 30 FPS, lower bitrate.".to_string());
    }
    Params {
        area: Area { x: area.x, y: area.y, w: even(area.w), h: even(area.h) },
        desktop: false,
        codec,
        out_w,
        out_h,
        fps: fps_out,
        encoder,
        encoder_label,
        sw_fallback_note,
        bitrate_k: bitrate_out,
        audio,
        mic,
        sys,
        sample_rate: if s.rec_sample_rate == 44100 {
            44100
        } else {
            48000
        },
        channels: if s.rec_channels == 1 {
            1
        } else {
            2
        },
        cursor: s.rec_cursor,
        power_note,
    }
}

// ---- areas ----

/// The whole virtual screen; an ordinary screen where no monitor is known.
pub open spec fn whole_screen(ms: Seq<MonitorInfo>) -> Area {
    if ms.len() == 0 {
        Area { x: 0, y: 0, w: 1920, h: 1080 }
    } else {
        let b = span(ms, ms.len() as int);
        Area {
            x: b.left as i32,
            y: b.top as i32,
            w: (if b.right - b.left < 2 {
                2
            } else {
                b.right - b.left
            }) as u32,
            h: (if b.bottom - b.top < 2 {
                2
            } else {
                b.bottom - b.top
            }) as u32,
        }
    }
}

/// The whole virtual screen.
pub fn full_virtual_area(ms: &Vec<MonitorInfo>) -> (r: Area)
    requires
        on_screen(ms@),
    ensures
        r == whole_screen(ms@),
{
    if ms.len() == 0 {
        return Area { x: 0, y: 0, w: 1920, h: 1080 };
    }
    let b = bounds(ms);
    let w: i64 = b.right as i64 - b.left as i64;
    let h: i64 = b.bottom as i64 - b.top as i64;
    assert(b@.left == b.left && b@.top == b.top);
    Area {
        x: b.left,
        y: b.top,
        w: if w < 2 {
            2
        } else {
            w as u32
        },
        h: if h < 2 {
            2
        } else {
            h as u32
        },
    }
}

/// Whether an area is the whole virtual screen.
pub fn is_full_virtual(a: &Area, ms: &Vec<MonitorInfo>) -> (r: bool)
    requires
        on_screen(ms@),
    ensures
        r == (*a == whole_screen(ms@)),
{
    let v = full_virtual_area(ms);
    a.x == v.x && a.y == v.y && a.w == v.w && a.h == v.h
}

/// An area of a size that can be recorded: even, and at least 64 by 64.
pub open spec fn recordable(a: Area) -> Area {
    Area {
        x: a.x,
        y: a.y,
        w: evened(clamped(a.w as int, 64, u32::MAX as int)) as u32,
        h: evened(clamped(a.h as int, 64, u32::MAX as int)) as u32,
    }
}

fn make_recordable(a: Area) -> (r: Area)
    ensures
        r == recordable(a),
{
    Area {
        x: a.x,
        y: a.y,
        w: even(
            if a.w < 64 {
                64
            } else {
                a.w
            },
        ),
        h: even(
            if a.h < 64 {
                64
            } else {
                a.h
            },
        ),
    }
}

/// The area of a monitor.
pub open spec fn monitor_area(m: MonitorInfo) -> Area {
    Area { x: m.x, y: m.y, w: m.width, h: m.height }
}

/// The monitor with this number, else the first one.
pub open spec fn monitor_or_first(ms: Seq<MonitorInfo>, idx: int) -> Option<MonitorInfo> {
    if 0 <= idx < ms.len() {
        Some(ms[idx])
    } else if ms.len() > 0 {
        Some(ms[0])
    } else {
        None
    }
}

/// The number of the monitor in a source such as `monitor:1`.
pub open spec fn monitor_number(source: Seq<char>, otherwise: int) -> int {
    match number(source.skip("monitor:"@.len() as int), usize::MAX as int) {
        Some(n) => n as int,
        None => otherwise,
    }
}

/// The area of the source that is recorded when the user names none: all
/// monitors, one monitor, the area of last time or the active window; the first
/// monitor otherwise, and all of the screen where the source is not there.
pub open spec fn source_area(
    s: AppSettings,
    ms: Seq<MonitorInfo>,
    window: Option<ActiveWindowInfo>,
) -> Area {
    let source = s.rec_default_source@;
    if source == "all"@ {
        whole_screen(ms)
    } else if begins(source, "monitor:"@) {
        match monitor_or_first(ms, monitor_number(source, s.rec_monitor as int)) {
            Some(m) => monitor_area(m),
            None => whole_screen(ms),
        }
    } else if source == "last_area"@ {
        match s.rec_last_area {
            Some(a) if a.w >= 64 && a.h >= 64 => Area { x: a.x, y: a.y, w: a.w, h: a.h },
            _ => whole_screen(ms),
        }
    } else if source == "window"@ {
        match window {
            Some(w) if w.width >= 64 && w.height >= 64 => Area {
                x: w.x,
                y: w.y,
                w: w.width,
                h: w.height,
            },
            _ => whole_screen(ms),
        }
    } else {
        match monitor_or_first(ms, 0) {
            Some(m) => monitor_area(m),
            None => whole_screen(ms),
        }
    }
}

fn monitor_at(ms: &Vec<MonitorInfo>, idx: usize) -> (r: Option<Area>)
    ensures
        match monitor_or_first(ms@, idx as int) {
            Some(m) => r == Some(monitor_area(m)),
            None => r is None,
        },
{
    if ms.len() == 0 {
        return None;
    }
    let m = if idx < ms.len() {
        &ms[idx]
    } else {
        &ms[0]
    };
    Some(Area { x: m.x, y: m.y, w: m.width, h: m.height })
}

/// The area that is recorded when the user names none. `window` is the active
/// window, where it is known.
pub fn default_source_area(
    s: &AppSettings,
    ms: &Vec<MonitorInfo>,
    window: &Option<ActiveWindowInfo>,
) -> (r: Area)
    requires
        on_screen(ms@),
    ensures
        r == recordable(source_area(*s, ms@, *window)),
{
    let source = s.rec_default_source.as_str();
    let picked: Option<Area> = if same(source, "all") {
        None
    } else if starts_with(source, "monitor:") {
        proof {
            reveal_strlit("monitor:");
            assert("monitor:"@.len() == 8);
        }
        let digits = tail_from(source, 8);
        let idx: usize = match parse_number(digits.as_str(), usize::MAX as u64) {
            Some(n) => n as usize,
            None => s.rec_monitor,
        };
        monitor_at(ms, idx)
    } else if same(source, "last_area") {
        match s.rec_last_area {
            Some(a) => if a.w >= 64 && a.h >= 64 {
                Some(Area { x: a.x, y: a.y, w: a.w, h: a.h })
            } else {
                None
            },
            None => None,
        }
    } else if same(source, "window") {
        match window {
            Some(w) => if w.width >= 64 && w.height >= 64 {
                Some(Area { x: w.x, y: w.y, w: w.width, h: w.height })
            } else {
                None
            },
            None => None,
        }
    } else {
        monitor_at(ms, 0)
    };
    match picked {
        Some(a) => make_recordable(a),
        None => make_recordable(full_virtual_area(ms)),
    }
}

// ---- laws ----

/// Only 24, 30 and 60 frames per second are ever recorded, and no more than 30
/// to save power.
pub proof fn law_frame_rates(p: Params, s: AppSettings, probe: Probe, area: Area, replay: bool)
    requires
        resolved_picture(p, s, probe, area, replay),
    ensures
        p.fps == 24 || p.fps == 30 || p.fps == 60,
        saves_power(s, replay) ==> p.fps <= 30,
{
}

/// The picture and the area have even sizes of at least 2 by 2, as the encoders
/// ask.
pub proof fn law_even_sizes(p: Params, s: AppSettings, probe: Probe, area: Area, replay: bool)
    requires
        resolved_picture(p, s, probe, area, replay),
    ensures
        p.out_w % 2 == 0 && p.out_w >= 2,
        p.out_h % 2 == 0 && p.out_h >= 2,
        p.area.w % 2 == 0 && p.area.w >= 2,
        p.area.h % 2 == 0 && p.area.h >= 2,
{
}

/// The picture is never larger than the source, unless the user asks for a size
/// of their own. (The smallest picture is 2 by 2.)
pub proof fn law_never_upscaled(p: Params, s: AppSettings, probe: Probe, area: Area, replay: bool)
    requires
        resolved_picture(p, s, probe, area, replay),
        replay || s.rec_resolution@ != "custom"@,
        area.w >= 2,
        area.h >= 2,
    ensures
        p.out_w <= area.w,
        p.out_h <= area.h,
{
    lemma_resolutions_differ();
    let h = raw_height(s, area, replay);
    assert(h <= area.h);
    assert((area.w * h) / (area.h as int) <= area.w) by (nonlinear_arith)
        requires
            0 <= h <= area.h,
            0 < area.h,
            0 <= area.w,
    ;
}

/// The bit rate stays between 1000 and 100000 thousands per second.
pub proof fn law_bitrate_bounded(p: Params, s: AppSettings, probe: Probe, area: Area, replay: bool)
    requires
        resolved_picture(p, s, probe, area, replay),
    ensures
        1000 <= p.bitrate_k <= 100_000,
{
}

/// What is recorded when the user names nothing has an even size of at least 64
/// by 64.
pub proof fn law_source_recordable(
    s: AppSettings,
    ms: Seq<MonitorInfo>,
    window: Option<ActiveWindowInfo>,
)
    ensures
        ({
            let a = recordable(source_area(s, ms, window));
            a.w >= 64 && a.w % 2 == 0 && a.h >= 64 && a.h % 2 == 0
        }),
{
}

/// An even size is the nearest one that is no larger, and never below 2.
pub proof fn law_evened(n: int, k: int)
    ensures
        n >= 2 * k && k >= 1 ==> evened(n) >= 2 * k,
        n >= 2 ==> evened(n) <= n,
        evened(n) % 2 == 0 && evened(n) >= 2,
        n < 2 ==> evened(n) == 2,
{
}

proof fn lemma_qualities_differ()
    ensures
        "low"@ != "medium"@ && "low"@ != "high"@ && "low"@ != "veryhigh"@,
        "high"@ != "medium"@ && "high"@ != "veryhigh"@ && "medium"@ != "veryhigh"@,
{
    reveal_strlit("low");
    reveal_strlit("medium");
    reveal_strlit("high");
    reveal_strlit("veryhigh");
    assert("low"@.len() == 3 && "medium"@.len() == 6);
    assert("high"@.len() == 4 && "veryhigh"@.len() == 8);
}

/// A better quality has a higher bit rate, and so has a higher picture; the rate changes at
/// 720 and at 1080 lines and nowhere else, and an unknown quality is a medium one.
pub proof fn law_bitrates(quality: Seq<char>, a: int, b: int)
    requires
        a <= b,
    ensures
        bitrate("low"@, a) < bitrate("medium"@, a) < bitrate("high"@, a) < bitrate("veryhigh"@, a),
        bitrate(quality, a) <= bitrate(quality, b),
        bitrate(quality, a) < bitrate(quality, b) <==> (a < 720 <= b || a < 1080 <= b),
        quality != "low"@ && quality != "high"@ && quality != "veryhigh"@ ==> bitrate(quality, a)
            == bitrate("medium"@, a),
        a >= 1080 ==> bitrate("low"@, a) == 5000 && bitrate("medium"@, a) == 8000 && bitrate(
            "high"@,
            a,
        ) == 12000 && bitrate("veryhigh"@, a) == 20000,
        720 <= a < 1080 ==> bitrate("low"@, a) == 3000 && bitrate("medium"@, a) == 6000 && bitrate(
            "high"@,
            a,
        ) == 10000 && bitrate("veryhigh"@, a) == 16000,
        a < 720 ==> bitrate("low"@, a) == 1500 && bitrate("medium"@, a) == 3000 && bitrate(
            "high"@,
            a,
        ) == 5000 && bitrate("veryhigh"@, a) == 8000,
{
    lemma_qualities_differ();
}

proof fn lemma_first_mic(devs: Seq<String>, from: int)
    requires
        0 <= from,
    ensures
        match first_mic(devs, from) {
            Some(d) => exists|i: int|
                from <= i < devs.len() && #[trigger] devs[i] == d && !is_loopback(d@) && (forall|
                    j: int,
                |
                    from <= j < i ==> is_loopback((#[trigger] devs[j])@)),
            None => forall|j: int| from <= j < devs.len() ==> is_loopback((#[trigger] devs[j])@),
        },
    decreases devs.len() - from,
{
    if from < devs.len() {
        if is_loopback(devs[from]@) {
            lemma_first_mic(devs, from + 1);
        } else {
            assert(devs[from] == first_mic(devs, from)->0);
        }
    }
}

/// The microphone is the chosen device wherever that is there. Where it is not, it is a
/// device that is there, the first that does not record what is played, if there is one;
/// there is no microphone only where there is no device at all.
pub proof fn law_microphone(s: AppSettings, devs: Seq<String>)
    ensures
        mic_of(s, devs) is None <==> devs.len() == 0,
        mic_of(s, devs) matches Some(d) ==> exists|i: int|
            0 <= i < devs.len() && (#[trigger] devs[i])@ == d@,
        (exists|i: int| 0 <= i < devs.len() && (#[trigger] devs[i])@ == s.rec_mic_device@) && trimmed(
            s.rec_mic_device@,
        ).len() > 0 ==> mic_of(s, devs) == Some(s.rec_mic_device),
        forall|i: int|
            0 <= i < devs.len() && !is_loopback((#[trigger] devs[i])@) && (forall|j: int|
                0 <= j < i ==> is_loopback((#[trigger] devs[j])@)) && (trimmed(
                s.rec_mic_device@,
            ).len() == 0 || forall|j: int|
                0 <= j < devs.len() ==> (#[trigger] devs[j])@ != s.rec_mic_device@) ==> mic_of(
                s,
                devs,
            ) == Some(devs[i]),
        (forall|j: int| 0 <= j < devs.len() ==> is_loopback((#[trigger] devs[j])@)) && devs.len() > 0
            && trimmed(s.rec_mic_device@).len() == 0 ==> mic_of(s, devs) == Some(devs[0]),
{
    lemma_first_mic(devs, 0);
    if listed(devs, s.rec_mic_device@) {
        let i = choose|i: int| 0 <= i < devs.len() && (#[trigger] devs[i])@ == s.rec_mic_device@;
        assert(devs[i]@ == s.rec_mic_device@);
    }
    if devs.len() > 0 {
        assert(devs[0]@ == devs[0]@);
    }
    assert forall|i: int|
        0 <= i < devs.len() && !is_loopback((#[trigger] devs[i])@) && (forall|j: int|
            0 <= j < i ==> is_loopback((#[trigger] devs[j])@)) && (trimmed(s.rec_mic_device@).len()
            == 0 || forall|j: int|
            0 <= j < devs.len() ==> (#[trigger] devs[j])@ != s.rec_mic_device@) implies mic_of(
        s,
        devs,
    ) == Some(devs[i]) by {
        assert(first_mic(devs, 0) is Some);
        let d = first_mic(devs, 0)->0;
        let k = choose|k: int|
            0 <= k < devs.len() && #[trigger] devs[k] == d && !is_loopback(d@) && (forall|j: int|
                0 <= j < k ==> is_loopback((#[trigger] devs[j])@));
        assert(devs[k] == d);
        if k < i {
            assert(is_loopback(devs[k]@));
        }
        if i < k {
            assert(is_loopback(devs[i]@));
        }
        if listed(devs, s.rec_mic_device@) {
            let m = choose|m: int| 0 <= m < devs.len() && (#[trigger] devs[m])@ == s.rec_mic_device@;
            assert(devs[m]@ == s.rec_mic_device@);
        }
    }
}

/// A device records what is played if its name, in lower case, has one of four phrases in it.
pub proof fn law_loopback(name: Seq<char>)
    ensures
        is_loopback(name) <==> holds(lowercase(name), "stereo mix"@) || holds(
            lowercase(name),
            "what u hear"@,
        ) || holds(lowercase(name), "loopback"@) || holds(lowercase(name), "wave out"@),
{
}

/// The microphone is recorded if and only if it is asked for, and so is what is played.
pub proof fn law_audio_modes(asked: Seq<char>)
    ensures
        has_mic(audio_mode(asked)) <==> asked == "mic"@ || asked == "microphone"@ || asked
            == "both"@,
        has_system(audio_mode(asked)) <==> asked == "system"@ || asked == "both"@,
        audio_mode(asked) == "none"@ <==> !has_mic(audio_mode(asked)) && !has_system(
            audio_mode(asked),
        ),
        has_mic(audio_mode(asked)) && has_system(audio_mode(asked)) <==> audio_mode(asked)
            == "both"@,
{
    lemma_modes_differ();
    reveal_strlit("microphone");
    reveal_strlit("both");
    reveal_strlit("system");
    assert("microphone"@.len() == 10);
    assert("both"@.len() == 4 && "system"@.len() == 6);
}

/// What is asked for is that of the replay for a replay, and that of recordings otherwise.
pub proof fn law_audio_asked(s: AppSettings)
    ensures
        asked_audio(s, true) == lowercase(s.replay_audio@),
        asked_audio(s, false) == lowercase(s.rec_audio@),
{
}

/// The frame rate is the chosen one where it can be recorded; to save power it is cut down to
/// 30. A replay is recorded at 60, a quick one at 30, whatever else is chosen.
pub proof fn law_frame_rate_as_chosen(
    p: Params,
    s: AppSettings,
    probe: Probe,
    area: Area,
    replay: bool,
)
    requires
        resolved_picture(p, s, probe, area, replay),
    ensures
        !replay && !s.rec_power_saving && (s.rec_fps == 24 || s.rec_fps == 30 || s.rec_fps == 60)
            ==> p.fps == s.rec_fps,
        !replay && !s.rec_power_saving && s.rec_fps != 24 && s.rec_fps != 30 ==> p.fps == 60,
        !replay && s.rec_power_saving ==> p.fps == if s.rec_fps == 24 {
            24
        } else {
            30int
        },
        replay ==> p.fps == if s.replay_preset@ == "quick"@ {
            30
        } else {
            60int
        },
{
}

/// The picture has the height that is asked for, and no more than the source; it keeps the
/// shape of the source, up to the pixels that making a size even takes away.
pub proof fn law_picture_size(p: Params, s: AppSettings, probe: Probe, area: Area, replay: bool)
    requires
        resolved_picture(p, s, probe, area, replay),
        area.w >= 2,
        area.h >= 2,
    ensures
        !replay && s.rec_resolution@ == "source"@ ==> area.w - 1 <= p.out_w <= area.w && area.h - 1
            <= p.out_h <= area.h,
        !replay && s.rec_resolution@ == "1080p"@ && area.h >= 1080 ==> p.out_h == 1080,
        !replay && s.rec_resolution@ == "720p"@ && area.h >= 720 ==> p.out_h == 720,
        !replay && s.rec_resolution@ == "480p"@ && area.h >= 480 ==> p.out_h == 480,
        !replay && s.rec_resolution@ == "1080p"@ && area.h < 1080 ==> area.h - 1 <= p.out_h <= area.h,
        !replay && s.rec_resolution@ == "720p"@ && area.h < 720 ==> area.h - 1 <= p.out_h <= area.h,
        !replay && s.rec_resolution@ == "480p"@ && area.h < 480 ==> area.h - 1 <= p.out_h <= area.h,
        !replay && s.rec_resolution@ == "custom"@ && 320 <= s.rec_custom_w <= 3840 && 240
            <= s.rec_custom_h <= 2160 ==> s.rec_custom_w - 1 <= p.out_w <= s.rec_custom_w
            && s.rec_custom_h - 1 <= p.out_h <= s.rec_custom_h,
        !replay && s.rec_resolution@ == "custom"@ ==> 320 <= p.out_w <= 3840 && 240 <= p.out_h
            <= 2160,
        !replay && s.rec_resolution@ == "custom"@ && s.rec_custom_w < 320 ==> p.out_w == 320,
        !replay && s.rec_resolution@ == "custom"@ && s.rec_custom_h < 240 ==> p.out_h == 240,
        !replay && s.rec_resolution@ == "custom"@ && s.rec_custom_w > 3840 ==> p.out_w == 3840,
        !replay && s.rec_resolution@ == "custom"@ && s.rec_custom_h > 2160 ==> p.out_h == 2160,
        replay && s.replay_preset@ == "quick"@ && area.h >= 720 ==> p.out_h == 720,
        replay && s.replay_preset@ != "quick"@ && area.h >= 1080 ==> p.out_h == 1080,
        replay && s.replay_preset@ == "quick"@ && area.h < 720 ==> area.h - 1 <= p.out_h <= area.h,
        replay && s.replay_preset@ != "quick"@ && area.h < 1080 ==> area.h - 1 <= p.out_h <= area.h,
        p.area.x == area.x && p.area.y == area.y,
        area.w - 1 <= p.area.w <= area.w && area.h - 1 <= p.area.h <= area.h,
{
    lemma_resolutions_differ();
}

/// The picture keeps the shape of the source: its width is to its height as that of the
/// source, up to what rounding takes away.
pub proof fn law_shape_is_kept(s: AppSettings, area: Area, replay: bool)
    requires
        area.h >= 1,
        replay || s.rec_resolution@ != "custom"@ && s.rec_resolution@ != "source"@,
    ensures
        ({
            let w = raw_width(s, area, replay);
            let h = raw_height(s, area, replay);
            w * area.h <= area.w * h < (w + 1) * area.h
        }),
{
    lemma_resolutions_differ();
    let w = raw_width(s, area, replay);
    let h = raw_height(s, area, replay);
    let below = area.h as int;
    assert(w == (area.w * h) / below);
    assert(w * below <= area.w * h < (w + 1) * below) by (nonlinear_arith)
        requires
            w == (area.w * h) / below,
            below >= 1,
    ;
}

/// The bit rate is the user's own where one is set, from 1 to 100 millions per second;
/// otherwise it goes with the quality of the preset and the height of the picture. Saving
/// power, it is never above that of the low quality.
pub proof fn law_rate_as_chosen(p: Params, s: AppSettings, probe: Probe, area: Area, replay: bool)
    requires
        resolved_picture(p, s, probe, area, replay),
    ensures
        !replay && s.rec_power_saving ==> p.bitrate_k <= bitrate("low"@, p.out_h as int),
        !replay && !s.rec_power_saving && s.rec_preset@ == "custom"@ && s.rec_bitrate@ == "custom"@
            && 1 <= s.rec_bitrate_custom <= 100 ==> p.bitrate_k == 1000 * s.rec_bitrate_custom,
        !replay && !s.rec_power_saving && s.rec_preset@ == "custom"@ && s.rec_bitrate@ == "custom"@
            && s.rec_bitrate_custom > 100 ==> p.bitrate_k == 100_000,
        !replay && !s.rec_power_saving && s.rec_preset@ == "custom"@ && s.rec_bitrate@ == "auto"@
            ==> p.bitrate_k == bitrate(s.rec_quality@, p.out_h as int),
        !replay && !s.rec_power_saving && s.rec_preset@ == "custom"@ && s.rec_bitrate@ != "auto"@
            ==> p.bitrate_k == 1000 * own_rate(s),
        s.rec_bitrate@ != "custom"@ && number(s.rec_bitrate@, u32::MAX as int) is None ==> own_rate(s)
            == 8,
        s.rec_bitrate@ == "custom"@ && s.rec_bitrate_custom == 0 ==> own_rate(s) == 1,
        !replay && !s.rec_power_saving && s.rec_preset@ == "battery"@ ==> p.bitrate_k == bitrate(
            "low"@,
            p.out_h as int,
        ),
        !replay && !s.rec_power_saving && s.rec_preset@ != "custom"@ && s.rec_preset@ != "battery"@
            ==> p.bitrate_k == bitrate("high"@, p.out_h as int),
        replay && s.replay_preset@ == "quick"@ ==> p.bitrate_k == bitrate("low"@, p.out_h as int),
        replay && s.replay_preset@ != "quick"@ ==> p.bitrate_k == bitrate("high"@, p.out_h as int),
{
    lemma_custom_is_not_auto();
}

proof fn lemma_custom_is_not_auto()
    ensures
        "custom"@ != "auto"@,
        "custom"@ != "battery"@,
        "custom"@ != "quality"@,
        "battery"@ != "quality"@,
{
    reveal_strlit("custom");
    reveal_strlit("auto");
    reveal_strlit("battery");
    reveal_strlit("quality");
    assert("custom"@.len() == 6 && "auto"@.len() == 4);
    assert("battery"@[0] == 'b' && "quality"@[0] == 'q' && "custom"@[0] == 'c');
}

/// A bit rate of so many millions per second is written as that number.
pub proof fn law_rate_in_digits(s: AppSettings, n: nat)
    requires
        s.rec_bitrate@ == decimal(n),
        n <= u32::MAX,
    ensures
        1 <= n <= 100 ==> own_rate(s) == n,
        n > 100 ==> own_rate(s) == 100,
        n == 0 ==> own_rate(s) == 1,
{
    reveal_strlit("custom");
    law_number_reads_back(n, u32::MAX as int);
    law_decimal(n);
    let d = decimal(n);
    assert("custom"@[5] == 'm' && "custom"@.len() == 6);
    assert(d[d.len() - 1] != 'm');
}

/// The rest of what is recorded is as it is set, where it can be.
pub proof fn law_details_as_set(p: Params, s: AppSettings, probe: Probe, area: Area, replay: bool)
    requires
        resolved_picture(p, s, probe, area, replay),
    ensures
        p.cursor == s.rec_cursor,
        s.rec_sample_rate == 44100 || s.rec_sample_rate == 48000 ==> p.sample_rate
            == s.rec_sample_rate,
        p.sample_rate == 44100 || p.sample_rate == 48000,
        p.sample_rate == 44100 ==> s.rec_sample_rate == 44100,
        s.rec_channels == 1 || s.rec_channels == 2 ==> p.channels == s.rec_channels,
        p.channels == 1 || p.channels == 2,
        p.channels == 1 ==> s.rec_channels == 1,
        p.power_note is Some <==> !replay && s.rec_power_saving,
        replay ==> p.codec@ == "h264"@,
        !replay && (s.rec_codec@ == "hevc"@ || s.rec_codec@ == "av1"@) ==> p.codec@ == s.rec_codec@,
        !replay && s.rec_codec@ != "hevc"@ && s.rec_codec@ != "av1"@ ==> p.codec@ == "auto"@,
{
}

/// Where no monitor is known, the screen is taken to be 1920 by 1080.
pub proof fn law_unknown_screen(ms: Seq<MonitorInfo>)
    requires
        ms.len() == 0,
    ensures
        whole_screen(ms) == (Area { x: 0, y: 0, w: 1920, h: 1080 }),
{
}

/// The whole screen reaches over every monitor, and each of its sides is that of a monitor.
pub proof fn law_whole_screen(ms: Seq<MonitorInfo>, i: int)
    requires
        on_screen(ms),
        0 <= i < ms.len(),
    ensures
        ({
            let a = whole_screen(ms);
            &&& a.x <= ms[i].x && ms[i].x + ms[i].width <= a.x + a.w
            &&& a.y <= ms[i].y && ms[i].y + ms[i].height <= a.y + a.h
        }),
        exists|k: int| 0 <= k < ms.len() && (#[trigger] ms[k]).x == whole_screen(ms).x,
        exists|k: int| 0 <= k < ms.len() && (#[trigger] ms[k]).y == whole_screen(ms).y,
        whole_screen(ms).w > 2 ==> exists|k: int|
            0 <= k < ms.len() && (#[trigger] ms[k]).x + ms[k].width == whole_screen(ms).x
                + whole_screen(ms).w,
        whole_screen(ms).h > 2 ==> exists|k: int|
            0 <= k < ms.len() && (#[trigger] ms[k]).y + ms[k].height == whole_screen(ms).y
                + whole_screen(ms).h,
        whole_screen(ms).w >= 2 && whole_screen(ms).h >= 2,
{
    law_span_holds_all(ms, ms.len() as int);
}

/// Making an area recordable leaves it in its place, and its size too, where that is even and
/// at least 64 by 64.
pub proof fn law_recordable(a: Area)
    ensures
        recordable(a).x == a.x && recordable(a).y == a.y,
        a.w >= 64 ==> a.w - 1 <= recordable(a).w <= a.w,
        a.h >= 64 ==> a.h - 1 <= recordable(a).h <= a.h,
        a.w < 64 ==> recordable(a).w == 64,
        a.h < 64 ==> recordable(a).h == 64,
        recordable(a).w % 2 == 0 && recordable(a).h % 2 == 0,
{
}

/// What is recorded when the user names nothing is what the settings name: all of the screen,
/// a monitor, the area of last time or the active window. Without any of these it is the first
/// monitor, and all of the screen where what is named is not there, or too small.
pub proof fn law_source_as_set(
    s: AppSettings,
    ms: Seq<MonitorInfo>,
    window: Option<ActiveWindowInfo>,
    n: nat,
)
    requires
        n <= usize::MAX,
    ensures
        s.rec_default_source@ == "all"@ ==> source_area(s, ms, window) == whole_screen(ms),
        s.rec_default_source@ == "monitor:"@ + decimal(n) && n < ms.len() ==> source_area(s, ms, window)
            == (Area { x: ms[n as int].x, y: ms[n as int].y, w: ms[n as int].width, h: ms[n as int].height }),
        s.rec_default_source@ == "monitor:"@ + decimal(n) && n >= ms.len() && ms.len() > 0 ==> source_area(
            s,
            ms,
            window,
        ) == (Area { x: ms[0].x, y: ms[0].y, w: ms[0].width, h: ms[0].height }),
        s.rec_default_source@ == "monitor:"@ && s.rec_monitor < ms.len() ==> source_area(s, ms, window)
            == ({
            let m = ms[s.rec_monitor as int];
            Area { x: m.x, y: m.y, w: m.width, h: m.height }
        }),
        s.rec_default_source@ == "last_area"@ ==> (s.rec_last_area matches Some(a) ==> (a.w >= 64
            && a.h >= 64 ==> source_area(s, ms, window) == (Area { x: a.x, y: a.y, w: a.w, h: a.h }))),
        s.rec_default_source@ == "last_area"@ && !(s.rec_last_area matches Some(a) && a.w >= 64 && a.h
            >= 64) ==> source_area(s, ms, window) == whole_screen(ms),
        s.rec_default_source@ == "window"@ ==> (window matches Some(w) ==> (w.width >= 64 && w.height
            >= 64 ==> source_area(s, ms, window) == (Area { x: w.x, y: w.y, w: w.width, h: w.height }))),
        s.rec_default_source@ == "window"@ && !(window matches Some(w) && w.width >= 64 && w.height
            >= 64) ==> source_area(s, ms, window) == whole_screen(ms),
        s.rec_default_source@ != "all"@ && s.rec_default_source@ != "last_area"@
            && s.rec_default_source@ != "window"@ && ms.len() == 0 ==> source_area(s, ms, window)
            == whole_screen(ms),
        s.rec_default_source@ != "all"@ && s.rec_default_source@ != "last_area"@
            && s.rec_default_source@ != "window"@ && !begins(s.rec_default_source@, "monitor:"@)
            && ms.len() > 0 ==> source_area(s, ms, window) == (Area {
            x: ms[0].x,
            y: ms[0].y,
            w: ms[0].width,
            h: ms[0].height,
        }),
{
    reveal_strlit("all");
    reveal_strlit("monitor:");
    reveal_strlit("last_area");
    reveal_strlit("window");
    let m = "monitor:"@;
    assert(m.len() == 8 && m[0] == 'm' && m[7] == ':');
    assert("all"@[0] == 'a' && "last_area"@[0] == 'l' && "window"@[0] == 'w');
    let d = decimal(n);
    assert((m + d)[0] == 'm');
    assert((m + d).skip(8) =~= d);
    assert((m + d).subrange(0, 8) =~= m);
    assert(m.skip(8) =~= Seq::<char>::empty());
    assert(m.subrange(0, 8) =~= m);
    law_number_reads_back(n, usize::MAX as int);
    law_number_reads_back(0, usize::MAX as int);
}

/// With settings that nobody has changed, a recording has 60 frames a second of the source's own
/// size, the bit rate of a high quality and the sound that is played.
pub proof fn law_default_recording(p: Params, s: AppSettings, probe: Probe, area: Area)
    requires
        is_default(s),
        resolved(p, s, probe, area, false),
        area.w >= 2,
        area.h >= 2,
    ensures
        p.fps == 60,
        area.w - 1 <= p.out_w <= area.w && area.h - 1 <= p.out_h <= area.h,
        p.bitrate_k == bitrate("high"@, p.out_h as int),
        p.sample_rate == 48000 && p.channels == 2,
        p.cursor,
        p.codec@ == "auto"@,
        p.power_note is None,
        p.mic is None && p.sys == probe.system_hint,
        !p.desktop,
{
    reveal_strlit("balanced");
    reveal_strlit("custom");
    reveal_strlit("battery");
    reveal_strlit("source");
    reveal_strlit("auto");
    reveal_strlit("hevc");
    reveal_strlit("av1");
    reveal_strlit("system");
    assert("balanced"@.len() == 8 && "custom"@.len() == 6 && "battery"@.len() == 7);
    assert("auto"@.len() == 4 && "hevc"@.len() == 4 && "av1"@.len() == 3);
    assert("auto"@[0] == 'a' && "hevc"@[0] == 'h');
    law_rate_as_chosen(p, s, probe, area, false);
    law_picture_size(p, s, probe, area, false);
    law_frame_rate_as_chosen(p, s, probe, area, false);
    law_details_as_set(p, s, probe, area, false);
    let w = "system"@;
    assert(w.len() == 6 && ascii_only(w));
    assert(lowercase(w) =~= w) by {
        law_lowercase(w, 0);
        assert forall|i: int| 0 <= i < w.len() implies #[trigger] lowercase(w)[i] == w[i] by {
            law_lowercase(w, i);
        }
    }
    law_audio_modes(w);
    lemma_modes_differ();
    reveal_strlit("microphone");
    assert("microphone"@.len() == 10);
    assert(p.power_note is None);
}

/// The microphone is recorded from the device that is picked for it, and what is played from the
/// device that records it, each only where it is asked for.
pub proof fn law_sound_devices(p: Params, s: AppSettings, probe: Probe, area: Area, replay: bool)
    requires
        resolved_picture(p, s, probe, area, replay),
    ensures
        ({
            let asked = asked_audio(s, replay);
            let mic = asked == "mic"@ || asked == "microphone"@ || asked == "both"@;
            let sys = asked == "system"@ || asked == "both"@;
            &&& mic ==> p.mic == mic_of(s, probe.audio_devices@)
            &&& sys ==> p.sys == probe.system_hint
            &&& !mic ==> p.mic is None
            &&& !sys ==> p.sys is None
        }),
{
    law_audio_modes(asked_audio(s, replay));
}

} // verus!
