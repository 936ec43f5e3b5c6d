//! What the tray, the hotkeys and the windows do.
use vstd::prelude::*;

use crate::picture::{
    lemma_pixel_inside, lemma_pixel_of_byte, load, loaded, pixels, to_rgba, Bitmap,
};
use crate::recorder::files::Launch;
use crate::recorder::params::{law_source_as_set, source_area, Area};
use crate::recorder::session::RecStatus;
use crate::screens::{
    bounds, law_span_holds_all, most, on_screen, span, ActiveWindowInfo, MonitorInfo,
};
use crate::screenshot::Region;
use crate::settings::{countdown_of, AppSettings, RecArea};
use crate::text::{join2, join3, same, texts};

verus! {

// ---- captures ----

/// The longest delay of a capture, in milliseconds.
pub const LONGEST_DELAY_MS: u64 = 30_000;

/// How long a capture is put off.
pub fn capture_delay(delay_ms: u64) -> (r: u64)
    ensures
        r == if delay_ms <= LONGEST_DELAY_MS {
            delay_ms
        } else {
            LONGEST_DELAY_MS
        },
{
    if delay_ms <= LONGEST_DELAY_MS {
        delay_ms
    } else {
        LONGEST_DELAY_MS
    }
}

/// What is captured.
pub enum Capture {
    Monitor(usize),
    Window,
    All,
    Part(Region),
}

/// What a word asks to capture: the first monitor where none is named, and otherwise a
/// region, of which what is missing is 0.
pub fn capture_of(
    mode: &str,
    x: Option<i32>,
    y: Option<i32>,
    w: Option<u32>,
    h: Option<u32>,
    monitor: Option<usize>,
) -> (r: Capture)
    ensures
        r == if mode@ == "fullscreen"@ {
            Capture::Monitor(
                match monitor {
                    Some(i) => i,
                    None => 0,
                },
            )
        } else if mode@ == "window"@ {
            Capture::Window
        } else if mode@ == "all"@ {
            Capture::All
        } else {
            Capture::Part(
                Region {
                    x: match x {
                        Some(v) => v,
                        None => 0,
                    },
                    y: match y {
                        Some(v) => v,
                        None => 0,
                    },
                    w: match w {
                        Some(v) => v,
                        None => 0,
                    },
                    h: match h {
                        Some(v) => v,
                        None => 0,
                    },
                },
            )
        },
{
    if same(mode, "fullscreen") {
        Capture::Monitor(monitor.unwrap_or(0))
    } else if same(mode, "window") {
        Capture::Window
    } else if same(mode, "all") {
        Capture::All
    } else {
        Capture::Part(
            Region {
                x: x.unwrap_or(0),
                y: y.unwrap_or(0),
                w: w.unwrap_or(0),
                h: h.unwrap_or(0),
            },
        )
    }
}

/// Where the overlay goes: over all monitors, and at least 800 by 600. It stays where it
/// is where no monitor is known.
pub fn overlay_place(ms: &Vec<MonitorInfo>) -> (r: Option<Region>)
    requires
        on_screen(ms@),
    ensures
        ms@.len() == 0 ==> r is None,
        ms@.len() > 0 ==> ({
            let s = span(ms@, ms@.len() as int);
            r matches Some(g) && g.x == s.left && g.y == s.top && g.w == most(
                800,
                s.right - s.left,
            ) && g.h == most(600, s.bottom - s.top)
        }),
{
    if ms.len() == 0 {
        return None;
    }
    let b = bounds(ms);
    let w: i64 = b.right as i64 - b.left as i64;
    let h: i64 = b.bottom as i64 - b.top as i64;
    Some(
        Region {
            x: b.left,
            y: b.top,
            w: if w < 800 {
                800
            } else {
                w as u32
            },
            h: if h < 600 {
                600
            } else {
                h as u32
            },
        },
    )
}

// ---- starting a recording ----

/// The area that the user drew, of at least 64 by 64.
pub fn drawn_area(x: i32, y: i32, w: u32, h: u32) -> (r: Area)
    ensures
        r.x == x,
        r.y == y,
        r.w == most(64, w as int),
        r.h == most(64, h as int),
{
    Area {
        x,
        y,
        w: if w < 64 {
            64
        } else {
            w
        },
        h: if h < 64 {
            64
        } else {
            h
        },
    }
}

/// Remembers the area that the user drew, as what is recorded the next time.
pub fn remember_area(s: AppSettings, area: &Area) -> (r: AppSettings)
    ensures
        r.rec_last_area matches Some(a) && a.x == area.x && a.y == area.y && a.w == area.w && a.h
            == area.h,
        r.rec_default_source@ == "last_area"@,
        r == (AppSettings {
            rec_last_area: r.rec_last_area,
            rec_default_source: r.rec_default_source,
            ..s
        }),
{
    AppSettings {
        rec_last_area: Some(RecArea { x: area.x, y: area.y, w: area.w, h: area.h }),
        rec_default_source: "last_area".to_string(),
        ..s
    }
}

/// Milliseconds of a step of the countdown.
pub const COUNTDOWN_STEP_MS: u64 = 250;

/// The seconds of the countdown before a recording.
pub fn countdown_seconds(secs: u64) -> (r: u64)
    ensures
        r == countdown_of(secs as int),
        r <= 10,
{
    if secs == 0 || secs == 3 || secs == 5 || secs == 10 {
        secs
    } else {
        3
    }
}

/// The steps of a countdown.
pub fn countdown_steps(secs: u64) -> (r: u64)
    requires
        secs <= 10,
    ensures
        r * COUNTDOWN_STEP_MS == secs * 1000,
{
    secs * 4
}

/// What is done with the recording.
#[derive(PartialEq, Eq, Structural, Clone, Copy)]
pub enum RecStep {
    /// Count down, then start unless a recording was started meanwhile.
    Start,
    /// Let the user draw the area.
    PickArea,
    Stop,
    Pause,
    Resume,
    Nothing,
}

/// What starts and stops does: it stops where there is a recording, paused or not.
pub fn rec_toggle(recording: bool, paused: bool) -> (r: RecStep)
    ensures
        r == if recording || paused {
            RecStep::Stop
        } else {
            RecStep::Start
        },
{
    if recording || paused {
        RecStep::Stop
    } else {
        RecStep::Start
    }
}

/// What starting alone does: it never stops a recording.
pub fn rec_start_only(recording: bool, paused: bool) -> (r: RecStep)
    ensures
        r == if recording || paused {
            RecStep::Nothing
        } else {
            RecStep::Start
        },
{
    if recording || paused {
        RecStep::Nothing
    } else {
        RecStep::Start
    }
}

/// What stopping alone does: it never starts a recording.
pub fn rec_stop_only(recording: bool, paused: bool) -> (r: RecStep)
    ensures
        r == if recording || paused {
            RecStep::Stop
        } else {
            RecStep::Nothing
        },
{
    if recording || paused {
        RecStep::Stop
    } else {
        RecStep::Nothing
    }
}

/// What pauses and resumes does.
pub fn rec_pause_toggle(recording: bool, paused: bool) -> (r: RecStep)
    ensures
        r == if paused {
            RecStep::Resume
        } else if recording {
            RecStep::Pause
        } else {
            RecStep::Nothing
        },
{
    if paused {
        RecStep::Resume
    } else if recording {
        RecStep::Pause
    } else {
        RecStep::Nothing
    }
}

/// What the tray does for recording: it stops, or lets the user draw the area.
pub fn tray_rec_toggle(recording: bool, paused: bool) -> (r: RecStep)
    ensures
        r == if recording || paused {
            RecStep::Stop
        } else {
            RecStep::PickArea
        },
{
    if recording || paused {
        RecStep::Stop
    } else {
        RecStep::PickArea
    }
}

/// Whether the replay is on, by its state.
pub fn replay_is_on(state: &str) -> (r: bool)
    ensures
        r == (state@ != "off"@),
{
    !same(state, "off")
}

/// What is ended when the program ends: the recording, and the replay.
pub fn quit_steps(recording: bool, paused: bool, replay: &str) -> (r: (bool, bool))
    ensures
        r.0 == (recording || paused),
        r.1 == (replay@ != "off"@),
{
    (recording || paused, !same(replay, "off"))
}

// ---- the tray ----

/// An entry of the tray's menu.
pub struct MenuEntry {
    pub id: String,
    pub text: String,
    pub enabled: bool,
}

/// What a [`MenuEntry`] stands for.
pub struct Item {
    pub id: Seq<char>,
    pub text: Seq<char>,
    pub enabled: bool,
}

impl View for MenuEntry {
    type V = Item;

    open spec fn view(&self) -> Item {
        Item { id: self.id@, text: self.text@, enabled: self.enabled }
    }
}

/// The views of entries.
pub open spec fn items(v: Seq<MenuEntry>) -> Seq<Item> {
    Seq::new(v.len(), |i: int| v[i]@)
}

/// An entry.
pub open spec fn item(id: Seq<char>, text: Seq<char>, enabled: bool) -> Item {
    Item { id, text, enabled }
}

/// The tray's menu: what can be done now is enabled, and called by what it does.
pub open spec fn menu(recording: bool, paused: bool, replay: Seq<char>) -> Seq<Item> {
    let active = recording || paused;
    seq![
        item("title"@, "Open Screen"@, false),
        item("take"@, "Screenshot"@, true),
        item("ocr"@, "OCR"@, true),
        item(
            "rec_toggle"@,
            if active {
                "Stop Recording"@
            } else {
                "Start Recording"@
            },
            true,
        ),
        item(
            "rec_pause"@,
            if paused {
                "Resume Recording"@
            } else {
                "Pause Recording"@
            },
            active,
        ),
        item(
            "replay_toggle"@,
            if replay == "off"@ {
                "Start Instant Replay"@
            } else {
                "Stop Instant Replay"@
            },
            !active,
        ),
        item("replay_save"@, "Save Instant Replay"@, replay == "ready"@),
        item("history"@, "Recording History"@, true),
        item("settings"@, "Settings"@, true),
        item("quit"@, "Quit"@, true),
    ]
}

fn add_entry(v: &mut Vec<MenuEntry>, id: &str, text: &str, enabled: bool)
    ensures
        items(final(v)@) == items(old(v)@).push(item(id@, text@, enabled)),
{
    let ghost so_far = items(v@);
    v.push(MenuEntry { id: id.to_string(), text: text.to_string(), enabled });
    assert(items(v@) =~= so_far.push(item(id@, text@, enabled)));
}

/// The tray's menu for a status.
pub fn rebuild_tray(st: &RecStatus) -> (r: Vec<MenuEntry>)
    ensures
        items(r@) == menu(st.recording, st.paused, st.replay@),
{
    let active: bool = st.recording || st.paused;
    let off: bool = same(st.replay.as_str(), "off");
    let ready: bool = same(st.replay.as_str(), "ready");
    let mut v: Vec<MenuEntry> = Vec::new();
    add_entry(&mut v, "title", "Open Screen", false);
    add_entry(&mut v, "take", "Screenshot", true);
    add_entry(&mut v, "ocr", "OCR", true);
    add_entry(
        &mut v,
        "rec_toggle",
        if active {
            "Stop Recording"
        } else {
            "Start Recording"
        },
        true,
    );
    add_entry(
        &mut v,
        "rec_pause",
        if st.paused {
            "Resume Recording"
        } else {
            "Pause Recording"
        },
        active,
    );
    add_entry(
        &mut v,
        "replay_toggle",
        if off {
            "Start Instant Replay"
        } else {
            "Stop Instant Replay"
        },
        !active,
    );
    add_entry(&mut v, "replay_save", "Save Instant Replay", ready);
    add_entry(&mut v, "history", "Recording History", true);
    add_entry(&mut v, "settings", "Settings", true);
    add_entry(&mut v, "quit", "Quit", true);
    assert(items(v@) =~= menu(st.recording, st.paused, st.replay@));
    v
}

/// What an entry of the tray's menu does.
#[derive(PartialEq, Eq, Structural, Clone, Copy)]
pub enum TrayAction {
    Screenshot,
    Ocr,
    ToggleRecording,
    TogglePause,
    ToggleReplay,
    SaveReplay,
    History,
    Settings,
    Quit,
    Nothing,
}

/// What the entry with this name does.
pub fn tray_action(id: &str) -> (r: TrayAction)
    ensures
        r == if id@ == "take"@ {
            TrayAction::Screenshot
        } else if id@ == "ocr"@ {
            TrayAction::Ocr
        } else if id@ == "rec_toggle"@ {
            TrayAction::ToggleRecording
        } else if id@ == "rec_pause"@ {
            TrayAction::TogglePause
        } else if id@ == "replay_toggle"@ {
            TrayAction::ToggleReplay
        } else if id@ == "replay_save"@ {
            TrayAction::SaveReplay
        } else if id@ == "history"@ {
            TrayAction::History
        } else if id@ == "settings"@ {
            TrayAction::Settings
        } else if id@ == "quit"@ {
            TrayAction::Quit
        } else {
            TrayAction::Nothing
        },
{
    if same(id, "take") {
        TrayAction::Screenshot
    } else if same(id, "ocr") {
        TrayAction::Ocr
    } else if same(id, "rec_toggle") {
        TrayAction::ToggleRecording
    } else if same(id, "rec_pause") {
        TrayAction::TogglePause
    } else if same(id, "replay_toggle") {
        TrayAction::ToggleReplay
    } else if same(id, "replay_save") {
        TrayAction::SaveReplay
    } else if same(id, "history") {
        TrayAction::History
    } else if same(id, "settings") {
        TrayAction::Settings
    } else if same(id, "quit") {
        TrayAction::Quit
    } else {
        TrayAction::Nothing
    }
}

/// Whether a window is hidden when it is closed, so that the program stays in the tray.
pub fn hides_on_close(label: &str) -> (r: bool)
    ensures
        r == (label@ == "overlay"@ || label@ == "editor"@ || label@ == "settings"@ || label@
            == "history"@),
{
    same(label, "overlay") || same(label, "editor") || same(label, "settings") || same(
        label,
        "history",
    )
}

/// The program that opens a file. There is one on Windows only.
pub fn that(path: &str, windows: bool) -> (r: Result<Launch, String>)
    ensures
        windows ==> (r matches Ok(l) && l.program@ == "cmd"@ && texts(l.args@) == seq![
            "/C"@,
            "start"@,
            ""@,
            path@,
        ]),
        !windows ==> (r matches Err(e) && e@ == "Cannot open "@ + path@ + " on this platform"@),
{
    if !windows {
        return Err(join3("Cannot open ", path, " on this platform"));
    }
    let mut args: Vec<String> = Vec::new();
    args.push("/C".to_string());
    args.push("start".to_string());
    args.push("".to_string());
    args.push(path.to_string());
    assert(texts(args@) =~= seq!["/C"@, "start"@, ""@, path@]);
    Ok(Launch { program: "cmd".to_string(), args })
}

// ---- the icon of a recording ----

/// The square of the distance of a pixel from the middle of the dot, which is 9 pixels
/// from the right edge and from the bottom edge.
pub open spec fn from_dot(x: int, y: int, width: int, height: int) -> int {
    (x - (width - 9)) * (x - (width - 9)) + (y - (height - 9)) * (y - (height - 9))
}

/// A byte of the icon with the dot: a red circle in a white ring.
pub open spec fn dotted(base: Bitmap, x: int, y: int, part: int) -> u8 {
    let d = from_dot(x, y, base.width as int, base.height as int);
    if d <= 49 {
        if part == 0 {
            232
        } else if part == 1 {
            17
        } else if part == 2 {
            35
        } else {
            255
        }
    } else if d <= 81 {
        255
    } else {
        base.byte(x, y, part)
    }
}

/// All bytes of the icon with the dot.
pub open spec fn dotted_all(base: Bitmap) -> Seq<u8> {
    Seq::new(
        (base.width * base.height * 4) as nat,
        |i: int|
            dotted(base, i / 4 % (base.width as int), i / 4 / (base.width as int), i % 4),
    )
}

/// Puts the dot of a recording on an icon.
pub fn with_rec_dot(base: &Bitmap) -> (r: Bitmap)
    requires
        base.whole(),
    ensures
        r.width == base.width,
        r.height == base.height,
        r.rgba@ == dotted_all(*base),
        r.whole(),
{
    let w: u32 = base.width;
    let h: u32 = base.height;
    let ghost all = dotted_all(*base);
    let mut out: Vec<u8> = Vec::new();
    let mut y: u32 = 0;
    assert(0 * w == 0);
    while y < h
        invariant
            base.whole(),
            w == base.width,
            h == base.height,
            y <= h,
            all == dotted_all(*base),
            out@.len() == y * w * 4,
            out@.len() <= all.len(),
            forall|i: int| 0 <= i < out@.len() ==> #[trigger] out@[i] == all[i],
        decreases h - y,
    {
        let mut x: u32 = 0;
        while x < w
            invariant
                base.whole(),
                w == base.width,
                h == base.height,
                y < h,
                x <= w,
                all == dotted_all(*base),
                out@.len() == (y * w + x) * 4,
                forall|i: int| 0 <= i < out@.len() && i < all.len() ==> #[trigger] out@[i] == all[i],
            decreases w - x,
        {
            proof {
                lemma_pixel_inside(x as int, y as int, w as int, h as int);
                lemma_pixel_of_byte(x as int, y as int, 0, w as int);
                lemma_pixel_of_byte(x as int, y as int, 1, w as int);
                lemma_pixel_of_byte(x as int, y as int, 2, w as int);
                lemma_pixel_of_byte(x as int, y as int, 3, w as int);
            }
            let ghost at = (y * w + x) * 4;
            assert(all[at] == dotted(*base, x as int, y as int, 0));
            assert(all[at + 1] == dotted(*base, x as int, y as int, 1));
            assert(all[at + 2] == dotted(*base, x as int, y as int, 2));
            assert(all[at + 3] == dotted(*base, x as int, y as int, 3));
            let a: i128 = x as i128 - (w as i128 - 9);
            let b: i128 = y as i128 - (h as i128 - 9);
            proof {
                let most = 0x1_0000_0000int;
                assert(0 <= a * a <= most * most) by (nonlinear_arith)
                    requires
                        -most <= a <= most,
                ;
                assert(0 <= b * b <= most * most) by (nonlinear_arith)
                    requires
                        -most <= b <= most,
                ;
                assert(most * most == 0x1_0000_0000_0000_0000) by (nonlinear_arith)
                    requires
                        most == 0x1_0000_0000,
                ;
            }
            let d: i128 = a * a + b * b;
            if d <= 49 {
                out.push(232);
                out.push(17);
                out.push(35);
                out.push(255);
            } else if d <= 81 {
                out.push(255);
                out.push(255);
                out.push(255);
                out.push(255);
            } else {
                let len: usize = base.rgba.len();
                assert((y * w + x) * 4 + 4 <= len);
                assert(0 <= y * w) by (nonlinear_arith)
                    requires
                        0 <= y,
                        0 <= w,
                ;
                let i: usize = (y as usize * w as usize + x as usize) * 4;
                out.push(base.rgba[i]);
                out.push(base.rgba[i + 1]);
                out.push(base.rgba[i + 2]);
                out.push(base.rgba[i + 3]);
            }
            x = x + 1;
        }
        proof {
            assert((y * w + w) * 4 == (y + 1) * w * 4) by (nonlinear_arith);
            assert((y + 1) * w * 4 <= w * h * 4) by (nonlinear_arith)
                requires
                    y + 1 <= h,
                    0 <= w,
            ;
        }
        y = y + 1;
    }
    proof {
        assert(h * w * 4 == w * h * 4) by (nonlinear_arith);
    }
    assert(out@ =~= all);
    Bitmap { width: w, height: h, rgba: out }
}

/// A picture of one colour.
pub fn solid(width: u32, height: u32, red: u8, green: u8, blue: u8) -> (r: Bitmap)
    requires
        width * height * 4 <= usize::MAX,
    ensures
        r.width == width,
        r.height == height,
        r.whole(),
        r.rgba@ == Seq::new(
            (width * height * 4) as nat,
            |i: int|
                if i % 4 == 0 {
                    red
                } else if i % 4 == 1 {
                    green
                } else if i % 4 == 2 {
                    blue
                } else {
                    255u8
                },
        ),
{
    let ghost all = Seq::new(
        (width * height * 4) as nat,
        |i: int|
            if i % 4 == 0 {
                red
            } else if i % 4 == 1 {
                green
            } else if i % 4 == 2 {
                blue
            } else {
                255u8
            },
    );
    proof {
        assert(0 <= width * height) by (nonlinear_arith)
            requires
                0 <= width,
                0 <= height,
        ;
    }
    let n: usize = width as usize * height as usize;
    let mut rgba: Vec<u8> = Vec::new();
    let mut i: usize = 0;
    while i < n
        invariant
            i <= n,
            n == width * height,
            all.len() == n * 4,
            rgba@.len() == i * 4,
            forall|k: int| 0 <= k < all.len() ==> #[trigger] all[k] == if k % 4 == 0 {
                red
            } else if k % 4 == 1 {
                green
            } else if k % 4 == 2 {
                blue
            } else {
                255u8
            },
            forall|k: int| 0 <= k < rgba@.len() ==> #[trigger] rgba@[k] == all[k],
        decreases n - i,
    {
        rgba.push(red);
        rgba.push(green);
        rgba.push(blue);
        rgba.push(255);
        i = i + 1;
    }
    assert(rgba@ =~= all);
    Bitmap { width, height, rgba }
}

/// Whether `b` is the picture that the dot goes on: the program's icon, or a blue square
/// where it cannot be read.
pub open spec fn is_icon(b: Bitmap, icon: Seq<u8>) -> bool {
    match loaded(icon) {
        Ok(img) => (b.width, b.height, b.rgba@) == pixels(img),
        Err(_) => b.width == 32 && b.height == 32 && b.rgba@ == Seq::new(
            4096,
            |i: int|
                if i % 4 == 0 {
                    11u8
                } else if i % 4 == 1 {
                    87u8
                } else if i % 4 == 2 {
                    208u8
                } else {
                    255u8
                },
        ),
    }
}

/// The tray icon while there is a recording: the program's icon with a red dot.
pub fn make_rec_dot(icon: &[u8]) -> (r: Bitmap)
    ensures
        r.whole(),
        exists|base: Bitmap| #[trigger] is_icon(base, icon@) && r.width == base.width && r.height
            == base.height && r.rgba@ == dotted_all(base),
{
    let base = match load(icon) {
        Ok(img) => to_rgba(&img),
        Err(_) => {
            let b = solid(32, 32, 11, 87, 208);
            assert(b.rgba@ =~= Seq::new(
                4096,
                |i: int|
                    if i % 4 == 0 {
                        11u8
                    } else if i % 4 == 1 {
                        87u8
                    } else if i % 4 == 2 {
                        208u8
                    } else {
                        255u8
                    },
            ));
            b
        },
    };
    assert(is_icon(base, icon@));
    with_rec_dot(&base)
}

/// Reads the icon that stands in the tray. One that cannot be read is told, not left out.
pub fn load_tray_icon(icon: &[u8]) -> (r: Result<Bitmap, String>)
    ensures
        match r {
            Ok(b) => b.whole() && (loaded(icon@) matches Ok(img) && pixels(img) == (
                b.width,
                b.height,
                b.rgba@,
            )),
            Err(e) => loaded(icon@) matches Err(why) && e@ == "tray icon decode failed: "@ + why,
        },
{
    match load(icon) {
        Ok(img) => Ok(to_rgba(&img)),
        Err(why) => Err(join2("tray icon decode failed: ", why.as_str())),
    }
}

// ---- laws ----

/// A capture is put off as long as it is asked to be, and never for more than half a minute.
pub proof fn law_capture_delay(delay_ms: u64, r: u64)
    requires
        call_ensures(capture_delay, (delay_ms,), r),
    ensures
        r <= 30_000,
        r <= delay_ms,
        r < delay_ms ==> r == 30_000,
{
}

/// A capture is of what its word names; of a region, any other word.
pub proof fn law_captures(
    mode: &str,
    x: Option<i32>,
    y: Option<i32>,
    w: Option<u32>,
    h: Option<u32>,
    monitor: Option<usize>,
    r: Capture,
)
    requires
        call_ensures(capture_of, (mode, x, y, w, h, monitor), r),
    ensures
        r is Monitor <==> mode@ == "fullscreen"@,
        r is Window <==> mode@ == "window"@,
        r is All <==> mode@ == "all"@,
        r matches Capture::Monitor(i) ==> (monitor matches Some(m) ==> i == m) && (monitor is None
            ==> i == 0),
        r matches Capture::Part(g) ==> {
            &&& x matches Some(v) ==> g.x == v
            &&& y matches Some(v) ==> g.y == v
            &&& w matches Some(v) ==> g.w == v
            &&& h matches Some(v) ==> g.h == v
            &&& (x is None ==> g.x == 0) && (y is None ==> g.y == 0)
            &&& (w is None ==> g.w == 0) && (h is None ==> g.h == 0)
        },
{
    reveal_strlit("fullscreen");
    reveal_strlit("window");
    reveal_strlit("all");
    assert("fullscreen"@.len() == 10 && "window"@.len() == 6 && "all"@.len() == 3);
}

/// The overlay reaches over every monitor, begins where the outermost monitors do, and is never
/// smaller than 800 by 600.
pub proof fn law_overlay_covers(ms: &Vec<MonitorInfo>, r: Option<Region>, i: int)
    requires
        on_screen(ms@),
        call_ensures(overlay_place, (ms,), r),
        0 <= i < ms@.len(),
    ensures
        r matches Some(g) && {
            &&& g.x <= ms@[i].x && ms@[i].x + ms@[i].width <= g.x + g.w
            &&& g.y <= ms@[i].y && ms@[i].y + ms@[i].height <= g.y + g.h
            &&& g.w >= 800 && g.h >= 600
            &&& exists|k: int| 0 <= k < ms@.len() && (#[trigger] ms@[k]).x == g.x
            &&& exists|k: int| 0 <= k < ms@.len() && (#[trigger] ms@[k]).y == g.y
            &&& g.w > 800 ==> exists|k: int|
                0 <= k < ms@.len() && (#[trigger] ms@[k]).x + ms@[k].width == g.x + g.w
            &&& g.h > 600 ==> exists|k: int|
                0 <= k < ms@.len() && (#[trigger] ms@[k]).y + ms@[k].height == g.y + g.h
        },
{
    law_span_holds_all(ms@, ms@.len() as int);
}

/// The area that the user drew keeps its place, and its size where that is at least 64 by 64.
pub proof fn law_drawn_area(x: i32, y: i32, w: u32, h: u32, r: Area)
    requires
        call_ensures(drawn_area, (x, y, w, h), r),
    ensures
        r.x == x && r.y == y,
        r.w >= 64 && r.w >= w && (r.w == w || r.w == 64),
        r.h >= 64 && r.h >= h && (r.h == h || r.h == 64),
{
}

/// What the user drew is what is recorded the next time, as far as it can be.
pub proof fn law_drawn_area_comes_back(
    s: AppSettings,
    area: &Area,
    r: AppSettings,
    ms: Seq<MonitorInfo>,
    window: Option<ActiveWindowInfo>,
)
    requires
        call_ensures(remember_area, (s, area), r),
        area.w >= 64 && area.h >= 64,
    ensures
        source_area(r, ms, window) == *area,
        r.rec_fps == s.rec_fps && r.rec_audio == s.rec_audio && r.rec_resolution == s.rec_resolution,
{
    law_source_as_set(r, ms, window, 0);
}

/// The countdown is as long as it is set to be where that is on offer, three seconds otherwise,
/// and its steps take exactly that long.
pub proof fn law_countdown(secs: u64, r: u64, steps: u64)
    requires
        call_ensures(countdown_seconds, (secs,), r),
        call_ensures(countdown_steps, (r,), steps),
    ensures
        r == 0 || r == 3 || r == 5 || r == 10,
        secs == 0 || secs == 5 || secs == 10 ==> r == secs,
        secs != 0 && secs != 5 && secs != 10 ==> r == 3,
        250 * steps == 1000 * r,
{
}

/// Starting and stopping with one key does what one of two separate keys would do, and the
/// other of those does nothing. The tray does the same, but lets the user draw the area first.
pub proof fn law_toggles_agree(
    recording: bool,
    paused: bool,
    both: RecStep,
    start: RecStep,
    stop: RecStep,
    tray: RecStep,
    pause: RecStep,
)
    requires
        call_ensures(rec_toggle, (recording, paused), both),
        call_ensures(rec_start_only, (recording, paused), start),
        call_ensures(rec_stop_only, (recording, paused), stop),
        call_ensures(tray_rec_toggle, (recording, paused), tray),
        call_ensures(rec_pause_toggle, (recording, paused), pause),
    ensures
        start == RecStep::Start || start == RecStep::Nothing,
        stop == RecStep::Stop || stop == RecStep::Nothing,
        (start == RecStep::Nothing) != (stop == RecStep::Nothing),
        both == if start == RecStep::Nothing {
            stop
        } else {
            start
        },
        stop == RecStep::Stop <==> recording || paused,
        tray == RecStep::Stop <==> both == RecStep::Stop,
        tray == RecStep::PickArea <==> both == RecStep::Start,
        pause == RecStep::Nothing <==> both == RecStep::Start,
        pause == RecStep::Resume <==> paused,
        pause == RecStep::Pause <==> recording && !paused,
{
}

/// When the program ends, nothing that runs goes on.
pub proof fn law_quit(recording: bool, paused: bool, replay: &str, r: (bool, bool), on: bool)
    requires
        call_ensures(quit_steps, (recording, paused, replay), r),
        call_ensures(replay_is_on, (replay,), on),
    ensures
        r.0 <==> recording || paused,
        r.1 == on,
        on <==> replay@ != "off"@,
{
}

/// What the menu offers can be done: pausing only while there is a recording, the replay only
/// while there is none, and saving it only when it is ready. It is called by what it does.
pub proof fn law_menu(recording: bool, paused: bool, replay: Seq<char>)
    ensures
        ({
            let m = menu(recording, paused, replay);
            &&& m.len() == 10
            &&& !m[0].enabled
            &&& m[3].id == "rec_toggle"@ && m[3].enabled
            &&& m[3].text == "Stop Recording"@ <==> recording || paused
            &&& m[3].text == "Start Recording"@ <==> !recording && !paused
            &&& m[4].id == "rec_pause"@ && (m[4].enabled <==> recording || paused)
            &&& m[4].text == "Resume Recording"@ <==> paused
            &&& m[4].text == "Pause Recording"@ <==> !paused
            &&& m[5].id == "replay_toggle"@ && (m[5].enabled <==> !recording && !paused)
            &&& m[5].text == "Start Instant Replay"@ <==> replay == "off"@
            &&& m[5].text == "Stop Instant Replay"@ <==> replay != "off"@
            &&& m[6].id == "replay_save"@ && (m[6].enabled <==> replay == "ready"@)
            &&& m[1].enabled && m[2].enabled && m[7].enabled && m[8].enabled && m[9].enabled
        }),
{
    reveal_strlit("Stop Recording");
    reveal_strlit("Start Recording");
    reveal_strlit("Resume Recording");
    reveal_strlit("Pause Recording");
    reveal_strlit("Start Instant Replay");
    reveal_strlit("Stop Instant Replay");
    assert("Stop Recording"@.len() == 14 && "Start Recording"@.len() == 15);
    assert("Resume Recording"@.len() == 16 && "Pause Recording"@.len() == 15);
    assert("Start Instant Replay"@.len() == 20 && "Stop Instant Replay"@.len() == 19);
}

proof fn lemma_entries_differ()
    ensures
        "title"@.len() == 5 && "take"@.len() == 4 && "ocr"@.len() == 3 && "rec_toggle"@.len() == 10,
        "rec_pause"@.len() == 9 && "replay_toggle"@.len() == 13 && "replay_save"@.len() == 11,
        "history"@.len() == 7 && "settings"@.len() == 8 && "quit"@.len() == 4,
        "take"@[0] == 't' && "quit"@[0] == 'q',
{
    reveal_strlit("title");
    reveal_strlit("take");
    reveal_strlit("ocr");
    reveal_strlit("rec_toggle");
    reveal_strlit("rec_pause");
    reveal_strlit("replay_toggle");
    reveal_strlit("replay_save");
    reveal_strlit("history");
    reveal_strlit("settings");
    reveal_strlit("quit");
}

/// Every entry of the menu but the title does something, and each something else.
pub proof fn law_menu_acts(
    recording: bool,
    paused: bool,
    replay: Seq<char>,
    k: int,
    id: &str,
    r: TrayAction,
)
    requires
        0 <= k < 10,
        id@ == menu(recording, paused, replay)[k].id,
        call_ensures(tray_action, (id,), r),
    ensures
        r == TrayAction::Nothing <==> k == 0,
        r == TrayAction::Screenshot <==> k == 1,
        r == TrayAction::Ocr <==> k == 2,
        r == TrayAction::ToggleRecording <==> k == 3,
        r == TrayAction::TogglePause <==> k == 4,
        r == TrayAction::ToggleReplay <==> k == 5,
        r == TrayAction::SaveReplay <==> k == 6,
        r == TrayAction::History <==> k == 7,
        r == TrayAction::Settings <==> k == 8,
        r == TrayAction::Quit <==> k == 9,
{
    lemma_entries_differ();
}

/// The dot is a red disc of seven pixels in a white ring of two, nine pixels from the right and
/// from the bottom edge; the rest of the icon is as it was.
pub proof fn law_rec_dot(base: Bitmap, x: int, y: int, part: int)
    requires
        base.whole(),
        0 <= x < base.width,
        0 <= y < base.height,
        0 <= part < 4,
    ensures
        ({
            let a = x - (base.width - 9);
            let b = y - (base.height - 9);
            let at = (y * base.width + x) * 4 + part;
            let all = dotted_all(base);
            &&& 0 <= at < all.len()
            &&& a * a + b * b <= 7 * 7 ==> all[at] == seq![232u8, 17, 35, 255][part]
            &&& 7 * 7 < a * a + b * b <= 9 * 9 ==> all[at] == 255
            &&& a * a + b * b > 9 * 9 ==> all[at] == base.rgba@[at]
        }),
{
    let w = base.width as int;
    lemma_pixel_inside(x, y, w, base.height as int);
    lemma_pixel_of_byte(x, y, part, w);
    assert(0 <= y * w) by (nonlinear_arith)
        requires
            0 <= y,
            0 <= w,
    ;
    let at = (y * w + x) * 4 + part;
    assert(dotted_all(base)[at] == dotted(base, x, y, part));
}

/// The windows that come back are hidden when they are closed, and no others.
pub proof fn law_hidden_windows(label: &str, r: bool)
    requires
        call_ensures(hides_on_close, (label,), r),
    ensures
        r <==> label@ == "overlay"@ || label@ == "editor"@ || label@ == "settings"@ || label@
            == "history"@,
{
}

/// A file is opened by the system's own program on Windows, and nowhere else.
pub proof fn law_opening(path: &str, windows: bool, r: Result<Launch, String>)
    requires
        call_ensures(that, (path, windows), r),
    ensures
        r is Ok <==> windows,
        r matches Ok(l) ==> l.program@ == "cmd"@ && l.args@.len() == 4 && l.args@[3]@ == path@,
{
    if let Ok(l) = r {
        let t = texts(l.args@);
        assert(t.len() == l.args@.len());
        assert(t[3] == l.args@[3]@);
    }
}

/// The entries of the menu stand as they are written.
pub proof fn law_entries(v: Seq<MenuEntry>, i: int)
    requires
        0 <= i < v.len(),
    ensures
        items(v).len() == v.len(),
        items(v)[i].id == v[i].id@ && items(v)[i].text == v[i].text@ && items(v)[i].enabled
            == v[i].enabled,
{
}

/// Where the program's icon cannot be read, the dot goes on a blue square of 32 by 32.
pub proof fn law_plain_icon(b: Bitmap, icon: Seq<u8>, i: int)
    requires
        is_icon(b, icon),
        loaded(icon) is Err,
        0 <= i < 32 * 32,
    ensures
        b.width == 32 && b.height == 32 && b.rgba@.len() == 32 * 32 * 4,
        b.rgba@.subrange(4 * i, 4 * i + 4) == seq![11u8, 87, 208, 255],
{
    assert(b.rgba@.subrange(4 * i, 4 * i + 4) =~= seq![11u8, 87, 208, 255]);
}

} // verus!
