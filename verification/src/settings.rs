//! The user's settings.
use vstd::prelude::*;

use crate::paths::{app_dir, is_app_dir, is_in, join, picture_dir, video_dir};
use crate::text::{ends, same};

verus! {

/// A part of the screen.
#[derive(Clone, Copy)]
pub struct RecArea {
    pub x: i32,
    pub y: i32,
    pub w: u32,
    pub h: u32,
}

/// The settings.
pub struct AppSettings {
    pub start_with_windows: bool,
    pub run_in_background: bool,
    pub show_tray_icon: bool,
    pub screenshot_hotkey: String,
    pub ocr_hotkey: String,
    pub default_format: String,
    pub save_location: String,
    pub auto_save: bool,
    pub auto_copy: bool,
    pub capture_cursor: bool,
    pub delay_ms: u64,
    pub history_enabled: bool,
    pub history_limit: usize,
    pub ocr_enabled: bool,
    pub ocr_language: String,
    pub ocr_auto: bool,
    pub ocr_auto_copy_text: bool,
    pub default_pen_color: String,
    pub default_stroke: u32,
    pub default_font_size: u32,
    pub naming_format: String,
    pub rec_start_hotkey: String,
    pub rec_stop_hotkey: String,
    pub rec_pause_hotkey: String,
    pub rec_resume_hotkey: String,
    pub replay_save_hotkey: String,
    pub rec_default_source: String,
    pub rec_monitor: usize,
    pub rec_last_area: Option<RecArea>,
    pub rec_fps: u32,
    pub rec_resolution: String,
    pub rec_custom_w: u32,
    pub rec_custom_h: u32,
    pub rec_preset: String,
    pub rec_quality: String,
    pub rec_bitrate: String,
    pub rec_bitrate_custom: u32,
    pub rec_codec: String,
    pub rec_audio: String,
    pub rec_mic_device: String,
    pub rec_sample_rate: u32,
    pub rec_channels: u32,
    pub rec_cursor: bool,
    pub rec_folder: String,
    pub rec_post_action: String,
    pub rec_history_limit: usize,
    pub rec_power_saving: bool,
    pub rec_countdown: u64,
    pub rec_hw_mode: String,
    pub replay_enabled: bool,
    pub replay_autostart: bool,
    pub replay_duration: u64,
    pub replay_preset: String,
    pub replay_audio: String,
    pub replay_post_action: String,
}

impl Clone for AppSettings {
    fn clone(&self) -> (r: Self)
        ensures
            r == *self,
    {
        AppSettings {
            start_with_windows: self.start_with_windows,
            run_in_background: self.run_in_background,
            show_tray_icon: self.show_tray_icon,
            screenshot_hotkey: self.screenshot_hotkey.clone(),
            ocr_hotkey: self.ocr_hotkey.clone(),
            default_format: self.default_format.clone(),
            save_location: self.save_location.clone(),
            auto_save: self.auto_save,
            auto_copy: self.auto_copy,
            capture_cursor: self.capture_cursor,
            delay_ms: self.delay_ms,
            history_enabled: self.history_enabled,
            history_limit: self.history_limit,
            ocr_enabled: self.ocr_enabled,
            ocr_language: self.ocr_language.clone(),
            ocr_auto: self.ocr_auto,
            ocr_auto_copy_text: self.ocr_auto_copy_text,
            default_pen_color: self.default_pen_color.clone(),
            default_stroke: self.default_stroke,
            default_font_size: self.default_font_size,
            naming_format: self.naming_format.clone(),
            rec_start_hotkey: self.rec_start_hotkey.clone(),
            rec_stop_hotkey: self.rec_stop_hotkey.clone(),
            rec_pause_hotkey: self.rec_pause_hotkey.clone(),
            rec_resume_hotkey: self.rec_resume_hotkey.clone(),
            replay_save_hotkey: self.replay_save_hotkey.clone(),
            rec_default_source: self.rec_default_source.clone(),
            rec_monitor: self.rec_monitor,
            rec_last_area: self.rec_last_area,
            rec_fps: self.rec_fps,
            rec_resolution: self.rec_resolution.clone(),
            rec_custom_w: self.rec_custom_w,
            rec_custom_h: self.rec_custom_h,
            rec_preset: self.rec_preset.clone(),
            rec_quality: self.rec_quality.clone(),
            rec_bitrate: self.rec_bitrate.clone(),
            rec_bitrate_custom: self.rec_bitrate_custom,
            rec_codec: self.rec_codec.clone(),
            rec_audio: self.rec_audio.clone(),
            rec_mic_device: self.rec_mic_device.clone(),
            rec_sample_rate: self.rec_sample_rate,
            rec_channels: self.rec_channels,
            rec_cursor: self.rec_cursor,
            rec_folder: self.rec_folder.clone(),
            rec_post_action: self.rec_post_action.clone(),
            rec_history_limit: self.rec_history_limit,
            rec_power_saving: self.rec_power_saving,
            rec_countdown: self.rec_countdown,
            rec_hw_mode: self.rec_hw_mode.clone(),
            replay_enabled: self.replay_enabled,
            replay_autostart: self.replay_autostart,
            replay_duration: self.replay_duration,
            replay_preset: self.replay_preset.clone(),
            replay_audio: self.replay_audio.clone(),
            replay_post_action: self.replay_post_action.clone(),
        }
    }
}

/// The switches of settings that nobody has changed.
pub open spec fn default_switches(s: AppSettings) -> bool {
    &&& !s.start_with_windows
    &&& s.run_in_background
    &&& s.show_tray_icon
    &&& !s.auto_save
    &&& !s.auto_copy
    &&& !s.capture_cursor
    &&& s.history_enabled
    &&& s.ocr_enabled
    &&& !s.ocr_auto
    &&& !s.ocr_auto_copy_text
    &&& s.rec_cursor
    &&& !s.rec_power_saving
    &&& !s.replay_enabled
    &&& !s.replay_autostart
}

/// The numbers of settings that nobody has changed.
pub open spec fn default_numbers(s: AppSettings) -> bool {
    &&& s.delay_ms == 0
    &&& s.history_limit == 50
    &&& s.default_stroke == 3
    &&& s.default_font_size == 18
    &&& s.rec_monitor == 0
    &&& s.rec_last_area is None
    &&& s.rec_fps == 60
    &&& s.rec_custom_w == 1920
    &&& s.rec_custom_h == 1080
    &&& s.rec_bitrate_custom == 12
    &&& s.rec_sample_rate == 48000
    &&& s.rec_channels == 2
    &&& s.rec_history_limit == 25
    &&& s.rec_countdown == 3
    &&& s.replay_duration == 30
}

/// The texts of settings that nobody has changed, but for the folders.
pub open spec fn default_texts(s: AppSettings) -> bool {
    &&& s.screenshot_hotkey@ == "Ctrl+Shift+S"@
    &&& s.ocr_hotkey@ == "Ctrl+Shift+O"@
    &&& s.default_format@ == "png"@
    &&& s.ocr_language@ == "auto"@
    &&& s.default_pen_color@ == "#e81123"@
    &&& s.naming_format@ == "OpenScreen_{date}_{time}"@
    &&& s.rec_start_hotkey@ == "Ctrl+Shift+R"@
    &&& s.rec_stop_hotkey@ == "Ctrl+Shift+R"@
    &&& s.rec_pause_hotkey@ == "Ctrl+Shift+P"@
    &&& s.rec_resume_hotkey@ == "Ctrl+Shift+P"@
    &&& s.replay_save_hotkey@ == "Ctrl+Shift+I"@
    &&& s.rec_default_source@ == "fullscreen"@
    &&& s.rec_resolution@ == "source"@
    &&& s.rec_preset@ == "balanced"@
    &&& s.rec_quality@ == "high"@
    &&& s.rec_bitrate@ == "auto"@
    &&& s.rec_codec@ == "auto"@
    &&& s.rec_audio@ == "system"@
    &&& s.rec_mic_device@ == ""@
    &&& s.rec_post_action@ == "nothing"@
    &&& s.rec_hw_mode@ == "auto"@
    &&& s.replay_preset@ == "standard"@
    &&& s.replay_audio@ == "system"@
    &&& s.replay_post_action@ == "nothing"@
}

/// Whether `path` is the program's folder in `dir`, or `other` where there is no
/// such folder.
pub open spec fn folder_in(path: Seq<char>, dir: Option<String>, other: Seq<char>) -> bool {
    match dir {
        Some(d) => is_in(path, d@, "Open Screen"@),
        None => path == other,
    }
}

fn own_folder(dir: Option<String>, other: &str) -> (r: String)
    ensures
        folder_in(r@, dir, other@),
{
    proof {
        reveal_strlit("Open Screen");
    }
    match dir {
        Some(d) => join(d.as_str(), "Open Screen"),
        None => other.to_string(),
    }
}

/// Settings that nobody has changed, for a user with these folders for pictures
/// and videos.
pub fn defaults_in(pictures: Option<String>, videos: Option<String>) -> (r: AppSettings)
    ensures
        default_switches(r),
        default_numbers(r),
        default_texts(r),
        folder_in(r.save_location@, pictures, "Pictures/Open Screen"@),
        folder_in(r.rec_folder@, videos, "Videos/Open Screen"@),
{
    AppSettings {
        start_with_windows: false,
        run_in_background: true,
        show_tray_icon: true,
        screenshot_hotkey: "Ctrl+Shift+S".to_string(),
        ocr_hotkey: "Ctrl+Shift+O".to_string(),
        default_format: "png".to_string(),
        save_location: own_folder(pictures, "Pictures/Open Screen"),
        auto_save: false,
        auto_copy: false,
        capture_cursor: false,
        delay_ms: 0,
        history_enabled: true,
        history_limit: 50,
        ocr_enabled: true,
        ocr_language: "auto".to_string(),
        ocr_auto: false,
        ocr_auto_copy_text: false,
        default_pen_color: "#e81123".to_string(),
        default_stroke: 3,
        default_font_size: 18,
        naming_format: "OpenScreen_{date}_{time}".to_string(),
        rec_start_hotkey: "Ctrl+Shift+R".to_string(),
        rec_stop_hotkey: "Ctrl+Shift+R".to_string(),
        rec_pause_hotkey: "Ctrl+Shift+P".to_string(),
        rec_resume_hotkey: "Ctrl+Shift+P".to_string(),
        replay_save_hotkey: "Ctrl+Shift+I".to_string(),
        rec_default_source: "fullscreen".to_string(),
        rec_monitor: 0,
        rec_last_area: None,
        rec_fps: 60,
        rec_resolution: "source".to_string(),
        rec_custom_w: 1920,
        rec_custom_h: 1080,
        rec_preset: "balanced".to_string(),
        rec_quality: "high".to_string(),
        rec_bitrate: "auto".to_string(),
        rec_bitrate_custom: 12,
        rec_codec: "auto".to_string(),
        rec_audio: "system".to_string(),
        rec_mic_device: "".to_string(),
        rec_sample_rate: 48000,
        rec_channels: 2,
        rec_cursor: true,
        rec_folder: own_folder(videos, "Videos/Open Screen"),
        rec_post_action: "nothing".to_string(),
        rec_history_limit: 25,
        rec_power_saving: false,
        rec_countdown: 3,
        rec_hw_mode: "auto".to_string(),
        replay_enabled: false,
        replay_autostart: false,
        replay_duration: 30,
        replay_preset: "standard".to_string(),
        replay_audio: "system".to_string(),
        replay_post_action: "nothing".to_string(),
    }
}

/// Whether settings are those that nobody has changed, for a user with some folders for
/// pictures and videos.
pub open spec fn is_default(s: AppSettings) -> bool {
    &&& default_switches(s)
    &&& default_numbers(s)
    &&& default_texts(s)
    &&& exists|pictures: Option<String>|
        #[trigger] folder_in(s.save_location@, pictures, "Pictures/Open Screen"@)
    &&& exists|videos: Option<String>|
        #[trigger] folder_in(s.rec_folder@, videos, "Videos/Open Screen"@)
    &&& ends(s.save_location@, "Open Screen"@)
    &&& ends(s.rec_folder@, "Open Screen"@)
}

proof fn lemma_other_folders()
    ensures
        ends("Pictures/Open Screen"@, "Open Screen"@),
        ends("Videos/Open Screen"@, "Open Screen"@),
{
    reveal_strlit("Pictures/Open Screen");
    reveal_strlit("Videos/Open Screen");
    reveal_strlit("Open Screen");
    assert("Pictures/Open Screen"@.subrange(9, 20) =~= "Open Screen"@);
    assert("Videos/Open Screen"@.subrange(7, 18) =~= "Open Screen"@);
}

impl Default for AppSettings {
    fn default() -> (r: Self)
        ensures
            is_default(r),
    {
        let pictures = picture_dir();
        let videos = video_dir();
        proof {
            lemma_other_folders();
        }
        defaults_in(pictures, videos)
    }
}

/// The file of the settings in the program's folder.
pub fn settings_path_in(app: &str) -> (r: String)
    ensures
        is_in(r@, app@, "settings.json"@),
{
    proof {
        reveal_strlit("settings.json");
    }
    join(app, "settings.json")
}

/// The file of the settings.
pub fn settings_path() -> (r: String)
    ensures
        exists|app: Seq<char>| is_app_dir(app) && #[trigger] is_in(r@, app, "settings.json"@),
{
    let app = app_dir();
    settings_path_in(app.as_str())
}

/// The nearest number to `n` between `low` and `high`.
pub open spec fn clamped(n: int, low: int, high: int) -> int {
    if n < low {
        low
    } else if n > high {
        high
    } else {
        n
    }
}

/// Whether all settings are in the range that the program works with.
pub open spec fn in_range(s: AppSettings) -> bool {
    &&& s.history_limit <= 100
    &&& s.rec_history_limit <= 100
    &&& 5 <= s.replay_duration <= 600
    &&& s.rec_countdown == 0 || s.rec_countdown == 3 || s.rec_countdown == 5 || s.rec_countdown
        == 10
    &&& is_hw_mode(s.rec_hw_mode@)
}

/// The countdown that is used: one of those on offer, else the usual one.
pub open spec fn countdown_of(n: int) -> int {
    if n == 0 || n == 3 || n == 5 || n == 10 {
        n
    } else {
        3
    }
}

/// Whether a text is one of the choices between hardware and software.
pub open spec fn is_hw_mode(mode: Seq<char>) -> bool {
    mode == "hw"@ || mode == "sw"@ || mode == "auto"@
}

/// Whether `r` is `s` brought into the range that the program works with, with nothing else
/// changed.
pub open spec fn is_normalized(r: AppSettings, s: AppSettings) -> bool {
    &&& r.history_limit == clamped(s.history_limit as int, 0, 100)
    &&& r.rec_history_limit == clamped(s.rec_history_limit as int, 0, 100)
    &&& r.replay_duration == clamped(s.replay_duration as int, 5, 600)
    &&& r.rec_countdown == countdown_of(s.rec_countdown as int)
    &&& if is_hw_mode(s.rec_hw_mode@) {
        r.rec_hw_mode == s.rec_hw_mode
    } else {
        r.rec_hw_mode@ == "auto"@
    }
    &&& r == (AppSettings {
        history_limit: r.history_limit,
        rec_history_limit: r.rec_history_limit,
        replay_duration: r.replay_duration,
        rec_countdown: r.rec_countdown,
        rec_hw_mode: r.rec_hw_mode,
        ..s
    })
}

fn hw_mode_or_auto(mode: &String) -> (r: String)
    ensures
        if is_hw_mode(mode@) {
            r == *mode
        } else {
            r@ == "auto"@
        },
{
    let m = mode.as_str();
    if same(m, "hw") || same(m, "sw") || same(m, "auto") {
        mode.clone()
    } else {
        "auto".to_string()
    }
}

/// Brings saved settings into the range that the program works with. Nothing
/// else is changed.
pub fn normalized(s: AppSettings) -> (r: AppSettings)
    ensures
        in_range(r),
        is_normalized(r, s),
{
    let history_limit: usize = if s.history_limit > 100 {
        100
    } else {
        s.history_limit
    };
    let rec_history_limit: usize = if s.rec_history_limit > 100 {
        100
    } else {
        s.rec_history_limit
    };
    let replay_duration: u64 = if s.replay_duration < 5 {
        5
    } else if s.replay_duration > 600 {
        600
    } else {
        s.replay_duration
    };
    let c: u64 = s.rec_countdown;
    let rec_countdown: u64 = if c == 0 || c == 3 || c == 5 || c == 10 {
        c
    } else {
        3
    };
    let rec_hw_mode = hw_mode_or_auto(&s.rec_hw_mode);
    AppSettings {
        history_limit,
        rec_history_limit,
        replay_duration,
        rec_countdown,
        rec_hw_mode,
        ..s
    }
}

/// The settings to use: those that were read, brought into range, and the defaults where
/// there is no file or it cannot be read as settings.
pub fn load_settings(read: Option<AppSettings>) -> (r: AppSettings)
    ensures
        in_range(r),
        match read {
            Some(s) => is_normalized(r, s),
            None => is_default(r),
        },
{
    match read {
        Some(s) => normalized(s),
        None => AppSettings::default(),
    }
}

/// Settings that are in range stay as they are when they are loaded: what was saved comes
/// back.
pub proof fn law_saved_comes_back(s: AppSettings, r: AppSettings)
    requires
        in_range(s),
        is_normalized(r, s),
    ensures
        r == s,
{
}

/// Settings that nobody has changed are in range.
pub proof fn law_defaults_in_range(s: AppSettings)
    requires
        default_numbers(s),
        default_texts(s),
    ensures
        in_range(s),
{
}

/// A number is brought to the nearest one in a range.
pub proof fn law_clamped(n: int, low: int, high: int, other: int)
    requires
        low <= other <= high,
    ensures
        low <= clamped(n, low, high) <= high,
        n <= clamped(n, low, high) ==> clamped(n, low, high) - n <= if other < n {
            n - other
        } else {
            other - n
        },
        clamped(n, low, high) <= n ==> n - clamped(n, low, high) <= if other < n {
            n - other
        } else {
            other - n
        },
{
}

/// The lists of screenshots and recordings hold at most a hundred, a replay lasts from five
/// seconds to ten minutes, and the countdown is none, three, five or ten seconds. What is
/// outside is brought to the nearest of these, and a countdown that is not on offer to three
/// seconds; what is inside, and every other setting, stays as it is.
pub proof fn law_brought_into_range(s: AppSettings, r: AppSettings)
    requires
        is_normalized(r, s),
    ensures
        s.history_limit <= 100 ==> r.history_limit == s.history_limit,
        s.history_limit > 100 ==> r.history_limit == 100,
        s.rec_history_limit <= 100 ==> r.rec_history_limit == s.rec_history_limit,
        s.rec_history_limit > 100 ==> r.rec_history_limit == 100,
        5 <= s.replay_duration <= 600 ==> r.replay_duration == s.replay_duration,
        s.replay_duration < 5 ==> r.replay_duration == 5,
        s.replay_duration > 600 ==> r.replay_duration == 600,
        s.rec_countdown == 0 || s.rec_countdown == 3 || s.rec_countdown == 5 || s.rec_countdown == 10
            ==> r.rec_countdown == s.rec_countdown,
        s.rec_countdown != 0 && s.rec_countdown != 5 && s.rec_countdown != 10 ==> r.rec_countdown
            == 3,
        s.rec_hw_mode@ == "hw"@ || s.rec_hw_mode@ == "sw"@ ==> r.rec_hw_mode == s.rec_hw_mode,
        s.rec_hw_mode@ != "hw"@ && s.rec_hw_mode@ != "sw"@ ==> r.rec_hw_mode@ == "auto"@,
        r.delay_ms == s.delay_ms && r.rec_fps == s.rec_fps && r.rec_audio == s.rec_audio
            && r.naming_format == s.naming_format && r.save_location == s.save_location
            && r.rec_folder == s.rec_folder,
        is_normalized(r, r),
{
}

/// Settings that nobody has changed keep the program in the tray and out of the way: nothing
/// starts by itself, nothing is saved or copied unasked, and what was taken is listed.
pub proof fn law_defaults(s: AppSettings)
    requires
        is_default(s),
    ensures
        s.run_in_background && s.show_tray_icon && !s.start_with_windows,
        !s.auto_save && !s.auto_copy && !s.ocr_auto && !s.ocr_auto_copy_text,
        !s.replay_enabled && !s.replay_autostart && !s.rec_power_saving,
        s.history_enabled && s.ocr_enabled && s.rec_cursor && !s.capture_cursor,
        s.history_limit == 50 && s.rec_history_limit == 25 && s.delay_ms == 0,
        s.default_stroke == 3 && s.default_font_size == 18,
        s.replay_duration == 30 && s.rec_countdown == 3,
        s.rec_fps == 60 && s.rec_sample_rate == 48000 && s.rec_channels == 2,
        s.rec_custom_w == 1920 && s.rec_custom_h == 1080 && s.rec_bitrate_custom == 12,
        s.rec_monitor == 0 && s.rec_last_area is None && s.rec_mic_device@ == ""@,
        s.rec_default_source@ == "fullscreen"@ && s.rec_resolution@ == "source"@,
        s.rec_preset@ == "balanced"@ && s.rec_quality@ == "high"@ && s.replay_preset@ == "standard"@,
        s.rec_bitrate@ == "auto"@ && s.rec_codec@ == "auto"@ && s.default_pen_color@ == "#e81123"@,
        s.screenshot_hotkey@ == "Ctrl+Shift+S"@ && s.ocr_hotkey@ == "Ctrl+Shift+O"@,
        s.rec_start_hotkey@ == s.rec_stop_hotkey@ && s.rec_start_hotkey@ == "Ctrl+Shift+R"@,
        s.rec_pause_hotkey@ == s.rec_resume_hotkey@ && s.rec_pause_hotkey@ == "Ctrl+Shift+P"@,
        s.replay_save_hotkey@ == "Ctrl+Shift+I"@,
        s.default_format@ == "png"@ && s.naming_format@ == "OpenScreen_{date}_{time}"@,
        s.ocr_language@ == "auto"@ && s.rec_hw_mode@ == "auto"@,
        s.rec_audio@ == "system"@ && s.replay_audio@ == "system"@,
        s.rec_post_action@ == "nothing"@ && s.replay_post_action@ == "nothing"@,
        ends(s.save_location@, "Open Screen"@) && ends(s.rec_folder@, "Open Screen"@),
{
}

/// The folder is the program's own in the folder that there is, and the usual one otherwise.
pub proof fn law_own_folder(path: Seq<char>, dir: Option<String>, other: Seq<char>)
    requires
        folder_in(path, dir, other),
    ensures
        dir matches Some(d) ==> is_in(path, d@, "Open Screen"@),
        dir is None ==> path == other,
{
}

} // verus!
