//! Recording, the instant replay, and what the tray and the windows do.
use open_screen::clock::Stamp;
use open_screen::control::{
    capture_delay, capture_of, countdown_seconds, countdown_steps, drawn_area, hides_on_close,
    load_tray_icon, make_rec_dot, overlay_place, quit_steps, rebuild_tray, rec_pause_toggle,
    rec_start_only, rec_stop_only, rec_toggle, remember_area, replay_is_on, solid, that,
    tray_action, tray_rec_toggle, with_rec_dot, Capture, RecStep, TrayAction,
};
use open_screen::picture::Bitmap;
use open_screen::recorder::attempts::Attempts;
use open_screen::recorder::command::{
    build_cmd, concat_args, concat_done, concat_list, concat_route, ConcatRoute,
};
use open_screen::recorder::download::{
    check_version, download_error, download_urls, is_ffmpeg_entry, mirror_of, pick_build,
    refused_by_server, Progress,
};
use open_screen::recorder::files::{
    bundled_ffmpeg, bundled_ffmpeg_in, check_disk, default_folder, default_folder_in,
    drive_letter, ffmpeg_exe_name, ffmpeg_path, final_name, final_name_at, free_space_answer,
    free_space_query, is_stale_workdir, pick_place, post_action, post_launch, probe_path,
    probe_path_in, temp_name, temp_name_at, Place, PostAction,
};
use open_screen::recorder::history::{
    rec_history_add, rec_history_clear, rec_history_delete, rec_history_list, rec_history_path,
    rec_history_path_in, RecHistoryItem,
};
use open_screen::recorder::live::{
    meter_reading, on_progress, short_tail, spawn_error, split_report, start_error, startup_ms,
    tail_with, video_broken, watch, LiveStats, Watch,
};
use open_screen::recorder::params::{
    bitrate_for, default_source_area, even, full_virtual_area, is_full_virtual, pick_mic,
    resolve_audio, resolve_params, Area, Params,
};
use open_screen::recorder::probe::{
    encoder_chain, ffmpeg_version, get_probe, hw_label, is_hw_encoder, run_probe, scan_devices,
    scan_encoders, system_hint, EncCand, Probe, ProbeOutput, ProbeStep,
};
use open_screen::recorder::replay::{
    is_segment, leaves_buffer, replay_item, replay_item_at, replay_notice, segments_to_save,
    SegmentFile,
};
use open_screen::recorder::session::{
    live_paused, missing_engine, recorded_item, recorded_item_at, sort_parts, space_for,
    status_of, tooltip_text, Recorder,
};
use open_screen::screens::{ActiveWindowInfo, MonitorInfo};
use open_screen::settings::{defaults_in, AppSettings, RecArea};

fn strings(v: &[&str]) -> Vec<String> {
    v.iter().map(|s| s.to_string()).collect()
}

fn settings() -> AppSettings {
    defaults_in(None, None)
}

fn probe(h264: &[&str], hevc: &[&str], av1: &[&str], devices: &[&str]) -> Probe {
    let audio_devices = strings(devices);
    Probe {
        ffmpeg: "/ff".to_string(),
        version: "v".to_string(),
        h264: strings(h264),
        hevc: strings(hevc),
        av1: strings(av1),
        system_hint: system_hint(&audio_devices),
        audio_devices,
    }
}

fn area(x: i32, y: i32, w: u32, h: u32) -> Area {
    Area { x, y, w, h }
}

fn monitor(index: usize, x: i32, y: i32, width: u32, height: u32) -> MonitorInfo {
    MonitorInfo { index, name: String::new(), x, y, width, height }
}

fn params() -> Params {
    let p = probe(&["h264_nvenc", "libx264"], &[], &[], &["Mic", "Stereo Mix"]);
    resolve_params(&settings(), &p, area(0, 0, 1920, 1080), false)
}

fn first() -> EncCand {
    EncCand { name: "h264_nvenc".to_string(), label: "NVIDIA NVENC".to_string() }
}

fn started() -> Recorder {
    let mut r = Recorder::new();
    r.recording_started(
        params(),
        &first(),
        "system",
        "/tmp/w".to_string(),
        "OpenScreen_x.mp4".to_string(),
        10_000,
    );
    r
}

// ---- what the encoder program offers ----

#[test]
fn encoders_are_found_in_their_families() {
    let txt = " V....D libx264 H.264\n V....D h264_nvenc NVIDIA\n V....D libx265\n V..... av1_qsv\n\
               V....D h264_nvenc again\n A..... aac\n V..... hevc_amf\n";
    let (h264, hevc, av1) = scan_encoders(txt);
    assert_eq!(h264, strings(&["libx264", "h264_nvenc"]));
    assert_eq!(hevc, strings(&["libx265", "hevc_amf"]));
    assert_eq!(av1, strings(&["av1_qsv"]));
}

#[test]
fn audio_devices_are_found_between_headings() {
    let txt = "[dshow @ 0] DirectShow video devices\n[dshow @ 0]  \"Camera\"\n\
               [dshow @ 0] DirectShow audio devices\n[dshow @ 0]  \"Microphone (XYZ)\"\n\
               [dshow @ 0]  \"dummy\"\n[dshow @ 0]  \"\"\n[dshow @ 0] \"open\n no quotes\n\
               [dshow @ 0]  \"Stereo Mix (Realtek)\"\n";
    let devs = scan_devices(txt);
    assert_eq!(devs, strings(&["Microphone (XYZ)", "Stereo Mix (Realtek)"]));
    assert_eq!(system_hint(&devs), Some("Stereo Mix (Realtek)".to_string()));
    assert_eq!(system_hint(&strings(&["Mic", "Line"])), None);
    assert_eq!(system_hint(&strings(&["WHAT U HEAR"])), Some("WHAT U HEAR".to_string()));
}

#[test]
fn a_probe_holds_what_was_found() {
    let out = ProbeOutput {
        version: Some(b"ffmpeg version 7.1\nbuilt with".to_vec()),
        encoders: Some(b"h264_qsv".to_vec()),
        devices: Some((
            b"DirectShow audio devices\n".to_vec(),
            b"x \"Loopback\"\n".to_vec(),
        )),
    };
    let p = run_probe("/ff", &out);
    assert_eq!((p.ffmpeg.as_str(), p.version.as_str()), ("/ff", "ffmpeg version 7.1"));
    assert_eq!((p.h264, p.audio_devices), (strings(&["h264_qsv"]), strings(&["Loopback"])));
    assert_eq!(p.system_hint, Some("Loopback".to_string()));
    assert_eq!(ffmpeg_version(&None), "");
    assert_eq!(ffmpeg_version(&Some(Vec::new())), "");
    assert_eq!(ffmpeg_version(&Some(vec![b'a', 0xff, b'\n'])), "a\u{fffd}");
}

#[test]
fn a_probe_is_kept_for_the_same_program() {
    let ff = Some("/ff".to_string());
    let p = || Some(probe(&["libx264"], &[], &[], &[]));
    assert!(matches!(get_probe(false, p(), &ff), Ok(ProbeStep::Known(k)) if k.h264.len() == 1));
    assert!(matches!(get_probe(true, p(), &ff), Ok(ProbeStep::Ask)));
    assert!(matches!(get_probe(false, p(), &Some("/other".to_string())), Ok(ProbeStep::Ask)));
    assert!(matches!(get_probe(false, None, &ff), Ok(ProbeStep::Ask)));
    assert!(get_probe(false, p(), &None)
        .err()
        .unwrap()
        .starts_with("Recorder engine (ffmpeg) is missing."));
}

#[test]
fn encoders_are_called_by_what_they_are() {
    assert_eq!(hw_label("h264_nvenc"), "NVIDIA NVENC");
    assert_eq!(hw_label("hevc_qsv"), "Intel Quick Sync");
    assert_eq!(hw_label("av1_amf"), "AMD AMF");
    assert_eq!(hw_label("libx265"), "Software (CPU)");
    assert!(is_hw_encoder("h264_qsv") && !is_hw_encoder("libx264"));
}

#[test]
fn the_chain_has_hardware_first_and_software_last() {
    let names = |p: &Probe, codec: &str| -> Vec<String> {
        encoder_chain(p, codec).into_iter().map(|c| c.name).collect()
    };
    let p = probe(
        &["libx264", "h264_amf", "h264_nvenc"],
        &["libx265", "hevc_qsv"],
        &["av1_amf"],
        &[],
    );
    assert_eq!(names(&p, "auto"), strings(&["h264_nvenc", "h264_amf", "libx264"]));
    assert_eq!(
        names(&p, "hevc"),
        strings(&["hevc_qsv", "libx265", "h264_nvenc", "h264_amf", "libx264"])
    );
    assert_eq!(names(&p, "av1"), strings(&["av1_amf", "h264_nvenc", "h264_amf", "libx264"]));
    assert_eq!(names(&probe(&[], &[], &[], &[]), "auto"), strings(&["libx264"]));
    assert_eq!(encoder_chain(&p, "auto")[0].label, "NVIDIA NVENC");
}

// ---- parameters ----

#[test]
fn sizes_are_even() {
    assert_eq!((even(0), even(1), even(2), even(3), even(1081)), (2, 2, 2, 2, 1080));
    assert_eq!(even(u32::MAX), u32::MAX - 1);
}

#[test]
fn bitrates_grow_with_quality_and_size() {
    assert_eq!([480, 720, 1080].map(|h| bitrate_for("low", h)), [1500, 3000, 5000]);
    assert_eq!([480, 720, 1080].map(|h| bitrate_for("balanced", h)), [3000, 6000, 8000]);
    assert_eq!([480, 720, 1080].map(|h| bitrate_for("high", h)), [5000, 10000, 12000]);
    assert_eq!([480, 720, 1080].map(|h| bitrate_for("veryhigh", h)), [8000, 16000, 20000]);
}

#[test]
fn sound_is_resolved_to_devices() {
    let mut s = settings();
    let p = probe(&[], &[], &[], &["Stereo Mix", "Mic A", "Mic B"]);
    assert_eq!(pick_mic(&s, &p.audio_devices), Some("Mic A".to_string()));
    s.rec_mic_device = "Mic B".to_string();
    s.rec_audio = "BOTH".to_string();
    assert_eq!(
        resolve_audio(&s, &p, false),
        ("both".to_string(), Some("Mic B".to_string()), Some("Stereo Mix".to_string()))
    );
    assert_eq!(
        resolve_audio(&s, &p, true),
        ("system".to_string(), None, Some("Stereo Mix".to_string()))
    );
    s.rec_mic_device = "Gone".to_string();
    s.rec_audio = "Microphone".to_string();
    assert_eq!(resolve_audio(&s, &p, false).0, "mic");
    assert_eq!(resolve_audio(&s, &p, false).1, Some("Mic A".to_string()));
    s.rec_audio = "off".to_string();
    assert_eq!(resolve_audio(&s, &p, false), ("none".to_string(), None, None));
    assert_eq!(pick_mic(&s, &strings(&["Loopback"])), Some("Loopback".to_string()));
    assert_eq!(pick_mic(&s, &Vec::new()), None);
}

#[test]
fn a_recording_is_resolved() {
    let p = params();
    assert_eq!((p.out_w, p.out_h, p.fps, p.bitrate_k), (1920, 1080, 60, 12000));
    assert_eq!((p.encoder.as_str(), p.encoder_label.as_str()), ("h264_nvenc", "NVIDIA NVENC"));
    assert!(!p.sw_fallback_note && !p.desktop && p.cursor && p.power_note.is_none());
    assert_eq!((p.codec.as_str(), p.sample_rate, p.channels), ("auto", 48000, 2));
    assert_eq!((p.audio.as_str(), p.sys), ("system", Some("Stereo Mix".to_string())));
}

#[test]
fn presets_never_enlarge() {
    let p = probe(&["libx264"], &[], &[], &[]);
    let mut s = settings();
    s.rec_resolution = "1080p".to_string();
    let small = resolve_params(&s, &p, area(1, 2, 801, 601), false);
    assert_eq!((small.out_w, small.out_h), (800, 600));
    assert_eq!((small.area.x, small.area.y, small.area.w, small.area.h), (1, 2, 800, 600));
    assert!(small.sw_fallback_note);
    s.rec_resolution = "720p".to_string();
    let mid = resolve_params(&s, &p, area(0, 0, 1920, 1080), false);
    assert_eq!((mid.out_w, mid.out_h), (1280, 720));
    s.rec_resolution = "480p".to_string();
    let low = resolve_params(&s, &p, area(0, 0, 1920, 1080), false);
    assert_eq!((low.out_w, low.out_h), (852, 480));
    s.rec_resolution = "custom".to_string();
    s.rec_custom_w = 10;
    s.rec_custom_h = 9000;
    let odd = resolve_params(&s, &p, area(0, 0, 100, 100), false);
    assert_eq!((odd.out_w, odd.out_h), (320, 2160));
}

#[test]
fn frame_rates_are_those_on_offer() {
    let p = probe(&["libx264"], &[], &[], &[]);
    let mut s = settings();
    for (asked, used) in [(24, 24), (30, 30), (60, 60), (120, 60), (0, 60)] {
        s.rec_fps = asked;
        assert_eq!(resolve_params(&s, &p, area(0, 0, 640, 480), false).fps, used);
    }
    s.rec_power_saving = true;
    let saving = resolve_params(&s, &p, area(0, 0, 1920, 1080), false);
    assert_eq!((saving.fps, saving.bitrate_k), (30, 5000));
    assert_eq!(saving.power_note.unwrap(), "Power saving active: 30 FPS, lower bitrate.");
    s.replay_preset = "quick".to_string();
    let quick = resolve_params(&s, &p, area(0, 0, 1920, 1080), true);
    assert_eq!((quick.fps, quick.out_h, quick.bitrate_k), (30, 720, 3000));
    assert_eq!((quick.codec.as_str(), quick.power_note), ("h264", None));
    s.replay_preset = "long".to_string();
    let long = resolve_params(&s, &p, area(0, 0, 1920, 1080), true);
    assert_eq!((long.fps, long.out_h, long.bitrate_k), (60, 1080, 12000));
}

#[test]
fn bitrates_are_bounded() {
    let p = probe(&["libx264"], &[], &[], &[]);
    let mut s = settings();
    s.rec_preset = "custom".to_string();
    s.rec_quality = "veryhigh".to_string();
    let of = |s: &AppSettings| resolve_params(s, &p, area(0, 0, 1920, 1080), false).bitrate_k;
    assert_eq!(of(&s), 20000);
    s.rec_bitrate = "custom".to_string();
    s.rec_bitrate_custom = 500;
    assert_eq!(of(&s), 100_000);
    s.rec_bitrate = "25".to_string();
    assert_eq!(of(&s), 25_000);
    s.rec_bitrate = "many".to_string();
    assert_eq!(of(&s), 8000);
    s.rec_bitrate = "0".to_string();
    assert_eq!(of(&s), 1000);
    s.rec_preset = "battery".to_string();
    assert_eq!(of(&s), 5000);
}

#[test]
fn the_source_is_an_area() {
    let ms = vec![monitor(0, 0, 0, 1920, 1080), monitor(1, -1281, 5, 1281, 1023)];
    let of = |s: &AppSettings, w: &Option<ActiveWindowInfo>| {
        let a = default_source_area(s, &ms, w);
        (a.x, a.y, a.w, a.h)
    };
    let mut s = settings();
    assert_eq!(of(&s, &None), (0, 0, 1920, 1080));
    s.rec_default_source = "monitor:1".to_string();
    assert_eq!(of(&s, &None), (-1281, 5, 1280, 1022));
    s.rec_default_source = "monitor:x".to_string();
    s.rec_monitor = 1;
    assert_eq!(of(&s, &None), (-1281, 5, 1280, 1022));
    s.rec_default_source = "monitor:9".to_string();
    assert_eq!(of(&s, &None), (0, 0, 1920, 1080));
    s.rec_default_source = "all".to_string();
    assert_eq!(of(&s, &None), (-1281, 0, 3200, 1080));
    s.rec_default_source = "last_area".to_string();
    assert_eq!(of(&s, &None), (-1281, 0, 3200, 1080));
    s.rec_last_area = Some(RecArea { x: 3, y: 4, w: 65, h: 64 });
    assert_eq!(of(&s, &None), (3, 4, 64, 64));
    s.rec_default_source = "window".to_string();
    let w = ActiveWindowInfo { title: String::new(), x: 7, y: 8, width: 99, height: 77 };
    assert_eq!(of(&s, &Some(w)), (7, 8, 98, 76));
    assert_eq!(of(&s, &None), (-1281, 0, 3200, 1080));
    let all = full_virtual_area(&ms);
    assert!(is_full_virtual(&all, &ms));
    assert!(!is_full_virtual(&area(0, 0, 1920, 1080), &ms));
    let none = full_virtual_area(&Vec::new());
    assert_eq!((none.w, none.h), (1920, 1080));
}

// ---- the command ----

#[test]
fn a_command_without_sound() {
    let mut p = params();
    p.audio = "none".to_string();
    p.encoder = "libx264".to_string();
    let c = build_cmd(&p, "o.mp4", None);
    assert_eq!(
        c.args.join(" "),
        "-y -hide_banner -loglevel warning -f gdigrab -framerate 60 -draw_mouse 1 -offset_x 0 \
         -offset_y 0 -video_size 1920x1080 -i desktop -an -c:v libx264 -b:v 12000k -pix_fmt \
         yuv420p -preset veryfast -r 60 -progress pipe:1 -nostats -movflags +faststart o.mp4"
    );
    assert!(!c.has_sys && !c.has_mic);
}

#[test]
fn a_command_with_both_sounds_for_segments() {
    let mut p = params();
    p.audio = "both".to_string();
    p.mic = Some("Mic".to_string());
    p.desktop = true;
    p.cursor = false;
    p.out_w = 1280;
    p.out_h = 720;
    let c = build_cmd(&p, "seg%05d.mp4", Some(10));
    assert!(c.has_sys && c.has_mic);
    assert_eq!(
        c.args.join(" "),
        "-y -hide_banner -loglevel warning -f gdigrab -framerate 60 -draw_mouse 0 -i desktop \
         -rtbufsize 50M -f dshow -i audio=\"Mic\" -rtbufsize 50M -f dshow -i \
         audio=\"Stereo Mix\" -filter_complex [0:v]scale=1280:720[vout];\
         [1:a]ebur128=peak=true[mic];[2:a]ebur128=peak=true[sys];\
         [sys][mic]amix=inputs=2:duration=longest:dropout_transition=0[aout] -map [vout] -map \
         [aout] -ar 48000 -ac 2 -c:a aac -b:a 128k -c:v h264_nvenc -b:v 12000k -pix_fmt yuv420p \
         -r 60 -progress pipe:1 -nostats -f segment -segment_time 10 -segment_format mp4 \
         seg%05d.mp4"
    );
}

#[test]
fn a_command_with_one_sound() {
    let c = build_cmd(&params(), "o", None);
    assert!(c.has_sys && !c.has_mic);
    let all = c.args.join(" ");
    assert!(all.contains("-filter_complex [1:a]ebur128=peak=true[sys] -map 0:v -map [sys]"));
    let mut p = params();
    p.out_h = 720;
    p.audio = "mic".to_string();
    let all = build_cmd(&p, "o", None).args.join(" ");
    assert!(all.contains("-vf scale=1920:720 -an"));
}

#[test]
fn parts_are_joined() {
    assert_eq!(concat_route(0).err().unwrap(), "Nothing was recorded.");
    assert!(matches!(concat_route(1), Ok(ConcatRoute::Move)));
    assert!(matches!(concat_route(2), Ok(ConcatRoute::Join)));
    assert_eq!(concat_list(&strings(&["a", "it's"])), "file 'a'\nfile 'it'\\''s'\n");
    assert_eq!(
        concat_args("l.txt", "o.mp4").join(" "),
        "-y -hide_banner -loglevel error -f concat -safe 0 -i l.txt -c copy -movflags +faststart \
         o.mp4"
    );
    assert!(concat_done(true).is_ok());
    assert_eq!(concat_done(false).err().unwrap(), "Could not finalize the recording file.");
}

// ---- a running encoder ----

#[test]
fn progress_is_noted() {
    let mut l = LiveStats::new();
    assert_eq!(on_progress(&mut l, " frame = 12 "), None);
    assert_eq!(on_progress(&mut l, "total_size=345"), None);
    assert_eq!(on_progress(&mut l, "fps=59.9"), Some("59.9".to_string()));
    assert_eq!(on_progress(&mut l, "frame=N/A"), None);
    assert_eq!(on_progress(&mut l, "."), None);
    assert_eq!((l.frames, l.size_bytes), (12, 345));
    assert_eq!(split_report("a=b=c"), Some(("a".to_string(), "b=c".to_string())));
    assert_eq!(split_report("x"), None);
    live_paused(&mut l);
    assert_eq!((l.frames, l.frames_base), (0, 12));
}

#[test]
fn the_tail_of_errors_is_kept() {
    assert_eq!(tail_with("a\n", "b").unwrap(), "a\nb\n");
    let long = "x".repeat(2999);
    assert_eq!(tail_with("", &long).unwrap().len(), 3000);
    let cut = tail_with(&long, "yz").unwrap();
    assert_eq!(cut.len(), 3000);
    assert!(cut.ends_with("xyz\n"));
    assert_eq!(tail_with("é", &"x".repeat(2998)), None);
    assert_eq!(short_tail("  hi \n"), "hi");
    assert_eq!(short_tail(&format!("{} end", "y".repeat(500))).len(), 400);
    assert_eq!(short_tail(" \n"), "");
}

#[test]
fn errors_of_the_picture_are_told_from_others() {
    assert!(video_broken("Could not open encoder"));
    assert!(video_broken("No NVENC capable devices"));
    assert!(video_broken("Error initializing output stream 0:0"));
    assert!(!video_broken("Could not find audio device"));
}

#[test]
fn meters_are_read() {
    let r = meter_reading("[Parsed_ebur128_0 @ 0] t: 1 M:-23.4 S:-1", true, true).unwrap();
    assert_eq!((r.text.as_str(), r.is_sys), ("-23.4", true));
    let r = meter_reading("[Parsed_ebur128_1 @ 0] M:-5", true, true).unwrap();
    assert_eq!((r.text.as_str(), r.is_sys), ("-5", false));
    let r = meter_reading("[Parsed_ebur128_1 @ 0] M: -5", true, false).unwrap();
    assert_eq!((r.text.as_str(), r.is_sys), ("-5", true));
    let line = "[Parsed_ebur128_0 @ 0x1] M: -23.4 S: -20.0";
    let r = meter_reading(line, true, false).unwrap();
    assert_eq!((r.text.as_str(), r.is_sys), ("-23.4", true));
    let r = meter_reading("ebur128_0 M: \t x", false, true).unwrap();
    assert_eq!((r.text.as_str(), r.is_sys), ("", false));
    assert!(meter_reading("M:-5", true, true).is_none());
    assert!(meter_reading("ebur128_0", true, true).is_none());
}

#[test]
fn a_start_is_watched() {
    assert_eq!((startup_ms(true), startup_ms(false)), (2000, 1500));
    assert!(watch(0, 1500, false) == Watch::Wait);
    assert!(watch(200, 1500, true) == Watch::Wait);
    assert!(watch(200, 1500, false) == Watch::Dead);
    assert!(watch(1600, 1500, true) == Watch::Alive);
    assert!(watch(1600, 1500, false) == Watch::Dead);
    assert_eq!(start_error(""), "Unable to start screen recording.");
    assert_eq!(start_error("e"), "Unable to start screen recording. (e)");
    assert_eq!(spawn_error("e"), "Unable to start screen recording. (e)");
}

#[test]
fn every_encoder_is_tried_and_sound_is_left_out_once() {
    let p = probe(&["h264_nvenc", "h264_qsv", "libx264"], &[], &[], &["Stereo Mix"]);
    let base = params();
    let mut a = Attempts::new(&p, &base);
    let now = |a: &Attempts| a.current(&base).map(|t| (t.encoder, t.audio, t.sys.is_some()));
    assert_eq!(now(&a), Some(("h264_nvenc".to_string(), "system".to_string(), true)));
    a.failed("No NVENC capable devices".to_string());
    assert_eq!(now(&a), Some(("h264_qsv".to_string(), "system".to_string(), true)));
    a.failed("audio device is busy".to_string());
    assert_eq!(now(&a), Some(("h264_qsv".to_string(), "none".to_string(), false)));
    a.failed("still".to_string());
    assert_eq!(now(&a), Some(("libx264".to_string(), "system".to_string(), true)));
    a.failed("x".to_string());
    a.failed("y".to_string());
    assert_eq!(now(&a), None);
    assert_eq!(a.error(), "Unable to start screen recording. (y)");
}

#[test]
fn without_sound_no_encoder_is_tried_twice() {
    let p = probe(&["h264_qsv", "libx264"], &[], &[], &[]);
    let mut base = params();
    base.audio = "none".to_string();
    let mut a = Attempts::new(&p, &base);
    a.failed("x".to_string());
    assert_eq!(a.current(&base).unwrap().encoder, "libx264");
    a.failed(String::new());
    assert!(a.current(&base).is_none());
    assert_eq!(a.error(), "Unable to start screen recording.");
}

// ---- a recording ----

#[test]
fn nothing_is_on_at_first() {
    let r = Recorder::new();
    assert!(!r.is_recording() && !r.is_paused());
    assert_eq!(r.replay_state(0), "off");
    assert_eq!(tooltip_text(&r, 0), "Open Screen");
    assert!(r.check_start().is_ok());
    assert_eq!(r.check_pause().err().unwrap(), "Not recording.");
    assert_eq!(r.check_resume().err().unwrap(), "Not recording.");
    assert_eq!(r.check_replay_save(0).err().unwrap(), "Instant Replay is off. Enable it first.");
    let st = status_of(&r, &LiveStats::new(), 0, None);
    assert!(!st.recording && !st.paused && !st.ffmpeg);
    assert_eq!((st.replay.as_str(), st.fps, st.encoder.as_str()), ("off", 0, ""));
    assert!(missing_engine().starts_with("Recorder engine (ffmpeg) is missing."));
}

#[test]
fn a_recording_is_prepared() {
    let ms = vec![monitor(0, 0, 0, 1920, 1080)];
    let quiet = probe(&["libx264"], &[], &[], &[]);
    let mut r = Recorder::new();
    let p = r.prepare_recording(&settings(), &quiet, area(0, 0, 1920, 1080), &ms);
    assert!(p.desktop);
    assert_eq!(p.audio, "none");
    assert_eq!(r.last_message, "Audio capture is unavailable — recording video only.");
    let heard = probe(&["libx264"], &[], &[], &["Stereo Mix"]);
    let mut r = Recorder::new();
    let p = r.prepare_recording(&settings(), &heard, area(5, 0, 1920, 1080), &ms);
    assert!(!p.desktop);
    assert_eq!((p.audio.as_str(), r.last_message.as_str()), ("system", ""));
    let p = r.prepare_replay(&settings(), &quiet, &ms);
    assert!(p.desktop);
    assert_eq!(r.last_message, "Audio capture is unavailable — replay video only.");
}

#[test]
fn another_encoder_is_told() {
    let note = |encoder: &str, label: &str, audio: &str, sw: bool| {
        let mut r = Recorder::new();
        let mut p = params();
        p.encoder = encoder.to_string();
        p.encoder_label = label.to_string();
        p.audio = audio.to_string();
        p.sw_fallback_note = sw;
        r.recording_started(p, &first(), "system", String::new(), String::new(), 0);
        r.last_message
    };
    let software = "Hardware encoder unavailable. Using software encoding.";
    assert_eq!(note("h264_nvenc", "NVIDIA NVENC", "system", false), "");
    assert_eq!(note("libx264", "Software (CPU)", "system", false), software);
    assert_eq!(
        note("h264_amf", "AMD AMF", "system", false),
        "NVIDIA NVENC unavailable. Using AMD AMF."
    );
    assert_eq!(
        note("h264_nvenc", "NVIDIA NVENC", "none", false),
        "Audio capture failed — recording video only."
    );
    assert_eq!(note("h264_nvenc", "NVIDIA NVENC", "none", true), software);
}

#[test]
fn the_time_of_a_pause_does_not_count() {
    let mut r = started();
    assert!(r.is_recording());
    assert_eq!(r.check_start().err().unwrap(), "Already recording.");
    assert_eq!(r.check_resume().err().unwrap(), "Already recording.");
    assert_eq!(r.first_part().unwrap(), "/tmp/w/part001.mp4");
    let mut live = LiveStats::new();
    live.frames = 100;
    let st = status_of(&r, &live, 15_999, Some("/ff".to_string()));
    assert_eq!((st.elapsed_s, st.frames, st.dropped), (5, 100, 200));
    assert!(st.ffmpeg && st.recording);
    assert_eq!(tooltip_text(&r, 75_000), "● Recording 01:05 — Ctrl+Shift+R to stop");
    r.recording_paused(true, 16_000);
    assert!(r.is_paused());
    assert_eq!(r.check_pause().err().unwrap(), "Already paused.");
    assert_eq!(tooltip_text(&r, 99_000), "❚❚ Paused 00:06");
    assert_eq!(r.next_part().unwrap(), "/tmp/w/live002.mp4");
    r.recording_resumed("/tmp/w/live002.mp4".to_string(), 100_000);
    assert!(r.check_pause().is_ok());
    let st = status_of(&r, &live, 104_000, None);
    assert_eq!(st.elapsed_s, 10);
    let a = r.take_recording().expect("recording");
    assert_eq!(a.partials, strings(&["/tmp/w/part001.mp4", "/tmp/w/live002.mp4"]));
    assert_eq!(a.elapsed_ms(104_000), 10_000);
    let it = recorded_item_at(&a, "i".to_string(), "t".to_string(), "/o", 77, 104_000);
    assert_eq!((it.duration_s, it.kind.as_str(), it.size), (10, "screen", 77));
    assert_eq!((it.name.as_str(), it.path.as_str()), ("OpenScreen_x.mp4", "/o"));
    assert_eq!(recorded_item(&a, "/o", 77, 104_000).id.len(), 36);
    assert_eq!(r.take_recording().err().unwrap(), "Not recording.");
}

#[test]
fn the_last_part_is_listed() {
    let mut a = started().take_recording().expect("recording");
    let (part, live) = a.live_candidates();
    assert_eq!((part.as_str(), live.as_str()), ("/tmp/w/part001.mp4", "/tmp/w/live000.mp4"));
    a.seal(&part, true, &live, true);
    assert_eq!(a.partials, vec![part.clone()]);
    a.seal(&part, true, &live, false);
    assert_eq!(a.partials.len(), 1);
    a.seal(&part, true, &live, true);
    assert_eq!(a.partials, vec![part, live]);
}

#[test]
fn empty_parts_are_dropped() {
    let parts = strings(&["a", "b", "c"]);
    let (good, bad) = sort_parts(&parts, &vec![Some(4097), Some(4096), None]);
    assert_eq!((good, bad), (strings(&["a"]), strings(&["b"])));
    assert_eq!(space_for(&vec![5, 6]), 104_857_611);
    let mut r = Recorder::new();
    r.nothing_recorded("");
    assert_eq!(r.last_message, "Nothing was recorded.");
    r.nothing_recorded("disk full");
    assert_eq!(r.last_message, "Nothing was recorded. disk full");
    r.note("x");
    assert_eq!(r.last_message, "x");
}

// ---- the replay ----

#[test]
fn the_replay_rolls_and_is_saved() {
    let mut r = Recorder::new();
    assert!(r.check_replay_start().is_ok());
    let mut s = settings();
    s.replay_duration = 9999;
    r.replay_started(params(), &first(), "system", "/tmp/s".to_string(), &s, 1000);
    assert_eq!(r.check_replay_start().err().unwrap(), "Instant Replay is already on.");
    assert_eq!(r.replay_state(3999), "starting");
    assert!(r.check_replay_save(3999).is_err());
    assert_eq!(r.replay_state(4000), "ready");
    assert!(r.check_replay_save(4000).is_ok());
    assert_eq!(tooltip_text(&r, 4000), "Instant Replay: ready (600s)");
    let st = status_of(&r, &LiveStats::new(), 5000, None);
    assert_eq!((st.replay_ready_s, st.replay_duration, st.width), (4, 600, 1920));
    let a = r.take_replay().expect("on");
    assert_eq!(r.take_replay().err().unwrap(), "Instant Replay is off.");
    let it = replay_item_at(&a, "i".to_string(), "t".to_string(), "n", "/o", 5, 8000);
    assert_eq!((it.duration_s, it.kind.as_str(), it.name.as_str()), (7, "replay", "n"));
    assert_eq!(replay_item(&a, "n", "/o", 5, 999_000).duration_s, 600);
    r.replay_restarted(a.params, "/tmp/s".to_string(), 600, 9000);
    assert_eq!(r.replay_state(9000), "starting");
    assert_eq!(
        r.replay_saved(Err("no".to_string()), Ok(())).err().unwrap(),
        "no"
    );
    assert_eq!(r.last_message, "no");
    assert!(r.replay_saved(Ok(()), Err("busy".to_string())).is_ok());
    assert_eq!(r.last_message, "Replay saved, but buffer restart failed: busy");
    assert_eq!(replay_notice(30), "Buffering last 30s. Press Ctrl+Shift+I to save.");
}

#[test]
fn the_last_segments_are_saved_and_kept() {
    let now: u64 = 1_000_000_000_000;
    let file = |name: &str, age_s: u64| SegmentFile {
        name: name.to_string(),
        modified_ns: now - age_s * 1_000_000_000,
    };
    let files = vec![file("seg2.mp4", 5), file("seg1.mp4", 42), file("seg0.mp4", 43), file("x", 1)];
    assert_eq!(
        segments_to_save(&files, now, 30).expect("segments"),
        strings(&["seg1.mp4", "seg2.mp4"])
    );
    assert_eq!(
        segments_to_save(&files[3..].iter().map(|f| file(&f.name, 1)).collect(), now, 30)
            .err()
            .unwrap(),
        "Instant Replay is not ready yet. Please wait a few seconds."
    );
    assert!(!leaves_buffer(&file("a.mp4", 42), now, 30));
    assert!(!leaves_buffer(&file("a.mp4", 55), now, 30));
    assert!(leaves_buffer(&file("a.mp4", 56), now, 30));
    assert!(!leaves_buffer(&file("a.txt", 56), now, 30));
    assert!(is_segment("a.mp4") && !is_segment(".mp4") && !is_segment("amp4"));
}

// ---- files ----

#[test]
fn files_have_names() {
    let stamp = Stamp { date: "2026-01-02".to_string(), time: "03-04-05".to_string() };
    assert_eq!(final_name_at(&stamp, false), "OpenScreen_2026-01-02_03-04-05.mp4");
    assert_eq!(final_name_at(&stamp, true), "OpenScreen_Replay_2026-01-02_03-04-05.mp4");
    assert!(final_name(true).starts_with("OpenScreen_Replay_2"));
    let mut s = settings();
    s.rec_folder = "  /r ".to_string();
    assert_eq!(default_folder(&s), "/r");
    s.rec_folder = "  ".to_string();
    assert_eq!(default_folder_in(&s, Some("/v".to_string())), "/v/Open Screen");
    assert_eq!(default_folder_in(&s, None), "./Open Screen");
    assert_eq!(temp_name_at("p", "i"), "p-i");
    let work = temp_name("openscreen-rec");
    assert_eq!(work.len(), 14 + 37);
    assert!(is_stale_workdir(&work));
    assert!(!is_stale_workdir("openscreen-replay"));
    assert_ne!(work, temp_name("openscreen-rec"));
}

#[test]
fn the_encoder_program_is_found_in_order() {
    let own = |there| Place { path: "o".to_string(), there };
    let text = |s: &str| Some(s.to_string());
    assert_eq!(ffmpeg_path(text("s"), text("p"), own(true)), text("s"));
    assert_eq!(ffmpeg_path(None, text("p"), own(true)), text("p"));
    assert_eq!(ffmpeg_path(None, None, own(true)), text("o"));
    assert_eq!(ffmpeg_path(None, None, own(false)), None);
    assert_eq!(pick_place(&vec![own(false)]), None);
    assert_eq!((ffmpeg_exe_name(true), ffmpeg_exe_name(false)), ("ffmpeg.exe", "ffmpeg"));
    assert_eq!(bundled_ffmpeg_in("/a", true), "/a/ffmpeg/ffmpeg.exe");
    assert!(bundled_ffmpeg(false).ends_with("ffmpeg"));
    assert_eq!(probe_path_in("/a"), "/a/ffmpeg_probe.json");
    assert!(probe_path().ends_with("ffmpeg_probe.json"));
}

#[test]
fn disk_space_is_checked() {
    assert_eq!(drive_letter("C:\\x"), Some('C'));
    assert_eq!(drive_letter("/x"), None);
    assert_eq!(drive_letter(""), None);
    assert_eq!(free_space_query('d'), "(Get-PSDrive d).Free");
    assert_eq!(free_space_answer(b" 123\r\n"), Some(123));
    assert_eq!(free_space_answer(b"none"), None);
    assert!(check_disk(Some(10), 10).is_ok());
    assert!(check_disk(None, 10).is_ok());
    assert!(check_disk(Some(9), 10).err().unwrap().starts_with("Not enough disk space"));
}

#[test]
fn saved_files_are_opened_or_shown() {
    assert!(post_action("open_file") == PostAction::OpenFile);
    assert!(post_action("x") == PostAction::Nothing);
    let l = post_launch(post_action("open_folder"), "/o").expect("program");
    assert_eq!((l.program.as_str(), l.args), ("explorer", strings(&["/select,", "/o"])));
    let l = post_launch(PostAction::OpenFile, "/o").expect("program");
    assert_eq!((l.program.as_str(), l.args), ("cmd", strings(&["/C", "start", "", "/o"])));
    assert!(post_launch(post_action("copy_path"), "/o").is_none());
    let l = that("/o", true).expect("windows");
    assert_eq!((l.program.as_str(), l.args.len()), ("cmd", 4));
    assert_eq!(that("/o", false).err().unwrap(), "Cannot open /o on this platform");
}

#[test]
fn the_encoder_program_is_downloaded() {
    let release = br#"{"assets":[{"x":1},{"browser_download_url":"http://a/full.zip"},
        {"browser_download_url":"http://a/7-essentials_build.zip"},
        {"browser_download_url":"http://b/essentials_build.zip"}]}"#;
    let mirror = mirror_of(release);
    assert_eq!(mirror, Some("http://a/7-essentials_build.zip".to_string()));
    assert_eq!(mirror_of(b"[]"), None);
    assert_eq!(pick_build(&vec![None]), None);
    let urls = download_urls(mirror);
    assert_eq!(urls.len(), 2);
    assert!(urls[0].starts_with("https://www.gyan.dev/ffmpeg/"));
    assert!(is_ffmpeg_entry("ffmpeg-7\\bin\\FFmpeg.exe"));
    assert!(is_ffmpeg_entry("ffmpeg.exe"));
    assert!(!is_ffmpeg_entry("bin/ffmpeg.exe.txt"));
    assert!(!is_ffmpeg_entry("xffmpeg.exe"));
    assert_eq!(refused_by_server("404"), "Download failed (HTTP 404).");
    assert!(check_version("v").is_ok());
    assert_eq!(check_version("").err().unwrap(), "Downloaded ffmpeg does not run on this PC.");
    assert!(download_error(None).starts_with("download failed. Check internet"));
    assert!(download_error(Some("e".to_string())).starts_with("e. Check internet"));
}

#[test]
fn downloads_tell_how_far_they_are() {
    let mut p = Progress::new(1000);
    assert_eq!(p.on_chunk(19), None);
    assert_eq!(p.on_chunk(1), Some(2));
    assert_eq!(p.on_chunk(10), None);
    assert_eq!(p.on_chunk(970), Some(100));
    assert_eq!(Progress::new(0).on_chunk(5), None);
}

#[test]
fn the_history_of_recordings() {
    let item = |id: &str, at: &str| RecHistoryItem {
        id: id.to_string(),
        name: id.to_string(),
        path: format!("/{id}"),
        created_at: at.to_string(),
        duration_s: 1,
        width: 2,
        height: 2,
        fps: 30,
        size: 9,
        kind: "screen".to_string(),
    };
    let ids = |v: &[RecHistoryItem]| v.iter().map(|i| i.id.clone()).collect::<Vec<_>>();
    let all = || vec![item("a", "1"), item("b", "3"), item("c", "2")];
    assert_eq!(ids(&rec_history_list(all(), &vec![true, true, false])), strings(&["b", "a"]));
    let c = rec_history_add(all(), item("d", "4"), 2);
    assert_eq!(ids(&c.items), strings(&["d", "b"]));
    assert_eq!(c.removed, strings(&["/a", "/c"]));
    let c = rec_history_add(all(), item("d", "4"), 0);
    assert_eq!((c.items.len(), c.removed.len()), (0, 0));
    let c = rec_history_delete(all(), "b");
    assert_eq!((ids(&c.items), c.removed), (strings(&["a", "c"]), strings(&["/b"])));
    assert_eq!(rec_history_delete(all(), "z").items.len(), 3);
    let c = rec_history_clear(&all());
    assert_eq!((c.items.len(), c.removed), (0, strings(&["/a", "/b", "/c"])));
    assert_eq!(rec_history_path_in("/d"), "/d/recordings.json");
    assert!(rec_history_path().ends_with("recordings.json"));
}

// ---- the tray and the windows ----

#[test]
fn captures_are_asked_for_by_word() {
    assert_eq!((capture_delay(5), capture_delay(99_999)), (5, 30_000));
    assert!(matches!(capture_of("fullscreen", None, None, None, None, None), Capture::Monitor(0)));
    assert!(matches!(
        capture_of("fullscreen", None, None, None, None, Some(2)),
        Capture::Monitor(2)
    ));
    assert!(matches!(capture_of("window", None, None, None, None, None), Capture::Window));
    assert!(matches!(capture_of("all", None, None, None, None, None), Capture::All));
    match capture_of("region", Some(1), None, Some(3), Some(4), None) {
        Capture::Part(r) => assert_eq!((r.x, r.y, r.w, r.h), (1, 0, 3, 4)),
        _ => panic!("a region"),
    }
}

#[test]
fn the_overlay_covers_all_monitors() {
    let ms = vec![monitor(0, -10, -20, 100, 100), monitor(1, 90, 0, 1910, 700)];
    let r = overlay_place(&ms).expect("monitors");
    assert_eq!((r.x, r.y, r.w, r.h), (-10, -20, 2010, 720));
    let r = overlay_place(&vec![monitor(0, 0, 0, 10, 10)]).expect("monitors");
    assert_eq!((r.w, r.h), (800, 600));
    assert!(overlay_place(&Vec::new()).is_none());
}

#[test]
fn the_drawn_area_is_remembered() {
    let a = drawn_area(1, 2, 10, 100);
    assert_eq!((a.x, a.y, a.w, a.h), (1, 2, 64, 100));
    let s = remember_area(settings(), &a);
    assert_eq!(s.rec_default_source, "last_area");
    assert_eq!(s.rec_last_area.map(|r| (r.x, r.y, r.w, r.h)), Some((1, 2, 64, 100)));
    assert_eq!(s.rec_fps, 60);
}

#[test]
fn countdowns_are_those_on_offer() {
    assert_eq!([0, 3, 5, 10, 4].map(countdown_seconds), [0, 3, 5, 10, 3]);
    assert_eq!(countdown_steps(3), 12);
}

#[test]
fn keys_start_stop_and_pause() {
    for (rec, paused) in [(true, false), (false, true)] {
        assert!(rec_toggle(rec, paused) == RecStep::Stop);
        assert!(rec_start_only(rec, paused) == RecStep::Nothing);
        assert!(rec_stop_only(rec, paused) == RecStep::Stop);
        assert!(tray_rec_toggle(rec, paused) == RecStep::Stop);
    }
    assert!(rec_toggle(false, false) == RecStep::Start);
    assert!(rec_start_only(false, false) == RecStep::Start);
    assert!(rec_stop_only(false, false) == RecStep::Nothing);
    assert!(tray_rec_toggle(false, false) == RecStep::PickArea);
    assert!(rec_pause_toggle(true, false) == RecStep::Pause);
    assert!(rec_pause_toggle(false, true) == RecStep::Resume);
    assert!(rec_pause_toggle(false, false) == RecStep::Nothing);
    assert!(replay_is_on("saving") && !replay_is_on("off"));
    assert_eq!(quit_steps(false, true, "off"), (true, false));
    assert_eq!(quit_steps(false, false, "ready"), (false, true));
}

#[test]
fn the_tray_shows_what_can_be_done() {
    let r = started();
    let menu = rebuild_tray(&status_of(&r, &LiveStats::new(), 10_000, None));
    assert_eq!(menu.len(), 10);
    let of = |id: &str| menu.iter().find(|m| m.id == id).map(|m| (m.text.as_str(), m.enabled));
    assert_eq!(of("rec_toggle"), Some(("Stop Recording", true)));
    assert_eq!(of("rec_pause"), Some(("Pause Recording", true)));
    assert_eq!(of("replay_toggle"), Some(("Start Instant Replay", false)));
    assert_eq!(of("replay_save"), Some(("Save Instant Replay", false)));
    assert_eq!(of("title"), Some(("Open Screen", false)));
    assert!(tray_action("take") == TrayAction::Screenshot);
    assert!(tray_action("quit") == TrayAction::Quit);
    assert!(tray_action("title") == TrayAction::Nothing);
    assert!(hides_on_close("editor") && !hides_on_close("main"));
}

#[test]
fn the_icon_gets_a_red_dot() {
    let pixel = |b: &Bitmap, x: usize, y: usize| {
        let i = (y * b.width as usize + x) * 4;
        [b.rgba[i], b.rgba[i + 1], b.rgba[i + 2], b.rgba[i + 3]]
    };
    let base = solid(32, 32, 1, 2, 3);
    let b = with_rec_dot(&base);
    assert_eq!(pixel(&b, 23, 23), [232, 17, 35, 255]);
    assert_eq!(pixel(&b, 16, 23), [232, 17, 35, 255]);
    assert_eq!(pixel(&b, 15, 23), [255, 255, 255, 255]);
    assert_eq!(pixel(&b, 14, 23), [255, 255, 255, 255]);
    assert_eq!(pixel(&b, 13, 23), [1, 2, 3, 255]);
    let broken = make_rec_dot(b"no picture");
    assert_eq!((broken.width, broken.height, pixel(&broken, 0, 0)), (32, 32, [11, 87, 208, 255]));
    assert!(load_tray_icon(b"no picture").err().unwrap().starts_with("tray icon decode failed: "));
    let cap = open_screen::screenshot::capture_result(solid(4, 5, 9, 9, 9)).expect("png");
    let png = open_screen::encoding::decode_trimmed(&cap.base64).expect("base64");
    let icon = load_tray_icon(&png).expect("picture");
    assert_eq!((icon.width, icon.height, pixel(&icon, 0, 0)), (4, 5, [9, 9, 9, 255]));
    assert_eq!(make_rec_dot(&png).width, 4);
}
