//! Capture of whole monitors, sound, and encoders in hardware.
use open_screen::audio::{
    list_audio_devices, names_of, pick_capture_device, start_pcm_pump, step_wait, usable_channels,
    usable_rate, wanted_sounds, Chunker, MixStep, Mixer, RawDevices, MIX_STEP_NS,
    PUMP_CHUNK_FRAMES,
};
use open_screen::mfhw::{probe_hw_encoders, probe_sw, HwEncoders};
use open_screen::nativerec::{
    audio_track, codec_name, frame_route, i16_to_le_bytes, pixel_work, FrameRoute, NativeCodec,
    NativeCount, NativeFault, NativeRecConfig, NativeStop, PixelWork,
};
use open_screen::wgc::{
    backend_name, list_monitors, probe_error, probe_failed, probe_seconds, Enumerated, ProbeCount,
    RawDisplay,
};

fn text(s: &str) -> Option<String> {
    Some(s.to_string())
}

fn display(name: Option<&str>) -> RawDisplay {
    RawDisplay {
        name: name.map(|n| n.to_string()),
        width: Some(1920),
        height: Some(1080),
        refresh_rate: Some(60),
    }
}

fn config() -> NativeRecConfig {
    NativeRecConfig {
        monitor_idx: 0,
        crop: None,
        out_w: 1920,
        out_h: 1080,
        fps: 60,
        bitrate_bps: 12_000_000,
        codec: NativeCodec::H264,
        cursor: true,
        audio_channels: 0,
        sample_rate: 48000,
    }
}

#[test]
fn wgc_monitor_specs() {
    let found = Enumerated::Found(vec![display(Some("DISPLAY1"))], text("DISPLAY1"));
    let mons = list_monitors(&found).expect("enumerate failed");
    assert!(!mons.is_empty());
}

#[test]
fn monitors_are_listed_as_the_system_tells() {
    let bare = RawDisplay { name: None, width: None, height: None, refresh_rate: None };
    let found = Enumerated::Found(vec![display(Some("A")), bare], text("Display 2"));
    let mons = list_monitors(&found).expect("found");
    assert_eq!((mons[0].index, mons[0].name.as_str(), mons[0].primary), (0, "A", false));
    assert_eq!((mons[0].width, mons[0].height, mons[0].refresh_rate), (1920, 1080, 60));
    assert_eq!((mons[1].index, mons[1].name.as_str(), mons[1].primary), (1, "Display 2", true));
    assert_eq!((mons[1].width, mons[1].height, mons[1].refresh_rate), (0, 0, 0));
    let none = list_monitors(&Enumerated::Found(vec![display(Some(""))], None)).expect("found");
    assert!(none[0].primary);
}

#[test]
fn monitors_that_cannot_be_listed_are_told() {
    assert_eq!(
        list_monitors(&Enumerated::Unsupported).err().unwrap(),
        "Windows Graphics Capture requires Windows."
    );
    assert_eq!(
        list_monitors(&Enumerated::Failed("no".to_string())).err().unwrap(),
        "Monitor enumerate failed: no"
    );
}

#[test]
fn trials_count_frames() {
    let mut p = ProbeCount::new();
    assert!(!p.monotonic);
    assert!(!p.on_frame(10, 320, 200, 30));
    assert!(!p.on_frame(20, 1, 1, 30));
    assert!(p.monotonic);
    assert!(p.on_frame(30, 1, 1, 30));
    let st = p.stats(500);
    assert_eq!(st.backend, "Windows Graphics Capture");
    assert_eq!((st.width, st.height, st.frames, st.elapsed_ms), (320, 200, 3, 500));
    assert!(st.monotonic);
    assert!(!p.on_frame(29, 1, 1, 30));
    p.on_frame(40, 1, 1, 30);
    assert!(!p.monotonic);
}

#[test]
fn trials_tell_what_is_missing() {
    assert_eq!(probe_seconds(0), 1);
    assert_eq!(probe_seconds(4), 4);
    assert_eq!(probe_error(Some(7), "e"), "Monitor 7 not found: e");
    assert_eq!(probe_error(None, "e"), "Primary monitor not found: e");
    assert_eq!(probe_failed("e"), "WGC session failed: e");
    assert_eq!(backend_name(true), "Windows Graphics Capture");
    assert_eq!(backend_name(false), "unsupported");
}

#[test]
fn mf_hw_probe_runs() {
    let hw = probe_hw_encoders(&vec![text("NVIDIA H.264 Encoder MFT")], &Vec::new());
    assert_eq!(hw.h264_hw, vec!["NVIDIA H.264 Encoder MFT"]);
    let sw = probe_sw("h264", &vec!["H264 Encoder MFT".to_string()], &Vec::new());
    assert!(!sw.is_empty(), "MFT enumeration broken: no SW H264 MFT");
}

#[test]
fn encoders_are_listed_once_in_order() {
    let hw = probe_hw_encoders(
        &vec![text("b"), None, text("a"), text("  "), text("b")],
        &vec![text("c")],
    );
    assert_eq!(hw.h264_hw, vec!["a", "b"]);
    assert_eq!(hw.hevc_hw, vec!["c"]);
    let h264 = vec!["y".to_string(), "x".to_string(), "y".to_string(), "".to_string()];
    let hevc = vec!["z".to_string()];
    assert_eq!(probe_sw("anything", &h264, &hevc), vec!["", "x", "y"]);
    assert_eq!(probe_sw("HEVC", &h264, &hevc), vec!["z"]);
    assert_eq!(probe_sw("h265", &h264, &hevc), vec!["z"]);
}

#[test]
fn the_maker_is_told_by_the_first_name_that_shows_it() {
    let of = |a: &[&str], b: &[&str]| {
        HwEncoders {
            h264_hw: a.iter().map(|n| n.to_string()).collect(),
            hevc_hw: b.iter().map(|n| n.to_string()).collect(),
        }
        .vendor()
    };
    assert_eq!(of(&["Acme", "AMD AMF"], &["NVIDIA"]), text("AMD"));
    assert_eq!(of(&["h264 NVENC"], &[]), text("NVIDIA"));
    assert_eq!(of(&["Acme"], &["Intel® Quick Sync"]), text("Intel"));
    assert_eq!(of(&["some QSV thing"], &[]), text("Intel"));
    assert_eq!(of(&["Acme"], &[]), None);
}

#[test]
fn sound_devices_are_listed() {
    let raw = RawDevices {
        capture: vec![text("Mic B"), text(" "), None, text("Mic A"), text("Mic B")],
        render: text("Speakers"),
    };
    assert_eq!(names_of(&raw.capture), vec!["Mic B", "Mic A", "Mic B"]);
    let d = list_audio_devices(&Some(raw));
    assert_eq!(d.mics, vec!["Mic A", "Mic B"]);
    assert_eq!(d.system, text("Speakers"));
    assert!(d.wasapi_available);
    let blank = RawDevices { capture: Vec::new(), render: text("  ") };
    assert_eq!(list_audio_devices(&Some(blank)).system, None);
    let d = list_audio_devices(&None);
    assert!(d.mics.is_empty() && d.system.is_none() && !d.wasapi_available);
}

#[test]
fn the_preferred_microphone_is_picked() {
    let devs = vec![text("A"), None, text("B"), text("B")];
    assert_eq!(pick_capture_device(&devs, " B "), Some(2));
    assert_eq!(pick_capture_device(&devs, "C"), None);
    assert_eq!(pick_capture_device(&devs, "  "), None);
}

#[test]
fn sounds_are_wanted_by_mode() {
    assert_eq!(wanted_sounds("System"), (true, false));
    assert_eq!(wanted_sounds("MIC"), (false, true));
    assert_eq!(wanted_sounds("microphone"), (false, true));
    assert_eq!(wanted_sounds("both"), (true, true));
    assert_eq!(wanted_sounds("none"), (false, false));
    assert_eq!((usable_rate(44100), usable_rate(96000)), (44100, 48000));
    assert_eq!((usable_channels(1), usable_channels(6)), (1, 2));
}

#[test]
fn missing_sound_is_told_and_nothing_fails() {
    let p = start_pcm_pump("none", true, false, false);
    assert!(!p.active);
    assert!(p.note.is_none());
    let p = start_pcm_pump("system", false, false, false);
    assert!(!p.active);
    assert!(p.note.unwrap().starts_with("Audio capture is unavailable on this platform"));
    let p = start_pcm_pump("both", true, true, true);
    assert!(p.active && p.note.is_none());
    let p = start_pcm_pump("both", true, false, true);
    assert!(p.active);
    assert!(p.note.unwrap().starts_with("System audio unavailable"));
    let p = start_pcm_pump("both", true, true, false);
    assert!(p.active);
    assert!(p.note.unwrap().starts_with("Microphone unavailable"));
    let p = start_pcm_pump("both", true, false, false);
    assert!(!p.active);
    assert!(p.note.unwrap().starts_with("System audio unavailable"));
}

#[test]
fn chunks_have_one_size_and_lose_nothing() {
    let mut c = Chunker::new(2);
    let size = PUMP_CHUNK_FRAMES * 2;
    assert_eq!(c.size, size);
    let samples: Vec<i16> = (0..size as i16 * 2 + 5).collect();
    let out = c.push_all(&samples);
    assert_eq!(out.len(), 2);
    assert!(out.iter().all(|k| k.len() == size));
    let mut all: Vec<i16> = out.concat();
    all.extend(&c.pending);
    assert_eq!(all, samples);
    assert_eq!(c.push(7), None);
}

#[test]
fn steps_are_even_whatever_comes() {
    let mut m = Mixer::new(true, true, 1);
    assert_eq!(m.size, 960);
    m.take(Some(vec![3; 960]), None);
    match m.step() {
        MixStep::Two(v) => assert_eq!(v, vec![(3, 0); 960]),
        MixStep::One(_) => panic!("two sounds"),
    }
    let mut m = Mixer::new(true, false, 2);
    match m.step() {
        MixStep::One(v) => assert_eq!(v, vec![0; 1920]),
        MixStep::Two(_) => panic!("one sound"),
    }
    m.take(Some(vec![5; 1920]), Some(vec![6; 1920]));
    match m.step() {
        MixStep::One(v) => assert_eq!(v, vec![5; 1920]),
        MixStep::Two(_) => panic!("one sound"),
    }
    m.take(None, None);
    match m.step() {
        MixStep::One(v) => assert_eq!(v, vec![0; 1920]),
        MixStep::Two(_) => panic!("one sound"),
    }
    let mut m = Mixer::new(false, true, 0);
    m.take(Some(vec![5; 960]), Some(vec![6; 960]));
    match m.step() {
        MixStep::One(v) => assert_eq!(v, vec![6; 960]),
        MixStep::Two(_) => panic!("one sound"),
    }
    match Mixer::new(false, false, 1).step() {
        MixStep::One(v) => assert_eq!(v.len(), 960),
        MixStep::Two(_) => panic!("no sound"),
    }
}

#[test]
fn steps_keep_the_pace() {
    assert_eq!(step_wait(0), MIX_STEP_NS);
    assert_eq!(step_wait(5_000_000), 15_000_000);
    assert_eq!(step_wait(20_000_000), 0);
    assert_eq!(step_wait(u64::MAX), 0);
}

#[test]
fn frames_go_the_short_way_where_they_fit() {
    let mut cfg = config();
    assert!(matches!(frame_route(&cfg, 1920, 1080), FrameRoute::Direct));
    assert!(matches!(frame_route(&cfg, 2560, 1440), FrameRoute::Pixels(0, 0, 2560, 1440)));
    cfg.crop = Some((0, 0, 1920, 1080));
    assert!(matches!(frame_route(&cfg, 1920, 1080), FrameRoute::Pixels(0, 0, 1920, 1080)));
    cfg.crop = Some((5, 6, 100, 200));
    assert!(matches!(frame_route(&cfg, 1920, 1080), FrameRoute::Pixels(5, 6, 100, 200)));
}

#[test]
fn frames_are_turned_upside_down() {
    let src: Vec<u8> = (0..16).collect();
    let once = match pixel_work(&src, 2, 2, 2, 2) {
        PixelWork::Ready(v) => v,
        _ => panic!("same size"),
    };
    assert_eq!(once, vec![8, 9, 10, 11, 12, 13, 14, 15, 0, 1, 2, 3, 4, 5, 6, 7]);
    match pixel_work(&once, 2, 2, 2, 2) {
        PixelWork::Ready(v) => assert_eq!(v, src),
        _ => panic!("same size"),
    }
    assert!(matches!(pixel_work(&src, 2, 2, 1, 2), PixelWork::Scale));
    assert!(matches!(pixel_work(&src, 3, 2, 3, 2), PixelWork::Refused));
    assert!(matches!(pixel_work(&src, 2, 2, 0, 2), PixelWork::Refused));
    assert!(matches!(pixel_work(&src, 2, 2, 2, 0), PixelWork::Refused));
    assert!(matches!(
        pixel_work(&src, u32::MAX, u32::MAX, u32::MAX, u32::MAX),
        PixelWork::Refused
    ));
}

#[test]
fn samples_are_read_back_from_their_bytes() {
    let chunk = vec![0i16, 1, -1, 256, i16::MIN, i16::MAX, -300];
    let bytes = i16_to_le_bytes(&chunk);
    assert_eq!(bytes.len(), 14);
    let back: Vec<i16> =
        bytes.chunks(2).map(|b| i16::from_le_bytes([b[0], b[1]])).collect();
    assert_eq!(back, chunk);
}

#[test]
fn a_recording_counts() {
    let cfg = config();
    let mut n = NativeCount::new();
    assert_eq!((n.width, n.height, n.monotonic), (0, 0, true));
    n.on_frame(&cfg, 100);
    n.on_pushed();
    assert_eq!(n.on_audio(&vec![258]), vec![2, 1]);
    n.on_frame(&cfg, 200);
    let st = n.stats(NativeCodec::Hevc, 42);
    assert_eq!((st.frames, st.audio_bytes, st.elapsed_ms), (1, 2, 42));
    assert_eq!((st.width, st.height, st.encoder.as_str()), (1920, 1080, "HEVC"));
    assert!(st.monotonic);
    n.on_frame(&cfg, 199);
    assert!(!n.monotonic);
    let mut stop = NativeStop::new();
    assert!(!stop.asked);
    stop.stop();
    assert!(stop.asked);
}

#[test]
fn sound_is_recorded_where_it_has_channels() {
    let mut cfg = config();
    assert_eq!(audio_track(&cfg), None);
    cfg.audio_channels = 2;
    assert_eq!(audio_track(&cfg), Some((2, 48000)));
    assert_eq!(codec_name(NativeCodec::H264), "H264");
}

#[test]
fn faults_are_told() {
    let why = || "e".to_string();
    assert_eq!(NativeFault::Unsupported.message(), "Native recording requires Windows.");
    assert_eq!(NativeFault::Monitor(3, why()).message(), "Monitor 3 unavailable: e");
    assert_eq!(
        NativeFault::Encoder(NativeCodec::Hevc, why()).message(),
        "Encoder init failed (HEVC): e"
    );
    assert_eq!(NativeFault::Capture(why()).message(), "Capture session failed: e");
    assert_eq!(NativeFault::Thread(why()).message(), "Could not start capture thread: e");
    assert_eq!(NativeFault::Panicked.message(), "Native session thread panicked.");
    assert_eq!(NativeFault::Joined.message(), "Native session already joined.");
}
