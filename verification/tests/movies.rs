//! Reading MP4 files, and joining their segments.
use open_screen::mp4info::{
    children, container_fps, full_header, parse_trak, read_info, tag_str, Cursor,
};
use open_screen::mp4mux::{
    find_track, join_scales, moved_info, plan_merge, remux_route, segment_tracks, Head, Route,
    Segment, TrackDesc, TrackKind,
};

fn atom(tag: &[u8; 4], body: &[u8]) -> Vec<u8> {
    let mut out = ((body.len() + 8) as u32).to_be_bytes().to_vec();
    out.extend(tag);
    out.extend(body);
    out
}

fn words(values: &[u32]) -> Vec<u8> {
    values.iter().flat_map(|v| v.to_be_bytes()).collect()
}

fn tkhd(width: u32, height: u32) -> Vec<u8> {
    let mut body = vec![0; 4 + 20 + 16 + 36];
    body.extend(words(&[width << 16, height << 16]));
    atom(b"tkhd", &body)
}

fn hdlr(kind: &[u8; 4]) -> Vec<u8> {
    let mut body = vec![0; 8];
    body.extend(kind);
    body.extend([0; 12]);
    atom(b"hdlr", &body)
}

fn stbl(codec: &[u8; 4], samples: u32) -> Vec<u8> {
    let mut stsd = words(&[0, 1, 16]);
    stsd.extend(codec);
    stsd.extend([0; 8]);
    let mut body = atom(b"stsd", &stsd);
    body.extend(atom(b"stsz", &words(&[0, 0, samples])));
    atom(b"stbl", &body)
}

fn trak(
    kind: &[u8; 4],
    codec: &[u8; 4],
    size: (u32, u32),
    samples: u32,
    scale: u32,
    duration: u32,
) -> Vec<u8> {
    let mut mdia = atom(b"mdhd", &words(&[0, 0, 0, scale, duration, 0]));
    mdia.extend(hdlr(kind));
    mdia.extend(atom(b"minf", &stbl(codec, samples)));
    let mut body = tkhd(size.0, size.1);
    body.extend(atom(b"mdia", &mdia));
    atom(b"trak", &body)
}

fn movie(parts: &[Vec<u8>]) -> Vec<u8> {
    let mut moov = atom(b"mvhd", &words(&[0, 0, 0, 1000, 5000, 0]));
    for p in parts {
        moov.extend(p);
    }
    let mut file = atom(b"ftyp", b"isom\0\0\x02\0isomavc1");
    file.extend(atom(b"mdat", &[1, 2, 3]));
    file.extend(atom(b"moov", &moov));
    file
}

#[test]
fn a_movie_is_read() {
    let file = movie(&[
        trak(b"vide", b"avc1", (1920, 1080), 300, 15360, 76800),
        trak(b"soun", b"mp4a", (0, 0), 235, 48000, 240640),
    ]);
    let info = read_info(&file).expect("mp4");
    assert!(info.valid);
    assert_eq!((info.duration, info.timescale), (5000, 1000));
    let v = info.video.as_ref().expect("video");
    assert_eq!((v.kind.as_str(), v.codec.as_str()), ("video", "avc1"));
    assert_eq!((v.width, v.height, v.samples), (1920, 1080, 300));
    assert_eq!((v.duration, v.timescale), (76800, 15360));
    let a = info.audio.as_ref().expect("audio");
    assert_eq!((a.kind.as_str(), a.codec.as_str(), a.samples), ("audio", "mp4a", 235));
    let (num, den) = container_fps(&info);
    assert_eq!(num as f64 / den as f64, 60.0);
    let moved = moved_info(&info);
    assert_eq!((moved.video_samples, moved.audio_samples), (300, 235));
    assert_eq!((moved.duration, moved.timescale), (5000, 1000));
}

#[test]
fn a_short_movie_has_no_frame_rate() {
    let file = movie(&[trak(b"vide", b"hvc1", (2, 2), 3, 1000, 200)]);
    assert_eq!(container_fps(&read_info(&file).expect("mp4")), (0, 1));
    let file = movie(&[trak(b"vide", b"hvc1", (2, 2), 3, 1000, 201)]);
    assert_eq!(container_fps(&read_info(&file).expect("mp4")), (3000, 201));
    let file = movie(&[trak(b"vide", b"hvc1", (2, 2), 3, 0, 201)]);
    assert_eq!(container_fps(&read_info(&file).expect("mp4")), (0, 1));
}

#[test]
fn what_is_no_movie_is_refused() {
    assert_eq!(read_info(&[0; 31]).err().unwrap(), "File too small to be MP4.");
    assert_eq!(
        read_info(&[0; 64]).err().unwrap(),
        "No video track found — not a playable MP4."
    );
    let only_sound = movie(&[trak(b"soun", b"mp4a", (0, 0), 1, 48000, 1)]);
    assert_eq!(
        read_info(&only_sound).err().unwrap(),
        "No video track found — not a playable MP4."
    );
    let mut short = atom(b"ftyp", &[0; 24]);
    short.extend(atom(b"moov", &atom(b"mvhd", &[0; 8])));
    assert_eq!(read_info(&short).err().unwrap(), "Truncated mvhd.");
}

#[test]
fn boxes_are_read_back() {
    let mut file = atom(b"free", &[7]);
    file.extend(atom(b"abcd", b"xyz"));
    let all = children(&file);
    assert_eq!(all.len(), 2);
    assert_eq!((&all[0].tag, all[0].body), (b"free", &[7u8][..]));
    assert_eq!((&all[1].tag, all[1].body), (b"abcd", &b"xyz"[..]));
}

#[test]
fn long_and_open_boxes_are_read() {
    let mut long = words(&[1]);
    long.extend(b"mdat");
    long.extend(18u64.to_be_bytes());
    long.extend([5, 6]);
    let mut open = words(&[0]);
    open.extend(b"tail");
    open.extend([8, 9]);
    long.extend(open);
    let all = children(&long);
    assert_eq!(all.len(), 2);
    assert_eq!(all[0].body, &[5, 6]);
    assert_eq!(all[1].body, &[8, 9]);
    let mut cut = atom(b"good", &[1]);
    cut.extend(words(&[100]));
    cut.extend(b"cutt");
    assert_eq!(children(&cut).len(), 1);
}

#[test]
fn a_cursor_reads_big_endian_and_stops_at_the_end() {
    let data = [0, 0, 1, 2, 0, 0, 0, 0, 0, 0, 0, 3, b'a', b'b', b'c', b'd', 9];
    let mut c = Cursor { data: &data, pos: 0 };
    assert_eq!(c.u32(), Some(258));
    assert_eq!(c.u64(), Some(3));
    let tag = c.tag().expect("tag");
    assert_eq!(tag_str(&tag), "abcd");
    assert_eq!(c.rest(), 1);
    assert_eq!(c.u32(), None);
    assert_eq!(c.skip(2), None);
    assert_eq!(c.slice(1), Some(&[9u8][..]));
    assert_eq!(c.slice(1), None);
    let head = [1, 0, 0, 5];
    let mut c = Cursor { data: &head, pos: 0 };
    assert_eq!(full_header(&mut c), Some((1, 5)));
}

#[test]
fn a_track_without_a_kind_is_none() {
    assert!(parse_trak(&tkhd(2, 2)).is_none());
    let mut other = tkhd(2, 2);
    other.extend(atom(b"mdia", &hdlr(b"text")));
    assert_eq!(parse_trak(&other).expect("track").kind, "text");
}

// ---- joining ----

fn head(start: u64, dur: u32, sync: bool) -> Option<Head> {
    Some(Head { start, dur, sync })
}

/// `count` frames of 10 ticks each, every fifth a keyframe.
fn frames(count: u64) -> Vec<Option<Head>> {
    (0..count).map(|i| head(i * 10, 10, i % 5 == 0)).collect()
}

fn sounds(count: u64) -> Vec<Option<Head>> {
    (0..count).map(|i| head(i * 4, 4, true)).collect()
}

#[test]
fn segments_are_moved_or_joined() {
    assert_eq!(remux_route(0).err().unwrap(), "Nothing to merge.");
    assert!(matches!(remux_route(1), Ok(Route::Move)));
    assert!(matches!(remux_route(2), Ok(Route::Join)));
}

#[test]
fn joined_segments_keep_one_timeline() {
    let video = vec![frames(3), frames(2)];
    let audio = vec![sounds(8), sounds(5)];
    let plan = plan_merge(&video, &audio, 100, 100, None).expect("joins");
    assert_eq!(plan.video, vec![Some(0), Some(10), Some(20), Some(30), Some(40)]);
    assert_eq!(plan.audio[7..9], [Some(28), Some(32)]);
    assert_eq!((plan.info.video_samples, plan.info.audio_samples), (3 + 2, 8 + 5));
    assert_eq!((plan.info.duration, plan.info.timescale), (50, 100));
}

#[test]
fn a_joined_file_is_shortened_at_a_keyframe() {
    // Three segments of three seconds: ten frames a second, a keyframe every half.
    let video = vec![frames(30), frames(30), frames(30)];
    let audio = vec![sounds(75), sounds(75), sounds(75)];
    let full = plan_merge(&video, &audio, 100, 100, None).expect("joins");
    assert_eq!(full.info.duration, 900);
    let plan = plan_merge(&video, &audio, 100, 100, Some(200)).expect("joins");
    assert_eq!((plan.info.duration, plan.info.video_samples), (200, 20));
    assert_eq!(plan.video[69..71], [None, Some(0)]);
    assert_eq!(plan.audio[174..176], [None, Some(0)]);
    assert_eq!(plan.info.audio_samples, 50);
    let plan = plan_merge(&video, &audio, 100, 100, Some(150)).expect("joins");
    assert_eq!((plan.info.duration, plan.info.video_samples), (150, 15));
    let odd: Vec<Option<Head>> = (0..30).map(|i| head(i * 10, 10, i % 7 == 0)).collect();
    let plan = plan_merge(&vec![odd], &vec![Vec::new()], 100, 0, Some(100)).expect("joins");
    assert_eq!((plan.info.video_samples, plan.info.duration), (16, 160));
}

#[test]
fn a_limit_beyond_the_length_keeps_all() {
    let plan = plan_merge(&vec![frames(5), frames(5)], &vec![sounds(3), sounds(3)], 100, 100, Some(6000))
        .expect("joins");
    assert_eq!((plan.info.video_samples, plan.info.audio_samples), (10, 6));
    let plan =
        plan_merge(&vec![frames(50)], &vec![Vec::new()], 100, 100, Some(0)).expect("joins");
    assert_eq!(plan.info.duration, 100);
}

#[test]
fn missing_samples_are_not_counted() {
    let video = vec![vec![head(0, 10, true), None, head(20, 10, false)]];
    let plan = plan_merge(&video, &vec![Vec::new()], 100, 0, None).expect("joins");
    assert_eq!(plan.video, vec![Some(0), None, Some(20)]);
    assert_eq!(plan.info.video_samples, 2);
}

#[test]
fn tracks_are_found_by_kind() {
    let track = |id, kind| TrackDesc { id, kind, timescale: 1, sps: Vec::new() };
    let tracks =
        vec![track(3, TrackKind::Other), track(4, TrackKind::Audio), track(5, TrackKind::Video)];
    let s = segment_tracks(&tracks, "p").expect("video");
    assert_eq!((s.video, s.audio), (2, Some(1)));
    assert_eq!(find_track(&tracks, TrackKind::Other), Some(0));
    let none = vec![track(4, TrackKind::Audio)];
    assert_eq!(
        segment_tracks(&none, "a.mp4").err().unwrap(),
        "Segment has no video track: a.mp4"
    );
}

#[test]
fn unlike_segments_are_not_joined() {
    let seg = |timescale, sps: &[u8], audio| Segment {
        timescale,
        sps: sps.to_vec(),
        audio_timescale: audio,
    };
    let ok = vec![seg(90, &[1], None), seg(90, &[1], Some(48))];
    assert_eq!(join_scales(&ok).expect("alike"), (90, 48));
    assert_eq!(join_scales(&vec![seg(90, &[1], None)]).expect("one"), (90, 0));
    let scale = vec![seg(90, &[1], None), seg(91, &[1], None)];
    assert!(join_scales(&scale).err().unwrap().starts_with("Segment timescale mismatch"));
    let codec = vec![seg(90, &[1], None), seg(90, &[2], None)];
    assert!(join_scales(&codec).err().unwrap().starts_with("Segment codec config changed"));
}
