//! The command lines of the encoder program.
use vstd::prelude::*;

use crate::recorder::params::{has_mic, has_system, Params};
use crate::text::{
    decimal, decimal_text, join2, join3, law_replaced, replace_char, replaced, same, signed,
    signed_text, texts,
};

verus! {

/// A command line, and which sounds it records.
pub struct BuiltCmd {
    pub args: Vec<String>,
    pub has_sys: bool,
    pub has_mic: bool,
}

/// Whether the microphone is recorded.
pub open spec fn takes_mic(p: Params) -> bool {
    has_mic(p.audio@) && p.mic is Some
}

/// Whether what is played is recorded.
pub open spec fn takes_sys(p: Params) -> bool {
    has_system(p.audio@) && p.sys is Some
}

/// Whether the picture is scaled.
pub open spec fn scales(p: Params) -> bool {
    p.out_w != p.area.w || p.out_h != p.area.h
}

/// The general arguments, and those of the screen as a source.
pub open spec fn video_input(p: Params) -> Seq<Seq<char>> {
    seq![
        "-y"@,
        "-hide_banner"@,
        "-loglevel"@,
        "warning"@,
        "-f"@,
        "gdigrab"@,
        "-framerate"@,
        decimal(p.fps as nat),
        "-draw_mouse"@,
        if p.cursor {
            "1"@
        } else {
            "0"@
        },
    ] + if p.desktop {
        seq![]
    } else {
        seq![
            "-offset_x"@,
            signed(p.area.x as int),
            "-offset_y"@,
            signed(p.area.y as int),
            "-video_size"@,
            decimal(p.area.w as nat) + "x"@ + decimal(p.area.h as nat),
        ]
    } + seq!["-i"@, "desktop"@]
}

/// The arguments of one audio device as a source.
pub open spec fn audio_input(device: Seq<char>) -> Seq<Seq<char>> {
    seq!["-rtbufsize"@, "50M"@, "-f"@, "dshow"@, "-i"@, "audio=\""@ + device + "\""@]
}

/// The arguments of the audio sources: the microphone before what is played.
pub open spec fn audio_inputs(p: Params) -> Seq<Seq<char>> {
    (if takes_mic(p) {
        audio_input(p.mic->0@)
    } else {
        seq![]
    }) + if takes_sys(p) {
        audio_input(p.sys->0@)
    } else {
        seq![]
    }
}

/// The filter that scales the picture.
pub open spec fn scale_filter(p: Params) -> Seq<char> {
    "scale="@ + decimal(p.out_w as nat) + ":"@ + decimal(p.out_h as nat)
}

/// The filter that measures the source with this number.
pub open spec fn meter(idx: nat, tag: Seq<char>) -> Seq<char> {
    "["@ + decimal(idx) + ":a]ebur128=peak=true["@ + tag + "];"@
}

/// The filters, each with a semicolon behind it.
pub open spec fn filters(p: Params) -> Seq<char> {
    (if scales(p) {
        "[0:v]"@ + scale_filter(p) + "[vout];"@
    } else {
        seq![]
    }) + (if takes_mic(p) {
        meter(1, "mic"@)
    } else {
        seq![]
    }) + (if takes_sys(p) {
        meter(
            if takes_mic(p) {
                2
            } else {
                1
            },
            "sys"@,
        )
    } else {
        seq![]
    }) + if takes_mic(p) && takes_sys(p) {
        "[sys][mic]amix=inputs=2:duration=longest:dropout_transition=0[aout];"@
    } else {
        seq![]
    }
}

/// The name of the sound that is encoded.
pub open spec fn sound_label(p: Params) -> Seq<char> {
    if takes_mic(p) && takes_sys(p) {
        "[aout]"@
    } else if takes_mic(p) {
        "[mic]"@
    } else {
        "[sys]"@
    }
}

/// The arguments of the filters and of the audio encoder.
pub open spec fn filter_args(p: Params) -> Seq<Seq<char>> {
    if !takes_mic(p) && !takes_sys(p) {
        (if scales(p) {
            seq!["-vf"@, scale_filter(p)]
        } else {
            seq![]
        }) + seq!["-an"@]
    } else {
        seq![
            "-filter_complex"@,
            filters(p).drop_last(),
            "-map"@,
            if scales(p) {
                "[vout]"@
            } else {
                "0:v"@
            },
            "-map"@,
            sound_label(p),
            "-ar"@,
            decimal(p.sample_rate as nat),
            "-ac"@,
            decimal(p.channels as nat),
            "-c:a"@,
            "aac"@,
            "-b:a"@,
            "128k"@,
        ]
    }
}

/// Whether an encoder is one that runs on the processor.
pub open spec fn is_software(encoder: Seq<char>) -> bool {
    encoder == "libx264"@ || encoder == "libx265"@
}

/// The arguments of the video encoder, and of the progress reports.
pub open spec fn encode_args(p: Params) -> Seq<Seq<char>> {
    seq![
        "-c:v"@,
        p.encoder@,
        "-b:v"@,
        decimal(p.bitrate_k as nat) + "k"@,
        "-pix_fmt"@,
        "yuv420p"@,
    ] + (if is_software(p.encoder@) {
        seq!["-preset"@, "veryfast"@]
    } else {
        seq![]
    }) + seq!["-r"@, decimal(p.fps as nat), "-progress"@, "pipe:1"@, "-nostats"@]
}

/// The arguments of the output: one file, or segments of some seconds each.
pub open spec fn output_args(out: Seq<char>, segment_time: Option<u64>) -> Seq<Seq<char>> {
    match segment_time {
        Some(t) => seq![
            "-f"@,
            "segment"@,
            "-segment_time"@,
            decimal(t as nat),
            "-segment_format"@,
            "mp4"@,
            out,
        ],
        None => seq!["-movflags"@, "+faststart"@, out],
    }
}

/// The whole command line.
pub open spec fn command_line(p: Params, out: Seq<char>, segment_time: Option<u64>) -> Seq<
    Seq<char>,
> {
    video_input(p) + audio_inputs(p) + filter_args(p) + encode_args(p) + output_args(
        out,
        segment_time,
    )
}

fn put(a: &mut Vec<String>, s: &str)
    ensures
        texts(final(a)@) == texts(old(a)@).push(s@),
{
    let ghost before = texts(a@);
    a.push(s.to_string());
    assert(texts(a@) =~= before.push(s@));
}

fn put_string(a: &mut Vec<String>, s: String)
    ensures
        texts(final(a)@) == texts(old(a)@).push(s@),
{
    let ghost before = texts(a@);
    let ghost t = s@;
    a.push(s);
    assert(texts(a@) =~= before.push(t));
}

fn add_video_input(a: &mut Vec<String>, p: &Params)
    ensures
        texts(final(a)@) == texts(old(a)@) + video_input(*p),
{
    put(a, "-y");
    put(a, "-hide_banner");
    put(a, "-loglevel");
    put(a, "warning");
    put(a, "-f");
    put(a, "gdigrab");
    put(a, "-framerate");
    put_string(a, decimal_text(p.fps as u64));
    put(a, "-draw_mouse");
    if p.cursor {
        put(a, "1");
    } else {
        put(a, "0");
    }
    if !p.desktop {
        put(a, "-offset_x");
        put_string(a, signed_text(p.area.x));
        put(a, "-offset_y");
        put_string(a, signed_text(p.area.y));
        put(a, "-video_size");
        let w = decimal_text(p.area.w as u64);
        let h = decimal_text(p.area.h as u64);
        put_string(a, join3(w.as_str(), "x", h.as_str()));
    }
    put(a, "-i");
    put(a, "desktop");
    assert(texts(a@) =~= texts(old(a)@) + video_input(*p));
}

fn add_audio_input(a: &mut Vec<String>, device: &str)
    ensures
        texts(final(a)@) == texts(old(a)@) + audio_input(device@),
{
    put(a, "-rtbufsize");
    put(a, "50M");
    put(a, "-f");
    put(a, "dshow");
    put(a, "-i");
    put_string(a, join3("audio=\"", device, "\""));
    assert(texts(a@) =~= texts(old(a)@) + audio_input(device@));
}

fn scale_text(p: &Params) -> (r: String)
    ensures
        r@ == scale_filter(*p),
{
    let w = decimal_text(p.out_w as u64);
    let h = decimal_text(p.out_h as u64);
    let mut s = join3("scale=", w.as_str(), ":");
    s.append(h.as_str());
    s
}

fn meter_text(idx: u64, tag: &str) -> (r: String)
    ensures
        r@ == meter(idx as nat, tag@),
{
    let n = decimal_text(idx);
    let mut s = join3("[", n.as_str(), ":a]ebur128=peak=true[");
    s.append(tag);
    s.append("];");
    s
}

fn filter_text(p: &Params, mic: bool, sys: bool) -> (r: String)
    requires
        mic == takes_mic(*p),
        sys == takes_sys(*p),
        mic || sys,
    ensures
        r@ == filters(*p).drop_last(),
{
    let mut g = String::new();
    if p.out_w != p.area.w || p.out_h != p.area.h {
        let s = scale_text(p);
        let part = join3("[0:v]", s.as_str(), "[vout];");
        g.append(part.as_str());
    }
    if mic {
        let part = meter_text(1, "mic");
        g.append(part.as_str());
    }
    if sys {
        let part = meter_text(
            if mic {
                2
            } else {
                1
            },
            "sys",
        );
        g.append(part.as_str());
    }
    if mic && sys {
        g.append("[sys][mic]amix=inputs=2:duration=longest:dropout_transition=0[aout];");
    }
    assert(g@ =~= filters(*p));
    proof {
        reveal_strlit("];");
        reveal_strlit("[sys][mic]amix=inputs=2:duration=longest:dropout_transition=0[aout];");
        assert("];"@.len() == 2);
        assert("[sys][mic]amix=inputs=2:duration=longest:dropout_transition=0[aout];"@.len() > 0);
        assert(filters(*p).len() > 0);
    }
    let n: usize = g.as_str().unicode_len();
    let r = g.as_str().substring_char(0, n - 1).to_string();
    assert(filters(*p).subrange(0, n - 1) =~= filters(*p).drop_last());
    r
}

fn add_filters(a: &mut Vec<String>, p: &Params, mic: bool, sys: bool)
    requires
        mic == takes_mic(*p),
        sys == takes_sys(*p),
    ensures
        texts(final(a)@) == texts(old(a)@) + filter_args(*p),
{
    let scale: bool = p.out_w != p.area.w || p.out_h != p.area.h;
    if !mic && !sys {
        if scale {
            put(a, "-vf");
            put_string(a, scale_text(p));
        }
        put(a, "-an");
    } else {
        put(a, "-filter_complex");
        put_string(a, filter_text(p, mic, sys));
        put(a, "-map");
        if scale {
            put(a, "[vout]");
        } else {
            put(a, "0:v");
        }
        put(a, "-map");
        if mic && sys {
            put(a, "[aout]");
        } else if mic {
            put(a, "[mic]");
        } else {
            put(a, "[sys]");
        }
        put(a, "-ar");
        put_string(a, decimal_text(p.sample_rate as u64));
        put(a, "-ac");
        put_string(a, decimal_text(p.channels as u64));
        put(a, "-c:a");
        put(a, "aac");
        put(a, "-b:a");
        put(a, "128k");
    }
    assert(texts(a@) =~= texts(old(a)@) + filter_args(*p));
}

fn add_encoder(a: &mut Vec<String>, p: &Params)
    ensures
        texts(final(a)@) == texts(old(a)@) + encode_args(*p),
{
    put(a, "-c:v");
    put(a, p.encoder.as_str());
    put(a, "-b:v");
    let rate = decimal_text(p.bitrate_k as u64);
    put_string(a, join2(rate.as_str(), "k"));
    put(a, "-pix_fmt");
    put(a, "yuv420p");
    if same(p.encoder.as_str(), "libx264") || same(p.encoder.as_str(), "libx265") {
        put(a, "-preset");
        put(a, "veryfast");
    }
    put(a, "-r");
    put_string(a, decimal_text(p.fps as u64));
    put(a, "-progress");
    put(a, "pipe:1");
    put(a, "-nostats");
    assert(texts(a@) =~= texts(old(a)@) + encode_args(*p));
}

fn add_output(a: &mut Vec<String>, out: &str, segment_time: Option<u64>)
    ensures
        texts(final(a)@) == texts(old(a)@) + output_args(out@, segment_time),
{
    match segment_time {
        Some(t) => {
            put(a, "-f");
            put(a, "segment");
            put(a, "-segment_time");
            put_string(a, decimal_text(t));
            put(a, "-segment_format");
            put(a, "mp4");
            put(a, out);
        },
        None => {
            put(a, "-movflags");
            put(a, "+faststart");
            put(a, out);
        },
    }
    assert(texts(a@) =~= texts(old(a)@) + output_args(out@, segment_time));
}

/// Builds the command line that records to `out`.
pub fn build_cmd(p: &Params, out: &str, segment_time: Option<u64>) -> (r: BuiltCmd)
    ensures
        texts(r.args@) == command_line(*p, out@, segment_time),
        r.has_mic == takes_mic(*p),
        r.has_sys == takes_sys(*p),
        r.has_mic == (p.mic is Some && (p.audio@ == "mic"@ || p.audio@ == "both"@)),
        r.has_sys == (p.sys is Some && (p.audio@ == "system"@ || p.audio@ == "both"@)),
        records_area(texts(r.args@), *p),
        records_sound(texts(r.args@), *p, r.has_mic, r.has_sys),
        encodes_to(texts(r.args@), *p, out@, segment_time),
        texts(r.args@).len() == arg_count(*p, r.has_mic, r.has_sys, segment_time),
{
    proof {
        law_command_line(*p, out@, segment_time);
    }
    let mut a: Vec<String> = Vec::new();
    add_video_input(&mut a, p);
    let audio = p.audio.as_str();
    let both: bool = same(audio, "both");
    let mut mic: bool = false;
    let mut sys: bool = false;
    if both || same(audio, "mic") {
        if let Some(d) = &p.mic {
            add_audio_input(&mut a, d.as_str());
            mic = true;
        }
    }
    if both || same(audio, "system") {
        if let Some(d) = &p.sys {
            add_audio_input(&mut a, d.as_str());
            sys = true;
        }
    }
    assert(texts(a@) =~= video_input(*p) + audio_inputs(*p));
    add_filters(&mut a, p, mic, sys);
    add_encoder(&mut a, p);
    add_output(&mut a, out, segment_time);
    assert(texts(a@) =~= command_line(*p, out@, segment_time));
    BuiltCmd { args: a, has_sys: sys, has_mic: mic }
}

// ---- joining files with the encoder program ----

/// What to do with a number of recorded files.
#[derive(PartialEq, Eq, Structural, Clone, Copy)]
pub enum ConcatRoute {
    /// One file is moved to its place.
    Move,
    /// Several are joined by the encoder program.
    Join,
}

/// How to make one file of `count` recorded files.
pub fn concat_route(count: usize) -> (r: Result<ConcatRoute, String>)
    ensures
        match r {
            Err(e) => count == 0 && e@ == "Nothing was recorded."@,
            Ok(ConcatRoute::Move) => count == 1,
            Ok(ConcatRoute::Join) => count >= 2,
        },
{
    if count == 0 {
        return Err("Nothing was recorded.".to_string());
    }
    if count == 1 {
        Ok(ConcatRoute::Move)
    } else {
        Ok(ConcatRoute::Join)
    }
}

/// A line of the list of files: the name in single quotes, a quote in it closed,
/// escaped and opened again.
pub open spec fn list_line(file: Seq<char>) -> Seq<char> {
    "file '"@ + replaced(file, '\'', "'\\''"@) + "'\n"@
}

/// The list of the first `n` files.
pub open spec fn list_text(files: Seq<String>, n: int) -> Seq<char>
    decreases n,
{
    if n <= 0 {
        seq![]
    } else {
        list_text(files, n - 1) + list_line(files[n - 1]@)
    }
}

/// The list of the files to join.
pub fn concat_list(files: &Vec<String>) -> (r: String)
    ensures
        r@ == list_text(files@, files@.len() as int),
{
    let mut list = String::new();
    let mut i: usize = 0;
    while i < files.len()
        invariant
            i <= files.len(),
            list@ == list_text(files@, i as int),
        decreases files.len() - i,
    {
        let name = replace_char(files[i].as_str(), '\'', "'\\''");
        let line = join3("file '", name.as_str(), "'\n");
        list.append(line.as_str());
        i = i + 1;
    }
    list
}

/// The command line that joins the files of a list.
pub fn concat_args(list_path: &str, out: &str) -> (r: Vec<String>)
    ensures
        texts(r@) == seq![
            "-y"@,
            "-hide_banner"@,
            "-loglevel"@,
            "error"@,
            "-f"@,
            "concat"@,
            "-safe"@,
            "0"@,
            "-i"@,
            list_path@,
            "-c"@,
            "copy"@,
            "-movflags"@,
            "+faststart"@,
            out@,
        ],
{
    let mut a: Vec<String> = Vec::new();
    put(&mut a, "-y");
    put(&mut a, "-hide_banner");
    put(&mut a, "-loglevel");
    put(&mut a, "error");
    put(&mut a, "-f");
    put(&mut a, "concat");
    put(&mut a, "-safe");
    put(&mut a, "0");
    put(&mut a, "-i");
    put(&mut a, list_path);
    put(&mut a, "-c");
    put(&mut a, "copy");
    put(&mut a, "-movflags");
    put(&mut a, "+faststart");
    put(&mut a, out);
    a
}

/// What became of joining the files.
pub fn concat_done(success: bool) -> (r: Result<(), String>)
    ensures
        success ==> r is Ok,
        !success ==> (r matches Err(e) && e@ == "Could not finalize the recording file."@),
{
    if success {
        Ok(())
    } else {
        Err("Could not finalize the recording file.".to_string())
    }
}

// ---- laws ----

/// Where the arguments of the screen end: six more stand there where an area is recorded.
pub open spec fn screen_end(desktop: bool) -> int {
    if desktop {
        12
    } else {
        18
    }
}

/// Where the arguments of the audio sources end: six for each.
pub open spec fn sources_end(desktop: bool, mic: bool, sys: bool) -> int {
    screen_end(desktop) + (if mic {
        6int
    } else {
        0
    }) + (if sys {
        6int
    } else {
        0
    })
}

/// How many arguments there are.
pub open spec fn arg_count(p: Params, mic: bool, sys: bool, segment_time: Option<u64>) -> int {
    sources_end(p.desktop, mic, sys) + (if mic || sys {
        14int
    } else if p.out_w != p.area.w || p.out_h != p.area.h {
        3
    } else {
        1
    }) + (if p.encoder@ == "libx264"@ || p.encoder@ == "libx265"@ {
        13int
    } else {
        11
    }) + (if segment_time is Some {
        7int
    } else {
        3
    })
}

/// Whether arguments ask to record the area of `p` at its frame rate, with or without the
/// mouse: the column behind `-offset_x`, the row behind `-offset_y` and the size behind
/// `-video_size`; none of these where the whole screen is recorded.
pub open spec fn records_area(a: Seq<Seq<char>>, p: Params) -> bool {
    &&& a.len() > 18
    &&& a[0] == "-y"@ && a[1] == "-hide_banner"@ && a[2] == "-loglevel"@ && a[3] == "warning"@
    &&& a[4] == "-f"@ && a[5] == "gdigrab"@
    &&& a[6] == "-framerate"@ && a[7] == decimal(p.fps as nat)
    &&& a[8] == "-draw_mouse"@ && a[9] == (if p.cursor {
        "1"@
    } else {
        "0"@
    })
    &&& !p.desktop ==> a[10] == "-offset_x"@ && a[11] == signed(p.area.x as int)
    &&& !p.desktop ==> a[12] == "-offset_y"@ && a[13] == signed(p.area.y as int)
    &&& !p.desktop ==> a[14] == "-video_size"@ && a[15] == decimal(p.area.w as nat) + "x"@ + decimal(
        p.area.h as nat,
    )
    &&& a[screen_end(p.desktop) - 2] == "-i"@ && a[screen_end(p.desktop) - 1] == "desktop"@
}

/// Whether arguments from `at` on take the sound of a device.
pub open spec fn takes_device(a: Seq<Seq<char>>, at: int, device: Seq<char>) -> bool {
    &&& a[at] == "-rtbufsize"@ && a[at + 1] == "50M"@
    &&& a[at + 2] == "-f"@ && a[at + 3] == "dshow"@
    &&& a[at + 4] == "-i"@ && a[at + 5] == "audio=\""@ + device + "\""@
}

/// The filters: the picture is scaled where its size is not that of the area, each sound has
/// a meter, and two sounds are mixed.
pub open spec fn graph(p: Params, mic: bool, sys: bool) -> Seq<char> {
    (if p.out_w != p.area.w || p.out_h != p.area.h {
        "[0:v]scale="@ + decimal(p.out_w as nat) + ":"@ + decimal(p.out_h as nat) + "[vout];"@
    } else {
        seq![]
    }) + if mic && sys {
        "[1:a]ebur128=peak=true[mic];"@ + "[2:a]ebur128=peak=true[sys];"@
            + "[sys][mic]amix=inputs=2:duration=longest:dropout_transition=0[aout]"@
    } else if mic {
        "[1:a]ebur128=peak=true[mic]"@
    } else {
        "[1:a]ebur128=peak=true[sys]"@
    }
}

/// Whether arguments take the sounds that are recorded, mix and encode them; without any
/// they say so, and scale the picture where it must be.
pub open spec fn records_sound(a: Seq<Seq<char>>, p: Params, mic: bool, sys: bool) -> bool {
    let at = screen_end(p.desktop);
    let f = sources_end(p.desktop, mic, sys);
    let scaled = p.out_w != p.area.w || p.out_h != p.area.h;
    &&& mic ==> takes_device(a, at, p.mic->0@)
    &&& sys ==> takes_device(
        a,
        if mic {
            at + 6
        } else {
            at
        },
        p.sys->0@,
    )
    &&& !mic && !sys && !scaled ==> a[f] == "-an"@
    &&& !mic && !sys && scaled ==> a[f] == "-vf"@ && a[f + 1] == "scale="@ + decimal(
        p.out_w as nat,
    ) + ":"@ + decimal(p.out_h as nat) && a[f + 2] == "-an"@
    &&& mic || sys ==> {
        &&& a[f] == "-filter_complex"@ && a[f + 1] == graph(p, mic, sys)
        &&& a[f + 2] == "-map"@ && a[f + 3] == if scaled {
            "[vout]"@
        } else {
            "0:v"@
        }
        &&& a[f + 4] == "-map"@ && a[f + 5] == if mic && sys {
            "[aout]"@
        } else if mic {
            "[mic]"@
        } else {
            "[sys]"@
        }
        &&& a[f + 6] == "-ar"@ && a[f + 7] == decimal(p.sample_rate as nat)
        &&& a[f + 8] == "-ac"@ && a[f + 9] == decimal(p.channels as nat)
        &&& a[f + 10] == "-c:a"@ && a[f + 11] == "aac"@
        &&& a[f + 12] == "-b:a"@ && a[f + 13] == "128k"@
    }
}

/// Whether arguments, counted from their end, encode with the encoder, the bit rate and the
/// frame rate of `p`, and write to `out`, in segments of some seconds where that is asked.
pub open spec fn encodes_to(
    a: Seq<Seq<char>>,
    p: Params,
    out: Seq<char>,
    segment_time: Option<u64>,
) -> bool {
    let n = a.len() as int;
    let e = n - if segment_time is Some {
        7int
    } else {
        3
    };
    let v = e - if p.encoder@ == "libx264"@ || p.encoder@ == "libx265"@ {
        13int
    } else {
        11
    };
    &&& v > 0 && a[n - 1] == out
    &&& segment_time is None ==> a[n - 3] == "-movflags"@ && a[n - 2] == "+faststart"@
    &&& segment_time matches Some(t) ==> {
        &&& a[n - 7] == "-f"@ && a[n - 6] == "segment"@
        &&& a[n - 5] == "-segment_time"@ && a[n - 4] == decimal(t as nat)
        &&& a[n - 3] == "-segment_format"@ && a[n - 2] == "mp4"@
    }
    &&& a[e - 5] == "-r"@ && a[e - 4] == decimal(p.fps as nat)
    &&& a[e - 3] == "-progress"@ && a[e - 2] == "pipe:1"@ && a[e - 1] == "-nostats"@
    &&& a[v] == "-c:v"@ && a[v + 1] == p.encoder@
    &&& a[v + 2] == "-b:v"@ && a[v + 3] == decimal(p.bitrate_k as nat) + "k"@
    &&& a[v + 4] == "-pix_fmt"@ && a[v + 5] == "yuv420p"@
    &&& p.encoder@ == "libx264"@ || p.encoder@ == "libx265"@ ==> a[v + 6] == "-preset"@ && a[v + 7]
        == "veryfast"@
}

proof fn lemma_graph(p: Params)
    requires
        takes_mic(p) || takes_sys(p),
    ensures
        filters(p).drop_last() == graph(p, takes_mic(p), takes_sys(p)),
{
    reveal_strlit("[0:v]");
    reveal_strlit("scale=");
    reveal_strlit("[0:v]scale=");
    reveal_strlit("[vout];");
    reveal_strlit("[");
    reveal_strlit("];");
    reveal_strlit(":a]ebur128=peak=true[");
    reveal_strlit("mic");
    reveal_strlit("sys");
    reveal_strlit("[1:a]ebur128=peak=true[mic];");
    reveal_strlit("[2:a]ebur128=peak=true[sys];");
    reveal_strlit("[1:a]ebur128=peak=true[mic]");
    reveal_strlit("[1:a]ebur128=peak=true[sys]");
    reveal_strlit("[sys][mic]amix=inputs=2:duration=longest:dropout_transition=0[aout];");
    reveal_strlit("[sys][mic]amix=inputs=2:duration=longest:dropout_transition=0[aout]");
    assert(decimal(1) =~= seq!['1']);
    assert(decimal(2) =~= seq!['2']);
    assert("[0:v]"@ + "scale="@ =~= "[0:v]scale="@);
    let mix = "[sys][mic]amix=inputs=2:duration=longest:dropout_transition=0[aout];"@;
    assert(mix.drop_last()
        =~= "[sys][mic]amix=inputs=2:duration=longest:dropout_transition=0[aout]"@);
    assert(meter(1, "mic"@) =~= "[1:a]ebur128=peak=true[mic];"@);
    assert(meter(2, "sys"@) =~= "[2:a]ebur128=peak=true[sys];"@);
    assert(meter(1, "mic"@).drop_last() =~= "[1:a]ebur128=peak=true[mic]"@);
    assert(meter(1, "sys"@).drop_last() =~= "[1:a]ebur128=peak=true[sys]"@);
    let front = if scales(p) {
        "[0:v]"@ + scale_filter(p) + "[vout];"@
    } else {
        seq![]
    };
    if scales(p) {
        assert(front =~= "[0:v]scale="@ + decimal(p.out_w as nat) + ":"@ + decimal(p.out_h as nat)
            + "[vout];"@);
    }
    assert(filters(p).drop_last() =~= graph(p, takes_mic(p), takes_sys(p)));
}

/// The command line says, each behind its own option, what is recorded: the area of the
/// screen, the devices, the encoder with its rates, and the file.
pub proof fn law_command_line(p: Params, out: Seq<char>, segment_time: Option<u64>)
    ensures
        ({
            let a = command_line(p, out, segment_time);
            let mic = p.mic is Some && (p.audio@ == "mic"@ || p.audio@ == "both"@);
            let sys = p.sys is Some && (p.audio@ == "system"@ || p.audio@ == "both"@);
            &&& a.len() == arg_count(p, mic, sys, segment_time)
            &&& records_area(a, p)
            &&& records_sound(a, p, mic, sys)
            &&& encodes_to(a, p, out, segment_time)
        }),
{
    lemma_area_args(p, out, segment_time);
    lemma_sound_args(p, out, segment_time);
    lemma_encode_args(p, out, segment_time);
}

/// Where the elements of five lists stand when they are joined.
proof fn lemma_joined(
    v: Seq<Seq<char>>,
    s: Seq<Seq<char>>,
    f: Seq<Seq<char>>,
    e: Seq<Seq<char>>,
    o: Seq<Seq<char>>,
)
    ensures
        ({
            let a = v + s + f + e + o;
            let n = a.len() as int;
            &&& n == v.len() + s.len() + f.len() + e.len() + o.len()
            &&& forall|i: int| 0 <= i < v.len() ==> a[i] == #[trigger] v[i]
            &&& forall|i: int| 0 <= i < s.len() ==> a[v.len() + i] == #[trigger] s[i]
            &&& forall|i: int| 0 <= i < f.len() ==> a[v.len() + s.len() + i] == #[trigger] f[i]
            &&& forall|i: int|
                0 <= i < e.len() ==> a[n - o.len() - e.len() + i] == #[trigger] e[i]
            &&& forall|i: int| 0 <= i < o.len() ==> a[n - o.len() + i] == #[trigger] o[i]
        }),
{
}

proof fn lemma_lengths(p: Params, out: Seq<char>, segment_time: Option<u64>)
    ensures
        video_input(p).len() == screen_end(p.desktop),
        audio_inputs(p).len() == sources_end(p.desktop, takes_mic(p), takes_sys(p)) - screen_end(
            p.desktop,
        ),
        filter_args(p).len() == if takes_mic(p) || takes_sys(p) {
            14int
        } else if scales(p) {
            3
        } else {
            1
        },
        encode_args(p).len() == if is_software(p.encoder@) {
            13int
        } else {
            11
        },
        output_args(out, segment_time).len() == if segment_time is Some {
            7int
        } else {
            3
        },
{
}

proof fn lemma_area_args(p: Params, out: Seq<char>, segment_time: Option<u64>)
    ensures
        command_line(p, out, segment_time).len() == arg_count(
            p,
            takes_mic(p),
            takes_sys(p),
            segment_time,
        ),
        records_area(command_line(p, out, segment_time), p),
{
    let v = video_input(p);
    lemma_lengths(p, out, segment_time);
    lemma_joined(
        v,
        audio_inputs(p),
        filter_args(p),
        encode_args(p),
        output_args(out, segment_time),
    );
    let a = command_line(p, out, segment_time);
    assert(a[0] == v[0] && a[1] == v[1] && a[2] == v[2] && a[3] == v[3] && a[4] == v[4]);
    assert(a[5] == v[5] && a[6] == v[6] && a[7] == v[7] && a[8] == v[8] && a[9] == v[9]);
    assert(a[10] == v[10] && a[11] == v[11]);
    if !p.desktop {
        assert(a[12] == v[12] && a[13] == v[13] && a[14] == v[14] && a[15] == v[15]);
        assert(a[16] == v[16] && a[17] == v[17]);
    }
}

proof fn lemma_sound_args(p: Params, out: Seq<char>, segment_time: Option<u64>)
    ensures
        records_sound(command_line(p, out, segment_time), p, takes_mic(p), takes_sys(p)),
{
    let s = audio_inputs(p);
    let f = filter_args(p);
    lemma_lengths(p, out, segment_time);
    lemma_joined(video_input(p), s, f, encode_args(p), output_args(out, segment_time));
    let a = command_line(p, out, segment_time);
    let at = screen_end(p.desktop);
    let g = sources_end(p.desktop, takes_mic(p), takes_sys(p));
    if takes_mic(p) || takes_sys(p) {
        lemma_graph(p);
        assert(a[at] == s[0] && a[at + 1] == s[1] && a[at + 2] == s[2] && a[at + 3] == s[3]);
        assert(a[at + 4] == s[4] && a[at + 5] == s[5]);
        if takes_mic(p) && takes_sys(p) {
            assert(a[at + 6] == s[6] && a[at + 7] == s[7] && a[at + 8] == s[8]);
            assert(a[at + 9] == s[9] && a[at + 10] == s[10] && a[at + 11] == s[11]);
        }
        assert(a[g] == f[0] && a[g + 1] == f[1] && a[g + 2] == f[2] && a[g + 3] == f[3]);
        assert(a[g + 4] == f[4] && a[g + 5] == f[5] && a[g + 6] == f[6] && a[g + 7] == f[7]);
        assert(a[g + 8] == f[8] && a[g + 9] == f[9] && a[g + 10] == f[10] && a[g + 11] == f[11]);
        assert(a[g + 12] == f[12] && a[g + 13] == f[13]);
    } else {
        assert(a[g] == f[0]);
        if scales(p) {
            assert(a[g + 1] == f[1] && a[g + 2] == f[2]);
        }
    }
}

proof fn lemma_encode_args(p: Params, out: Seq<char>, segment_time: Option<u64>)
    ensures
        encodes_to(command_line(p, out, segment_time), p, out, segment_time),
{
    let e = encode_args(p);
    let o = output_args(out, segment_time);
    lemma_lengths(p, out, segment_time);
    lemma_joined(video_input(p), audio_inputs(p), filter_args(p), e, o);
    let a = command_line(p, out, segment_time);
    let n = a.len() as int;
    assert(a[n - o.len()] == o[0] && a[n - o.len() + 1] == o[1] && a[n - o.len() + 2] == o[2]);
    if segment_time is Some {
        assert(a[n - 4] == o[3] && a[n - 3] == o[4] && a[n - 2] == o[5] && a[n - 1] == o[6]);
    }
    let w = n - o.len() - e.len();
    assert(a[w] == e[0] && a[w + 1] == e[1] && a[w + 2] == e[2] && a[w + 3] == e[3]);
    assert(a[w + 4] == e[4] && a[w + 5] == e[5] && a[w + 6] == e[6] && a[w + 7] == e[7]);
    assert(a[w + 8] == e[8] && a[w + 9] == e[9] && a[w + 10] == e[10]);
    if is_software(p.encoder@) {
        assert(a[w + 11] == e[11] && a[w + 12] == e[12]);
    }
}

/// Nothing is made of no file, one is moved as it is, and more are joined.
pub proof fn law_concat_routes(count: usize, r: Result<ConcatRoute, String>)
    requires
        call_ensures(concat_route, (count,), r),
    ensures
        r is Err <==> count == 0,
        r == Ok::<ConcatRoute, String>(ConcatRoute::Move) <==> count == 1,
        r == Ok::<ConcatRoute, String>(ConcatRoute::Join) <==> count > 1,
{
}

/// The list has a line for each file, in their order: its name in single quotes. In a name with a
/// quote, the quote is closed, escaped and opened again; any other name stands as it is.
pub proof fn law_concat_list(files: Seq<String>, file: String, a: Seq<char>, b: Seq<char>)
    ensures
        list_text(files.push(file), files.len() as int + 1) == list_text(files, files.len() as int)
            + list_line(file@),
        list_text(seq![], 0).len() == 0,
        (forall|i: int| 0 <= i < a.len() ==> #[trigger] a[i] != '\'') ==> list_line(a) == "file '"@ + a
            + "'\n"@,
        (forall|i: int| 0 <= i < a.len() ==> #[trigger] a[i] != '\'') && (forall|i: int|
            0 <= i < b.len() ==> #[trigger] b[i] != '\'') ==> list_line(a + seq!['\''] + b)
            == "file '"@ + (a + "'\\''"@ + b) + "'\n"@,
{
    lemma_list_front(files, file, files.len() as int);
    let q = '\'';
    let w = "'\\''"@;
    law_replaced(a, seq![], q, w);
    law_replaced(b, seq![], q, w);
    law_replaced(a, seq![q], q, w);
    law_replaced(a + seq![q], b, q, w);
}

proof fn lemma_list_front(files: Seq<String>, file: String, n: int)
    requires
        n <= files.len(),
    ensures
        list_text(files.push(file), n) == list_text(files, n),
    decreases n,
{
    if n > 0 {
        lemma_list_front(files, file, n - 1);
    }
}

/// The files of the list are joined without being encoded again, into the file that is named
/// last.
pub proof fn law_concat_args(list_path: &str, out: &str, r: Vec<String>)
    requires
        call_ensures(concat_args, (list_path, out), r),
    ensures
        r@.len() == 15,
        r@[4]@ == "-f"@ && r@[5]@ == "concat"@,
        r@[8]@ == "-i"@ && r@[9]@ == list_path@,
        r@[10]@ == "-c"@ && r@[11]@ == "copy"@,
        r@[14]@ == out@,
{
    let t = texts(r@);
    assert(t.len() == r@.len());
    assert(t[4] == r@[4]@ && t[5] == r@[5]@ && t[8] == r@[8]@ && t[9] == r@[9]@);
    assert(t[10] == r@[10]@ && t[11] == r@[11]@ && t[14] == r@[14]@);
}

} // verus!
