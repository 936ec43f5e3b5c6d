//! Joining MP4 segments without decoding them.
//!
//! A pause or a replay leaves several segments, each a whole MP4 file. Joining
//! them copies their samples onto one timeline per track. With a limit on the
//! length, the joined file starts at the last keyframe that leaves at least that
//! much, and the audio starts at the first sample that reaches into it.
use vstd::prelude::*;

use crate::mp4info::Mp4Info;

verus! {

/// What a joined file holds: `duration` ticks, `timescale` of which make a second.
pub struct RemuxInfo {
    pub video_samples: u64,
    pub audio_samples: u64,
    pub duration: u64,
    pub timescale: u32,
}

/// What to do with a number of segments.
#[derive(PartialEq, Eq, Structural, Clone, Copy)]
pub enum Route {
    /// One segment is moved to its place as it is.
    Move,
    /// Several are joined.
    Join,
}

/// How to make one file of `count` segments.
pub fn remux_route(count: usize) -> (r: Result<Route, String>)
    ensures
        match r {
            Err(e) => count == 0 && e@ == "Nothing to merge."@,
            Ok(Route::Move) => count == 1,
            Ok(Route::Join) => count >= 2,
        },
{
    if count == 0 {
        return Err("Nothing to merge.".to_string());
    }
    if count == 1 {
        Ok(Route::Move)
    } else {
        Ok(Route::Join)
    }
}

/// What a segment that was moved as it is holds.
pub fn moved_info(info: &Mp4Info) -> (r: RemuxInfo)
    ensures
        r.video_samples == (match info@.video {
            Some(v) => v.samples,
            None => 0,
        }),
        r.audio_samples == (match info@.audio {
            Some(a) => a.samples,
            None => 0,
        }),
        r.duration == info@.duration,
        r.timescale == info@.timescale,
        r.duration == info.duration,
        r.timescale == info.timescale,
        info.video matches Some(v) ==> r.video_samples == v.samples,
        info.audio matches Some(a) ==> r.audio_samples == a.samples,
        info.video is None ==> r.video_samples == 0,
        info.audio is None ==> r.audio_samples == 0,
{
    RemuxInfo {
        video_samples: match &info.video {
            Some(v) => v.samples as u64,
            None => 0,
        },
        audio_samples: match &info.audio {
            Some(a) => a.samples as u64,
            None => 0,
        },
        duration: info.duration,
        timescale: info.timescale,
    }
}

/// The kind of a track in a segment.
#[derive(PartialEq, Eq, Structural, Clone, Copy)]
pub enum TrackKind {
    Video,
    Audio,
    Other,
}

/// A track of a segment, as its header describes it. `sps` is the sequence
/// parameter set of a video track, and empty for others.
pub struct TrackDesc {
    pub id: u32,
    pub kind: TrackKind,
    pub timescale: u32,
    pub sps: Vec<u8>,
}

/// The first track of a kind, by its index.
pub open spec fn first_of(tracks: Seq<TrackDesc>, kind: TrackKind, from: int) -> Option<int>
    decreases tracks.len() - from,
{
    if from < 0 || from >= tracks.len() {
        None
    } else if tracks[from].kind == kind {
        Some(from)
    } else {
        first_of(tracks, kind, from + 1)
    }
}

/// Finds the first track of a kind.
pub fn find_track(tracks: &Vec<TrackDesc>, kind: TrackKind) -> (r: Option<usize>)
    ensures
        match r {
            Some(i) => first_of(tracks@, kind, 0) == Some(i as int),
            None => first_of(tracks@, kind, 0) is None,
        },
        r matches Some(i) ==> i < tracks.len() && tracks@[i as int].kind == kind,
        forall|k: int|
            0 <= k < tracks.len() && (r matches Some(i) ==> k < i) ==> (#[trigger] tracks@[k]).kind
                != kind,
{
    let mut i: usize = 0;
    while i < tracks.len()
        invariant
            i <= tracks.len(),
            first_of(tracks@, kind, 0) == first_of(tracks@, kind, i as int),
            forall|k: int| 0 <= k < i ==> (#[trigger] tracks@[k]).kind != kind,
        decreases tracks.len() - i,
    {
        if tracks[i].kind == kind {
            return Some(i);
        }
        i = i + 1;
    }
    None
}

/// The tracks of a segment that are joined: its first video track and its first
/// audio track.
pub struct SegmentTracks {
    pub video: usize,
    pub audio: Option<usize>,
}

/// Picks the tracks of the segment at `path` that are joined.
pub fn segment_tracks(tracks: &Vec<TrackDesc>, path: &str) -> (r: Result<SegmentTracks, String>)
    ensures
        match first_of(tracks@, TrackKind::Video, 0) {
            None => r matches Err(e) && e@ == "Segment has no video track: "@ + path@,
            Some(v) => r matches Ok(s) && s.video == v && match first_of(
                tracks@,
                TrackKind::Audio,
                0,
            ) {
                Some(a) => s.audio matches Some(x) && x == a,
                None => s.audio is None,
            },
        },
        r matches Ok(s) ==> s.video < tracks.len() && tracks@[s.video as int].kind
            == TrackKind::Video && forall|k: int|
            0 <= k < s.video ==> (#[trigger] tracks@[k]).kind != TrackKind::Video,
        r is Err ==> forall|k: int|
            0 <= k < tracks.len() ==> (#[trigger] tracks@[k]).kind != TrackKind::Video,
        r matches Ok(s) ==> (s.audio matches Some(x) ==> x < tracks.len() && tracks@[x as int].kind
            == TrackKind::Audio) && forall|k: int|
            0 <= k < tracks.len() && (s.audio matches Some(x) ==> k < x) ==> (
            #[trigger] tracks@[k]).kind != TrackKind::Audio,
{
    match find_track(tracks, TrackKind::Video) {
        None => {
            let mut e = "Segment has no video track: ".to_string();
            e.append(path);
            Err(e)
        },
        Some(video) => Ok(SegmentTracks { video, audio: find_track(tracks, TrackKind::Audio) }),
    }
}

/// A segment that has been opened.
pub struct Segment {
    pub timescale: u32,
    pub sps: Vec<u8>,
    pub audio_timescale: Option<u32>,
}

/// The first segment, at or behind `from`, that does not go with the first one.
pub open spec fn first_unlike(segs: Seq<Segment>, from: int) -> Option<int>
    decreases segs.len() - from,
{
    if from < 0 || from >= segs.len() {
        None
    } else if segs[from].timescale != segs[0].timescale || segs[from].sps@ != segs[0].sps@ {
        Some(from)
    } else {
        first_unlike(segs, from + 1)
    }
}

/// The timescale of the first audio track, 0 where no segment has one.
pub open spec fn audio_scale(segs: Seq<Segment>) -> int
    decreases segs.len(),
{
    if segs.len() == 0 {
        0
    } else {
        match segs[0].audio_timescale {
            Some(t) => t as int,
            None => audio_scale(segs.drop_first()),
        }
    }
}

fn same_bytes(a: &Vec<u8>, b: &Vec<u8>) -> (r: bool)
    ensures
        r == (a@ == b@),
{
    if a.len() != b.len() {
        return false;
    }
    let mut i: usize = 0;
    while i < a.len()
        invariant
            a.len() == b.len(),
            i <= a.len(),
            forall|k: int| 0 <= k < i ==> a@[k] == b@[k],
        decreases a.len() - i,
    {
        if a[i] != b[i] {
            return false;
        }
        i = i + 1;
    }
    assert(a@ =~= b@);
    true
}

/// The timescales of the joined tracks (video, audio) if all segments can be
/// joined: they must agree in the video timescale and in the codec's parameters.
pub fn join_scales(segs: &Vec<Segment>) -> (r: Result<(u32, u32), String>)
    requires
        segs.len() > 0,
    ensures
        match first_unlike(segs@, 1) {
            None => r matches Ok(t) && t.0 == segs@[0].timescale && t.1 == audio_scale(segs@),
            Some(i) => r matches Err(e) && e@ == if segs@[i].timescale != segs@[0].timescale {
                "Segment timescale mismatch â€” cannot stream-copy merge."@
            } else {
                "Segment codec config changed mid-recording â€” cannot merge."@
            },
        },
        r is Ok <==> forall|i: int|
            0 <= i < segs.len() ==> (#[trigger] segs@[i]).timescale == segs@[0].timescale
                && segs@[i].sps@ == segs@[0].sps@,
        r matches Ok(t) ==> t.0 == segs@[0].timescale,
        r matches Ok(t) ==> forall|i: int|
            0 <= i < segs.len() && (#[trigger] segs@[i]).audio_timescale is Some && (forall|k: int|
                0 <= k < i ==> (#[trigger] segs@[k]).audio_timescale is None)
                ==> segs@[i].audio_timescale == Some(t.1),
        r matches Ok(t) ==> (forall|i: int|
            0 <= i < segs.len() ==> (#[trigger] segs@[i]).audio_timescale is None) ==> t.1 == 0,
{
    let vts: u32 = segs[0].timescale;
    let mut i: usize = 1;
    while i < segs.len()
        invariant
            1 <= i <= segs.len(),
            vts == segs@[0].timescale,
            first_unlike(segs@, 1) == first_unlike(segs@, i as int),
            forall|k: int|
                0 <= k < i ==> (#[trigger] segs@[k]).timescale == segs@[0].timescale
                    && segs@[k].sps@ == segs@[0].sps@,
        decreases segs.len() - i,
    {
        if segs[i].timescale != vts {
            return Err("Segment timescale mismatch â€” cannot stream-copy merge.".to_string());
        }
        if !same_bytes(&segs[i].sps, &segs[0].sps) {
            return Err("Segment codec config changed mid-recording â€” cannot merge.".to_string());
        }
        i = i + 1;
    }
    let mut j: usize = 0;
    assert(segs@.skip(0) =~= segs@);
    while j < segs.len()
        invariant
            j <= segs.len(),
            vts == segs@[0].timescale,
            forall|k: int|
                0 <= k < segs.len() ==> (#[trigger] segs@[k]).timescale == segs@[0].timescale
                    && segs@[k].sps@ == segs@[0].sps@,
            forall|k: int| 0 <= k < j ==> (#[trigger] segs@[k]).audio_timescale is None,
            first_unlike(segs@, 1) is None,
            audio_scale(segs@) == audio_scale(segs@.skip(j as int)),
        decreases segs.len() - j,
    {
        assert(segs@.skip(j as int).drop_first() =~= segs@.skip(j + 1));
        match segs[j].audio_timescale {
            Some(t) => {
                return Ok((vts, t));
            },
            None => {},
        }
        j = j + 1;
    }
    Ok((vts, 0))
}

/// The head of a sample, in the timeline of its own segment.
#[derive(Clone, Copy)]
pub struct Head {
    pub start: u64,
    pub dur: u32,
    pub sync: bool,
}

/// A sample that could not be read counts as an empty one at the start.
pub open spec fn head(sample: Option<Head>) -> Head {
    match sample {
        Some(h) => h,
        None => Head { start: 0, dur: 0, sync: false },
    }
}

/// Where a segment ends: with its last sample.
pub open spec fn seg_end(seg: Seq<Option<Head>>) -> int {
    if seg.len() == 0 {
        0
    } else {
        head(seg.last()).start + head(seg.last()).dur
    }
}

/// Where segment `i` begins in the joined timeline: behind all earlier ones.
pub open spec fn base(segs: Seq<Vec<Option<Head>>>, i: int) -> int
    decreases i,
{
    if i <= 0 {
        0
    } else {
        base(segs, i - 1) + seg_end(segs[i - 1]@)
    }
}

/// The length of the joined timeline.
pub open spec fn total(segs: Seq<Vec<Option<Head>>>) -> int {
    base(segs, segs.len() as int)
}

/// A sample in the joined timeline.
#[derive(Clone, Copy)]
pub struct Placed {
    pub at: u64,
    pub dur: u32,
    pub sync: bool,
    pub present: bool,
}

/// The samples of one segment, moved to where the segment begins.
pub open spec fn placed_seg(seg: Seq<Option<Head>>, from: int) -> Seq<Placed> {
    Seq::new(
        seg.len(),
        |k: int|
            Placed {
                at: (from + head(seg[k]).start) as u64,
                dur: head(seg[k]).dur,
                sync: head(seg[k]).sync,
                present: seg[k] is Some,
            },
    )
}

/// The samples of the first `n` segments, in the joined timeline.
pub open spec fn timeline(segs: Seq<Vec<Option<Head>>>, n: int) -> Seq<Placed>
    decreases n,
{
    if n <= 0 {
        seq![]
    } else {
        timeline(segs, n - 1) + placed_seg(segs[n - 1]@, base(segs, n - 1))
    }
}

/// Whether the times of the first `n` segments fit in 64 bits.
pub open spec fn fits(segs: Seq<Vec<Option<Head>>>, n: int) -> bool {
    forall|i: int|
        0 <= i < n ==> #[trigger] base(segs, i + 1) <= u64::MAX && forall|k: int|
            0 <= k < segs[i].len() ==> base(segs, i) + (#[trigger] head(segs[i]@[k])).start
                <= u64::MAX
}

fn head_of(sample: Option<Head>) -> (r: Head)
    ensures
        r == head(sample),
{
    match sample {
        Some(h) => h,
        None => Head { start: 0, dur: 0, sync: false },
    }
}

proof fn lemma_base_at_least(segs: Seq<Vec<Option<Head>>>, i: int)
    ensures
        base(segs, i) >= 0,
    decreases i,
{
    if i > 0 {
        lemma_base_at_least(segs, i - 1);
    }
}

/// Puts the samples of all segments on one timeline, and tells its length.
/// Nothing where a time does not fit in 64 bits.
pub fn place(segs: &Vec<Vec<Option<Head>>>) -> (r: Option<(Vec<Placed>, u64)>)
    ensures
        match r {
            Some(p) => fits(segs@, segs@.len() as int) && p.0@ == timeline(
                segs@,
                segs@.len() as int,
            ) && p.1 == total(segs@),
            None => !fits(segs@, segs@.len() as int),
        },
{
    let mut out: Vec<Placed> = Vec::new();
    let mut from: u64 = 0;
    let mut i: usize = 0;
    while i < segs.len()
        invariant
            i <= segs.len(),
            fits(segs@, i as int),
            from == base(segs@, i as int),
            out@ == timeline(segs@, i as int),
        decreases segs.len() - i,
    {
        let seg = &segs[i];
        let ghost before = out@;
        let mut k: usize = 0;
        while k < seg.len()
            invariant
                i < segs.len(),
                seg == &segs@[i as int],
                k <= seg.len(),
                from == base(segs@, i as int),
                forall|m: int| 0 <= m < k ==> from + (#[trigger] head(seg@[m])).start <= u64::MAX,
                out@ =~= before + placed_seg(seg@, from as int).take(k as int),
            decreases seg.len() - k,
        {
            let h = head_of(seg[k]);
            let at: u64 = match from.checked_add(h.start) {
                Some(t) => t,
                None => {
                    let ghost _next = base(segs@, i + 1);
                    assert(base(segs@, i as int) + head(segs@[i as int]@[k as int]).start > u64::MAX);
                    return None;
                },
            };
            out.push(Placed { at, dur: h.dur, sync: h.sync, present: seg[k].is_some() });
            k = k + 1;
        }
        assert(placed_seg(seg@, from as int).take(k as int) =~= placed_seg(seg@, from as int));
        assert(out@ =~= timeline(segs@, i + 1));
        if seg.len() > 0 {
            let h = head_of(seg[seg.len() - 1]);
            let end: u128 = h.start as u128 + h.dur as u128 + from as u128;
            if end > u64::MAX as u128 {
                assert(base(segs@, i + 1) > u64::MAX);
                return None;
            }
            from = end as u64;
        }
        i = i + 1;
    }
    Some((out, from))
}

/// The last keyframe of the first `n` samples that is not behind `cutoff`.
pub open spec fn last_keyframe(line: Seq<Placed>, n: int, cutoff: int) -> Option<int>
    decreases n,
{
    if n <= 0 {
        None
    } else if line[n - 1].sync && line[n - 1].at <= cutoff {
        Some(n - 1)
    } else {
        last_keyframe(line, n - 1, cutoff)
    }
}

/// The first sample, from `from` on, that ends behind the instant `origin / vts`.
pub open spec fn first_reaching(line: Seq<Placed>, from: int, ats: int, origin: int, vts: int) -> Option<
    int,
>
    decreases line.len() - from,
{
    if from < 0 || from >= line.len() {
        None
    } else if (line[from].at + line[from].dur) * vts > origin * ats {
        Some(from)
    } else {
        first_reaching(line, from + 1, ats, origin, vts)
    }
}

/// Where the joined file starts: how many samples of each track are left out,
/// and the time that becomes zero.
#[derive(Clone, Copy)]
pub struct Trim {
    pub v_skip: usize,
    pub v_origin: u64,
    pub a_skip: usize,
    pub a_origin: u64,
}

/// How many ticks of the video are kept where `keep` are asked for: at least one
/// second.
pub open spec fn kept_ticks(vts: int, keep: int) -> int {
    if keep < vts {
        vts
    } else {
        keep
    }
}

/// The instant from which the ticks that are kept are left, 0 where there are
/// fewer.
pub open spec fn cutoff(v_total: int, vts: int, keep: int) -> int {
    if v_total > kept_ticks(vts, keep) {
        v_total - kept_ticks(vts, keep)
    } else {
        0
    }
}

/// The keyframe at which the joined video starts, where it does not start at its
/// first sample.
pub open spec fn start_keyframe(video: Seq<Placed>, v_total: int, vts: int, keep: Option<u64>) -> Option<
    int,
> {
    match keep {
        Some(k) if vts > 0 && cutoff(v_total, vts, k as int) > 0 => last_keyframe(
            video,
            video.len() as int,
            cutoff(v_total, vts, k as int),
        ),
        _ => None,
    }
}

/// How many video samples are left out.
pub open spec fn video_skip(video: Seq<Placed>, v_total: int, vts: int, keep: Option<u64>) -> int {
    match start_keyframe(video, v_total, vts, keep) {
        Some(i) => i,
        None => 0,
    }
}

/// The time of the video that becomes zero.
pub open spec fn video_origin(video: Seq<Placed>, v_total: int, vts: int, keep: Option<u64>) -> int {
    match start_keyframe(video, v_total, vts, keep) {
        Some(i) => video[i].at as int,
        None => 0,
    }
}

/// The audio sample at which the joined audio starts, where it does not start at
/// its first sample.
pub open spec fn start_audio(audio: Seq<Placed>, ats: int, v_skip: int, origin: int, vts: int) -> Option<
    int,
> {
    if v_skip > 0 && ats > 0 {
        first_reaching(audio, 0, ats, origin, vts)
    } else {
        None
    }
}

/// What a [`Trim`] stands for.
pub struct Start {
    pub v_skip: int,
    pub v_origin: int,
    pub a_skip: int,
    pub a_origin: int,
}

impl View for Trim {
    type V = Start;

    open spec fn view(&self) -> Start {
        Start {
            v_skip: self.v_skip as int,
            v_origin: self.v_origin as int,
            a_skip: self.a_skip as int,
            a_origin: self.a_origin as int,
        }
    }
}

/// Where the joined file starts.
pub open spec fn trim_of(
    video: Seq<Placed>,
    v_total: int,
    audio: Seq<Placed>,
    vts: int,
    ats: int,
    keep: Option<u64>,
) -> Start {
    let origin = video_origin(video, v_total, vts, keep);
    let skip = video_skip(video, v_total, vts, keep);
    match start_audio(audio, ats, skip, origin, vts) {
        Some(i) => Start {
            v_skip: skip,
            v_origin: origin,
            a_skip: i,
            a_origin: audio[i].at as int,
        },
        None => Start { v_skip: skip, v_origin: origin, a_skip: 0, a_origin: 0 },
    }
}

fn find_keyframe(video: &Vec<Placed>, cutoff: u64) -> (r: Option<usize>)
    ensures
        match r {
            Some(i) => i < video.len() && last_keyframe(video@, video@.len() as int, cutoff as int)
                == Some(i as int),
            None => last_keyframe(video@, video@.len() as int, cutoff as int) is None,
        },
{
    let mut best: Option<usize> = None;
    let mut i: usize = 0;
    while i < video.len()
        invariant
            i <= video.len(),
            match best {
                Some(b) => b < i && last_keyframe(video@, i as int, cutoff as int) == Some(b as int),
                None => last_keyframe(video@, i as int, cutoff as int) is None,
            },
        decreases video.len() - i,
    {
        if video[i].sync && video[i].at <= cutoff {
            best = Some(i);
        }
        i = i + 1;
    }
    best
}

fn find_reaching(audio: &Vec<Placed>, ats: u32, origin: u64, vts: u32) -> (r: Option<usize>)
    ensures
        match r {
            Some(i) => i < audio.len() && first_reaching(
                audio@,
                0,
                ats as int,
                origin as int,
                vts as int,
            ) == Some(i as int),
            None => first_reaching(audio@, 0, ats as int, origin as int, vts as int) is None,
        },
{
    proof {
        assert(origin * ats <= 0xffff_ffff_ffff_ffff * 0xffff_ffff) by (nonlinear_arith)
            requires
                origin <= 0xffff_ffff_ffff_ffff,
                ats <= 0xffff_ffff,
        ;
    }
    let bar: u128 = origin as u128 * ats as u128;
    let mut i: usize = 0;
    while i < audio.len()
        invariant
            i <= audio.len(),
            bar == origin * ats,
            first_reaching(audio@, 0, ats as int, origin as int, vts as int) == first_reaching(
                audio@,
                i as int,
                ats as int,
                origin as int,
                vts as int,
            ),
        decreases audio.len() - i,
    {
        let end: u128 = audio[i].at as u128 + audio[i].dur as u128;
        proof {
            assert(end * vts <= 0x1_0000_0000_ffff_ffff * 0xffff_ffff) by (nonlinear_arith)
                requires
                    end <= 0x1_0000_0000_ffff_ffff,
                    vts <= 0xffff_ffff,
            ;
        }
        if end * vts as u128 > bar {
            return Some(i);
        }
        i = i + 1;
    }
    None
}

/// Decides where the joined file starts.
pub fn plan_trim(
    video: &Vec<Placed>,
    v_total: u64,
    audio: &Vec<Placed>,
    vts: u32,
    ats: u32,
    keep: Option<u64>,
) -> (r: Trim)
    ensures
        r@ == trim_of(video@, v_total as int, audio@, vts as int, ats as int, keep),
        r.v_skip <= video.len(),
        r.a_skip <= audio.len(),
        cut_at_keyframe(video@, v_total as int, vts as int, keep, r@),
        sound_in_step(audio@, vts as int, ats as int, r@),
{
    proof {
        law_cut_at_keyframe(video@, v_total as int, audio@, vts as int, ats as int, keep);
        law_sound_in_step(video@, v_total as int, audio@, vts as int, ats as int, keep);
    }
    let mut t = Trim { v_skip: 0, v_origin: 0, a_skip: 0, a_origin: 0 };
    if let Some(k) = keep {
        if vts > 0 {
            let ticks: u64 = if k < vts as u64 {
                vts as u64
            } else {
                k
            };
            if v_total > ticks {
                if let Some(i) = find_keyframe(video, v_total - ticks) {
                    t.v_skip = i;
                    t.v_origin = video[i].at;
                }
            }
        }
    }
    if t.v_skip > 0 && ats > 0 {
        if let Some(i) = find_reaching(audio, ats, t.v_origin, vts) {
            t.a_skip = i;
            t.a_origin = audio[i].at;
        }
    }
    t
}

/// Whether no sample that is kept lies before the time that becomes zero.
pub open spec fn forward(line: Seq<Placed>, skip: int, origin: int) -> bool {
    forall|i: int| skip <= i < line.len() && (#[trigger] line[i]).present ==> line[i].at >= origin
}

/// The new start of each sample: none for one that is left out or could not be read.
pub open spec fn rebased(line: Seq<Placed>, skip: int, origin: int) -> Seq<Option<u64>> {
    Seq::new(
        line.len(),
        |i: int|
            if i >= skip && line[i].present {
                Some((line[i].at - origin) as u64)
            } else {
                None
            },
    )
}

/// How many samples are written.
pub open spec fn written(starts: Seq<Option<u64>>) -> nat
    decreases starts.len(),
{
    if starts.len() == 0 {
        0
    } else {
        written(starts.drop_last()) + if starts.last() is Some {
            1nat
        } else {
            0nat
        }
    }
}

/// Moves a track to its new zero, and counts what is written. Nothing where a
/// sample that is kept lies before it.
pub fn rebase(line: &Vec<Placed>, skip: usize, origin: u64) -> (r: Option<(Vec<Option<u64>>, u64)>)
    ensures
        match r {
            Some(p) => forward(line@, skip as int, origin as int) && p.0@ == rebased(
                line@,
                skip as int,
                origin as int,
            ) && p.1 == written(p.0@),
            None => !forward(line@, skip as int, origin as int),
        },
        r matches Some(p) ==> p.0@.len() == line@.len() && forall|i: int|
            0 <= i < line@.len() ==> (if i >= skip && line@[i].present {
                (#[trigger] p.0@[i]) matches Some(t) && t == line@[i].at - origin
            } else {
                p.0@[i] is None
            }),
        r matches Some(p) ==> p.1 == p.0@.filter(|x: Option<u64>| x is Some).len(),
        r is None <==> exists|i: int|
            skip <= i < line@.len() && (#[trigger] line@[i]).present && line@[i].at < origin,
{
    let mut out: Vec<Option<u64>> = Vec::new();
    let mut count: u64 = 0;
    let mut i: usize = 0;
    while i < line.len()
        invariant
            i <= line.len(),
            count <= i,
            count == written(out@),
            out@ =~= rebased(line@, skip as int, origin as int).take(i as int),
            forall|k: int|
                skip <= k < i && (#[trigger] line@[k]).present ==> line@[k].at >= origin,
        decreases line.len() - i,
    {
        let ghost before = out@;
        if i >= skip && line[i].present {
            if line[i].at < origin {
                assert(line@[i as int].present);
                return None;
            }
            out.push(Some(line[i].at - origin));
            count = count + 1;
        } else {
            out.push(None);
        }
        assert(out@.drop_last() =~= before);
        i = i + 1;
    }
    assert(rebased(line@, skip as int, origin as int).take(i as int) =~= rebased(
        line@,
        skip as int,
        origin as int,
    ));
    proof {
        lemma_written_counts(out@);
    }
    Some((out, count))
}

/// The plan of a joined file: for each sample of a track, in the order of the
/// segments, its new start where it is written.
pub struct MergePlan {
    pub video: Vec<Option<u64>>,
    pub audio: Vec<Option<u64>>,
    pub info: RemuxInfo,
}

/// The start of the joined file of these segments.
pub open spec fn start_of(
    video: Seq<Vec<Option<Head>>>,
    audio: Seq<Vec<Option<Head>>>,
    vts: int,
    ats: int,
    keep: Option<u64>,
) -> Start {
    trim_of(
        timeline(video, video.len() as int),
        total(video),
        timeline(audio, audio.len() as int),
        vts,
        ats,
        keep,
    )
}

/// Whether these segments have a joined timeline with the start `t`: the times
/// fit in 64 bits, and what is kept lies behind the start.
pub open spec fn joins(t: Start, video: Seq<Vec<Option<Head>>>, audio: Seq<Vec<Option<Head>>>) -> bool {
    &&& fits(video, video.len() as int)
    &&& fits(audio, audio.len() as int)
    &&& forward(timeline(video, video.len() as int), t.v_skip, t.v_origin)
    &&& forward(timeline(audio, audio.len() as int), t.a_skip, t.a_origin)
}

/// Whether `p` is the plan for these segments with the start `t`.
pub open spec fn is_plan(
    p: MergePlan,
    t: Start,
    video: Seq<Vec<Option<Head>>>,
    audio: Seq<Vec<Option<Head>>>,
    vts: int,
) -> bool {
    let v = timeline(video, video.len() as int);
    let a = timeline(audio, audio.len() as int);
    &&& p.video@ == rebased(v, t.v_skip, t.v_origin)
    &&& p.audio@ == rebased(a, t.a_skip, t.a_origin)
    &&& p.info.video_samples == written(p.video@)
    &&& p.info.audio_samples == written(p.audio@)
    &&& p.info.timescale == vts
    &&& p.info.duration == if total(video) > t.v_origin {
        total(video) - t.v_origin
    } else {
        0
    }
}

/// Plans the joined file of several segments, cut to the last `keep` ticks of the
/// video, or the last second where that is more, if a limit is given. Nothing where the times overflow or run backwards.
pub fn plan_merge(
    video: &Vec<Vec<Option<Head>>>,
    audio: &Vec<Vec<Option<Head>>>,
    vts: u32,
    ats: u32,
    keep: Option<u64>,
) -> (r: Option<MergePlan>)
    ensures
        r is Some <==> joins(
            start_of(video@, audio@, vts as int, ats as int, keep),
            video@,
            audio@,
        ),
        r matches Some(p) ==> is_plan(
            p,
            start_of(video@, audio@, vts as int, ats as int, keep),
            video@,
            audio@,
            vts as int,
        ),
{
    let (v, v_total) = place(video)?;
    let (a, _) = place(audio)?;
    let t = plan_trim(&v, v_total, &a, vts, ats, keep);
    let (video_starts, video_samples) = rebase(&v, t.v_skip, t.v_origin)?;
    let (audio_starts, audio_samples) = rebase(&a, t.a_skip, t.a_origin)?;
    let duration: u64 = if v_total > t.v_origin {
        v_total - t.v_origin
    } else {
        0
    };
    Some(
        MergePlan {
            video: video_starts,
            audio: audio_starts,
            info: RemuxInfo { video_samples, audio_samples, duration, timescale: vts },
        },
    )
}

/// Whether every sample was read, and the samples of each segment come in the
/// order of their times.
pub open spec fn ordered(segs: Seq<Vec<Option<Head>>>) -> bool {
    forall|i: int, j: int, k: int|
        0 <= i < segs.len() && 0 <= j <= k < segs[i].len() ==> (#[trigger] segs[i]@[j]) is Some
            && head(segs[i]@[j]).start <= head(#[trigger] segs[i]@[k]).start
}

/// Whether the samples of a timeline are all there, in the order of their times.
pub open spec fn in_order(line: Seq<Placed>) -> bool {
    &&& forall|i: int| 0 <= i < line.len() ==> (#[trigger] line[i]).present
    &&& forall|i: int, j: int|
        0 <= i <= j < line.len() ==> (#[trigger] line[i]).at <= (#[trigger] line[j]).at
}

proof fn lemma_timeline_in_order(segs: Seq<Vec<Option<Head>>>, n: int)
    requires
        0 <= n <= segs.len(),
        ordered(segs),
        fits(segs, segs.len() as int),
    ensures
        in_order(timeline(segs, n)),
        forall|i: int| 0 <= i < timeline(segs, n).len() ==> (#[trigger] timeline(segs, n)[i]).at
            <= base(segs, n),
    decreases n,
{
    if n > 0 {
        lemma_timeline_in_order(segs, n - 1);
        lemma_base_at_least(segs, n - 1);
        let seg = segs[n - 1]@;
        let from = base(segs, n - 1);
        let front = timeline(segs, n - 1);
        let line = timeline(segs, n);
        assert(line =~= front + placed_seg(seg, from));
        assert(base(segs, (n - 1) + 1) <= u64::MAX);
        assert forall|k: int| 0 <= k < seg.len() implies (#[trigger] seg[k]) is Some && head(
            seg[k],
        ).start + from <= base(segs, n) && head(seg[k]).start + from <= u64::MAX by {
            assert(segs[n - 1]@[k] is Some);
            assert(segs[n - 1]@[seg.len() - 1] is Some);
        }
        assert forall|i: int, j: int| 0 <= i <= j < line.len() implies (#[trigger] line[i]).at
            <= (#[trigger] line[j]).at && line[i].present by {
            if i < front.len() {
                assert(line[i] == front[i]);
                if j < front.len() {
                    assert(line[j] == front[j]);
                } else {
                    let k = j - front.len();
                    assert(seg[k] is Some);
                }
            } else {
                let k = i - front.len();
                let m = j - front.len();
                assert(segs[n - 1]@[k] is Some);
                assert(segs[n - 1]@[m] is Some);
            }
        }
        assert forall|i: int| 0 <= i < line.len() implies (#[trigger] line[i]).at <= base(segs, n)
            && line[i].present by {
            if i < front.len() {
                assert(line[i] == front[i]);
            } else {
                assert(seg[i - front.len()] is Some);
            }
        }
    }
}

proof fn lemma_last_keyframe(line: Seq<Placed>, n: int, cut: int)
    requires
        0 <= n <= line.len(),
    ensures
        match last_keyframe(line, n, cut) {
            Some(i) => 0 <= i < n && line[i].sync && line[i].at <= cut && forall|j: int|
                i < j < n && (#[trigger] line[j]).sync ==> line[j].at > cut,
            None => forall|j: int| 0 <= j < n && (#[trigger] line[j]).sync ==> line[j].at > cut,
        },
    decreases n,
{
    if n > 0 {
        lemma_last_keyframe(line, n - 1, cut);
    }
}

proof fn lemma_first_reaching(line: Seq<Placed>, from: int, ats: int, origin: int, vts: int)
    requires
        0 <= from <= line.len(),
    ensures
        match first_reaching(line, from, ats, origin, vts) {
            Some(i) => from <= i < line.len() && (line[i].at + line[i].dur) * vts > origin * ats
                && forall|j: int|
                from <= j < i ==> ((#[trigger] line[j]).at + line[j].dur) * vts <= origin * ats,
            None => forall|j: int|
                from <= j < line.len() ==> ((#[trigger] line[j]).at + line[j].dur) * vts <= origin
                    * ats,
        },
    decreases line.len() - from,
{
    if from < line.len() {
        lemma_first_reaching(line, from + 1, ats, origin, vts);
    }
}

/// Without a limit nothing is left out: every sample that could be read is
/// written, at its own place in the joined timeline.
pub proof fn law_nothing_lost(
    video: Seq<Vec<Option<Head>>>,
    audio: Seq<Vec<Option<Head>>>,
    vts: int,
    ats: int,
    i: int,
)
    ensures
        ({
            let t = start_of(video, audio, vts, ats, None);
            let v = timeline(video, video.len() as int);
            let a = timeline(audio, audio.len() as int);
            &&& 0 <= i < v.len() && v[i].present ==> rebased(v, t.v_skip, t.v_origin)[i] == Some(
                v[i].at,
            )
            &&& 0 <= i < a.len() && a[i].present ==> rebased(a, t.a_skip, t.a_origin)[i] == Some(
                a[i].at,
            )
        }),
{
}

/// Whether every sample of all segments was read.
pub open spec fn all_read(segs: Seq<Vec<Option<Head>>>) -> bool {
    forall|i: int, k: int|
        0 <= i < segs.len() && 0 <= k < segs[i].len() ==> (#[trigger] segs[i]@[k]) is Some
}

/// How many samples the first `n` segments have.
pub open spec fn sample_count(segs: Seq<Vec<Option<Head>>>, n: int) -> nat
    decreases n,
{
    if n <= 0 {
        0
    } else {
        sample_count(segs, n - 1) + segs[n - 1]@.len()
    }
}

proof fn lemma_all_present(segs: Seq<Vec<Option<Head>>>, n: int)
    requires
        0 <= n <= segs.len(),
        all_read(segs),
    ensures
        timeline(segs, n).len() == sample_count(segs, n),
        forall|i: int| 0 <= i < timeline(segs, n).len() ==> (#[trigger] timeline(segs, n)[i]).present,
    decreases n,
{
    if n > 0 {
        lemma_all_present(segs, n - 1);
        let front = timeline(segs, n - 1);
        let line = timeline(segs, n);
        assert forall|i: int| 0 <= i < line.len() implies (#[trigger] line[i]).present by {
            if i < front.len() {
                assert(line[i] == front[i]);
            } else {
                assert(segs[n - 1]@[i - front.len()] is Some);
            }
        }
    }
}

proof fn lemma_all_written(starts: Seq<Option<u64>>)
    requires
        forall|i: int| 0 <= i < starts.len() ==> (#[trigger] starts[i]) is Some,
    ensures
        written(starts) == starts.len(),
    decreases starts.len(),
{
    if starts.len() > 0 {
        assert forall|i: int| 0 <= i < starts.drop_last().len() implies (
        #[trigger] starts.drop_last()[i]) is Some by {
            assert(starts.drop_last()[i] == starts[i]);
        }
        lemma_all_written(starts.drop_last());
    }
}

/// Where every sample can be read, the joined file has as many samples as all segments
/// together.
pub proof fn law_all_samples_counted(
    p: MergePlan,
    video: Seq<Vec<Option<Head>>>,
    audio: Seq<Vec<Option<Head>>>,
    vts: int,
    ats: int,
)
    requires
        all_read(video),
        all_read(audio),
        is_plan(p, start_of(video, audio, vts, ats, None), video, audio, vts),
    ensures
        p.info.video_samples == sample_count(video, video.len() as int),
        p.info.audio_samples == sample_count(audio, audio.len() as int),
{
    lemma_all_present(video, video.len() as int);
    lemma_all_present(audio, audio.len() as int);
    lemma_all_written(p.video@);
    lemma_all_written(p.audio@);
}

/// Segments whose samples come in order can always be joined, if their times
/// fit in 64 bits.
pub proof fn law_ordered_segments_join(
    video: Seq<Vec<Option<Head>>>,
    audio: Seq<Vec<Option<Head>>>,
    vts: int,
    ats: int,
    keep: Option<u64>,
)
    requires
        ordered(video),
        ordered(audio),
        fits(video, video.len() as int),
        fits(audio, audio.len() as int),
    ensures
        joins(start_of(video, audio, vts, ats, keep), video, audio),
{
    let v = timeline(video, video.len() as int);
    let a = timeline(audio, audio.len() as int);
    lemma_timeline_in_order(video, video.len() as int);
    lemma_timeline_in_order(audio, audio.len() as int);
    let origin = video_origin(v, total(video), vts, keep);
    match keep {
        Some(k) => {
            lemma_last_keyframe(v, v.len() as int, cutoff(total(video), vts, k as int));
        },
        None => {},
    }
    lemma_first_reaching(a, 0, ats, origin, vts);
}

/// The joined file keeps one timeline: of two samples that are written, the
/// later one never starts before the earlier one.
pub proof fn law_one_timeline(
    segs: Seq<Vec<Option<Head>>>,
    skip: int,
    origin: int,
    i: int,
    j: int,
)
    requires
        ordered(segs),
        fits(segs, segs.len() as int),
        0 <= origin,
        forward(timeline(segs, segs.len() as int), skip, origin),
        0 <= skip <= i <= j < timeline(segs, segs.len() as int).len(),
    ensures
        ({
            let out = rebased(timeline(segs, segs.len() as int), skip, origin);
            out[i] is Some && out[j] is Some && out[i]->0 <= out[j]->0
        }),
{
    let line = timeline(segs, segs.len() as int);
    lemma_timeline_in_order(segs, segs.len() as int);
    assert(line[i].present && line[j].present);
    assert(line[i].at >= origin && line[j].at >= origin);
}

/// A shortened video starts with a keyframe, at time zero.
pub proof fn law_shortened_starts_with_keyframe(
    video: Seq<Vec<Option<Head>>>,
    audio: Seq<Vec<Option<Head>>>,
    vts: int,
    ats: int,
    keep: Option<u64>,
)
    requires
        start_of(video, audio, vts, ats, keep).v_skip > 0,
    ensures
        ({
            let t = start_of(video, audio, vts, ats, keep);
            let v = timeline(video, video.len() as int);
            &&& t.v_skip < v.len()
            &&& v[t.v_skip].sync
            &&& rebased(v, t.v_skip, t.v_origin)[t.v_skip] == Some(0u64)
        }),
{
    let v = timeline(video, video.len() as int);
    match keep {
        Some(k) => {
            lemma_last_keyframe(v, v.len() as int, cutoff(total(video), vts, k as int));
        },
        None => {},
    }
    lemma_sync_present(video, video.len() as int);
}

proof fn lemma_sync_present(segs: Seq<Vec<Option<Head>>>, n: int)
    requires
        n <= segs.len(),
    ensures
        forall|i: int|
            0 <= i < timeline(segs, n).len() && (#[trigger] timeline(segs, n)[i]).sync ==> timeline(
                segs,
                n,
            )[i].present,
    decreases n,
{
    if n > 0 {
        lemma_sync_present(segs, n - 1);
        let front = timeline(segs, n - 1);
        let line = timeline(segs, n);
        assert forall|i: int| 0 <= i < line.len() && (#[trigger] line[i]).sync implies line[i].present by {
            if i < front.len() {
                assert(line[i] == front[i]);
            }
        }
    }
}

/// Shortening keeps at least the asked length, and at least a second: what is left
/// is as long as that, or is the whole video.
pub proof fn law_keeps_the_limit(
    video: Seq<Vec<Option<Head>>>,
    audio: Seq<Vec<Option<Head>>>,
    vts: int,
    ats: int,
    keep: u64,
)
    requires
        vts > 0,
    ensures
        ({
            let left = total(video) - start_of(video, audio, vts, ats, Some(keep)).v_origin;
            left >= keep && left >= vts || left == total(video)
        }),
{
    let v = timeline(video, video.len() as int);
    let cut = cutoff(total(video), vts, keep as int);
    lemma_last_keyframe(v, v.len() as int, cut);
}

/// Shortening keeps no more than it must: behind the start there is no keyframe
/// that would still leave the asked length.
pub proof fn law_no_later_keyframe(
    video: Seq<Vec<Option<Head>>>,
    audio: Seq<Vec<Option<Head>>>,
    vts: int,
    ats: int,
    keep: u64,
    j: int,
)
    requires
        vts > 0,
        cutoff(total(video), vts, keep as int) > 0,
        start_of(video, audio, vts, ats, Some(keep)).v_skip < j < timeline(
            video,
            video.len() as int,
        ).len(),
        timeline(video, video.len() as int)[j].sync,
    ensures
        timeline(video, video.len() as int)[j].at > cutoff(total(video), vts, keep as int),
{
    let v = timeline(video, video.len() as int);
    lemma_last_keyframe(v, v.len() as int, cutoff(total(video), vts, keep as int));
}

/// A shortened audio track starts with the first sample that reaches into the
/// video: all that is left out has ended when the video starts.
pub proof fn law_audio_covers_video_start(
    video: Seq<Vec<Option<Head>>>,
    audio: Seq<Vec<Option<Head>>>,
    vts: int,
    ats: int,
    keep: Option<u64>,
    j: int,
)
    requires
        start_of(video, audio, vts, ats, keep).a_skip > 0,
        0 <= j < start_of(video, audio, vts, ats, keep).a_skip,
    ensures
        ({
            let t = start_of(video, audio, vts, ats, keep);
            let a = timeline(audio, audio.len() as int);
            &&& (a[j].at + a[j].dur) * vts <= t.v_origin * ats
            &&& (a[t.a_skip].at + a[t.a_skip].dur) * vts > t.v_origin * ats
        }),
{
    let t = start_of(video, audio, vts, ats, keep);
    lemma_first_reaching(timeline(audio, audio.len() as int), 0, ats, t.v_origin, vts);
}

proof fn lemma_written_counts(starts: Seq<Option<u64>>)
    ensures
        written(starts) == starts.filter(|x: Option<u64>| x is Some).len(),
    decreases starts.len(),
{
    reveal(Seq::filter);
    if starts.len() > 0 {
        lemma_written_counts(starts.drop_last());
    }
}

/// Whether a sample is a keyframe before the end of a video that is to be cut, from which as
/// many ticks are left as are asked for, and at least a second.
pub open spec fn leaves_enough(
    video: Seq<Placed>,
    v_total: int,
    vts: int,
    keep: Option<u64>,
    i: int,
) -> bool {
    &&& vts > 0 && v_total > vts
    &&& 0 <= i < video.len() && video[i].sync
    &&& video[i].at + vts <= v_total
    &&& keep matches Some(k) && v_total > k && video[i].at + k <= v_total
}

/// Whether a sample of the sound ends behind the start of a video that is cut, in seconds.
pub open spec fn ends_later(audio: Seq<Placed>, vts: int, ats: int, t: Start, i: int) -> bool {
    &&& t.v_skip > 0 && ats > 0
    &&& 0 <= i < audio.len()
    &&& (audio[i].at + audio[i].dur) * vts > t.v_origin * ats
}

/// Whether the video starts where it must: if a limit asks for less than there is, with the
/// last keyframe that leaves as many ticks as are asked for, and at least a second; in all
/// other cases with its first sample.
pub open spec fn cut_at_keyframe(
    video: Seq<Placed>,
    v_total: int,
    vts: int,
    keep: Option<u64>,
    t: Start,
) -> bool {
    &&& (exists|i: int| #[trigger] leaves_enough(video, v_total, vts, keep, i)) ==> leaves_enough(video, v_total, vts, keep, t.v_skip) && t.v_origin == video[t.v_skip].at
        && forall|j: int| t.v_skip < j ==> !#[trigger] leaves_enough(video, v_total, vts, keep, j)
    &&& (forall|i: int| !#[trigger] leaves_enough(video, v_total, vts, keep, i)) ==> t.v_skip == 0 && t.v_origin == 0
}

/// A video that is cut starts with the last keyframe from which the asked length is left.
pub proof fn law_cut_at_keyframe(
    video: Seq<Placed>,
    v_total: int,
    audio: Seq<Placed>,
    vts: int,
    ats: int,
    keep: Option<u64>,
)
    ensures
        cut_at_keyframe(
            video,
            v_total,
            vts,
            keep,
            trim_of(video, v_total, audio, vts, ats, keep),
        ),
{
    let t = trim_of(video, v_total, audio, vts, ats, keep);
    if let Some(k) = keep {
        let cut = cutoff(v_total, vts, k as int);
        lemma_last_keyframe(video, video.len() as int, cut);
        if vts > 0 && cut > 0 {
            assert forall|i: int| #[trigger] leaves_enough(video, v_total, vts, keep, i) implies 0 <= i < video.len() && video[i].sync
                && video[i].at <= cut by {}
            match last_keyframe(video, video.len() as int, cut) {
                Some(i) => {
                    assert(leaves_enough(video, v_total, vts, keep, i));
                },
                None => {
                    assert forall|i: int| !#[trigger] leaves_enough(video, v_total, vts, keep, i) by {}
                },
            }
        }
    }
    if exists|i: int| #[trigger] leaves_enough(video, v_total, vts, keep, i) {
        let i = choose|i: int| #[trigger] leaves_enough(video, v_total, vts, keep, i);
        assert(leaves_enough(video, v_total, vts, keep, t.v_skip));
    }
}

/// Whether the sound starts in step with a video that is cut: with the first sample that
/// ends behind the start of the video, in seconds, where there is one; with its first sample
/// where there is none, and where the video is not cut.
pub open spec fn sound_in_step(audio: Seq<Placed>, vts: int, ats: int, t: Start) -> bool {
    &&& (exists|i: int| #[trigger] ends_later(audio, vts, ats, t, i)) ==> ends_later(audio, vts, ats, t, t.a_skip) && t.a_origin == audio[t.a_skip].at
        && forall|j: int| 0 <= j < t.a_skip ==> !#[trigger] ends_later(audio, vts, ats, t, j)
    &&& (forall|i: int| !#[trigger] ends_later(audio, vts, ats, t, i)) ==> t.a_skip == 0 && t.a_origin == 0
}

/// Whatever the two timescales are, the sound of a video that is cut starts with the first
/// sample that is still heard when the video starts.
pub proof fn law_sound_in_step(
    video: Seq<Placed>,
    v_total: int,
    audio: Seq<Placed>,
    vts: int,
    ats: int,
    keep: Option<u64>,
)
    ensures
        sound_in_step(audio, vts, ats, trim_of(video, v_total, audio, vts, ats, keep)),
{
    let t = trim_of(video, v_total, audio, vts, ats, keep);
    lemma_first_reaching(audio, 0, ats, t.v_origin, vts);
    if t.v_skip > 0 && ats > 0 {
        match first_reaching(audio, 0, ats, t.v_origin, vts) {
            Some(i) => {
                assert(ends_later(audio, vts, ats, t, i));
            },
            None => {
                assert forall|i: int| !#[trigger] ends_later(audio, vts, ats, t, i) by {}
            },
        }
    }
}

/// The same of the segments that are joined, without further conditions: where the video is
/// cut and some sound ends behind its start, the first such sound becomes the first that is
/// heard, and all before it is left out.
pub proof fn law_joined_sound_in_step(
    video: Seq<Vec<Option<Head>>>,
    audio: Seq<Vec<Option<Head>>>,
    vts: int,
    ats: int,
    keep: Option<u64>,
    i: int,
)
    requires
        vts > 0,
        ats > 0,
        start_of(video, audio, vts, ats, keep).v_skip > 0,
        0 <= i < timeline(audio, audio.len() as int).len(),
        ({
            let a = timeline(audio, audio.len() as int)[i];
            (a.at + a.dur) * vts > start_of(video, audio, vts, ats, keep).v_origin * ats
        }),
    ensures
        ({
            let t = start_of(video, audio, vts, ats, keep);
            let a = timeline(audio, audio.len() as int);
            &&& 0 <= t.a_skip <= i
            &&& t.a_origin == a[t.a_skip].at
            &&& (a[t.a_skip].at + a[t.a_skip].dur) * vts > t.v_origin * ats
            &&& forall|j: int|
                0 <= j < t.a_skip ==> ((#[trigger] a[j]).at + a[j].dur) * vts <= t.v_origin * ats
        }),
{
    let t = start_of(video, audio, vts, ats, keep);
    let a = timeline(audio, audio.len() as int);
    lemma_first_reaching(a, 0, ats, t.v_origin, vts);
}

/// Each segment begins where the one before it ends, and the first at zero: a segment ends
/// with its last sample, and one without samples takes no time.
pub proof fn law_segments_follow(segs: Seq<Vec<Option<Head>>>, i: int)
    requires
        0 <= i < segs.len(),
    ensures
        base(segs, 0) == 0,
        segs[i]@.len() == 0 ==> base(segs, i + 1) == base(segs, i),
        segs[i]@.len() > 0 ==> (match segs[i]@.last() {
            Some(h) => base(segs, i + 1) == base(segs, i) + h.start + h.dur,
            None => base(segs, i + 1) == base(segs, i),
        }),
        total(segs) == base(segs, segs.len() as int),
{
}

/// In the joined timeline every sample stands behind those of all earlier segments, as far
/// from the start of its segment as it was in it, with its length and its keyframe mark.
pub proof fn law_samples_placed(segs: Seq<Vec<Option<Head>>>, n: int, i: int, k: int)
    requires
        0 <= i < n <= segs.len(),
        0 <= k < segs[i]@.len(),
        fits(segs, segs.len() as int),
    ensures
        timeline(segs, n).len() == sample_count(segs, n),
        0 <= sample_count(segs, i) + k < timeline(segs, n).len(),
        ({
            let p = timeline(segs, n)[sample_count(segs, i) + k];
            match segs[i]@[k] {
                Some(h) => p.present && p.at == base(segs, i) + h.start && p.dur == h.dur && p.sync
                    == h.sync,
                None => !p.present && !p.sync && p.dur == 0 && p.at == base(segs, i),
            }
        }),
    decreases n,
{
    lemma_timeline_len(segs, n);
    lemma_timeline_len(segs, n - 1);
    lemma_timeline_len(segs, i);
    lemma_base_at_least(segs, i);
    if i < n - 1 {
        law_samples_placed(segs, n - 1, i, k);
        let front = timeline(segs, n - 1);
        let at = (sample_count(segs, i) + k) as int;
        assert(timeline(segs, n)[at] == front[at]);
    } else {
        assert(base(segs, i + 1) <= u64::MAX);
        let h = head(segs[i]@[k]);
        assert(base(segs, i) + h.start <= u64::MAX);
    }
}

proof fn lemma_timeline_len(segs: Seq<Vec<Option<Head>>>, n: int)
    ensures
        timeline(segs, n).len() == sample_count(segs, n),
    decreases n,
{
    if n > 0 {
        lemma_timeline_len(segs, n - 1);
    }
}

/// What the joined file holds of each sample that could be read and is not left out: it
/// starts as much later than the start of the file as it stands behind it on the joined
/// timeline. The file is as long as what is left of the video.
pub proof fn law_joined_samples(
    p: MergePlan,
    t: Start,
    video: Seq<Vec<Option<Head>>>,
    audio: Seq<Vec<Option<Head>>>,
    vts: int,
    i: int,
    k: int,
)
    requires
        is_plan(p, t, video, audio, vts),
        joins(t, video, audio),
        0 <= t.v_origin,
        0 <= t.a_origin,
    ensures
        0 <= i < video.len() && 0 <= k < video[i]@.len() ==> (match video[i]@[k] {
            Some(h) => if sample_count(video, i) + k >= t.v_skip {
                p.video@[sample_count(video, i) + k] matches Some(s) && s + t.v_origin == base(
                    video,
                    i,
                ) + h.start
            } else {
                p.video@[sample_count(video, i) + k] is None
            },
            None => p.video@[sample_count(video, i) + k] is None,
        }),
        0 <= i < audio.len() && 0 <= k < audio[i]@.len() ==> (match audio[i]@[k] {
            Some(h) => if sample_count(audio, i) + k >= t.a_skip {
                p.audio@[sample_count(audio, i) + k] matches Some(s) && s + t.a_origin == base(
                    audio,
                    i,
                ) + h.start
            } else {
                p.audio@[sample_count(audio, i) + k] is None
            },
            None => p.audio@[sample_count(audio, i) + k] is None,
        }),
        p.video@.len() == sample_count(video, video.len() as int),
        p.audio@.len() == sample_count(audio, audio.len() as int),
        total(video) >= t.v_origin ==> p.info.duration == total(video) - t.v_origin,
        p.info.timescale == vts,
        p.info.video_samples == p.video@.filter(|x: Option<u64>| x is Some).len(),
        p.info.audio_samples == p.audio@.filter(|x: Option<u64>| x is Some).len(),
{
    lemma_timeline_len(video, video.len() as int);
    lemma_timeline_len(audio, audio.len() as int);
    lemma_written_counts(p.video@);
    lemma_written_counts(p.audio@);
    if 0 <= i < video.len() && 0 <= k < video[i]@.len() {
        law_samples_placed(video, video.len() as int, i, k);
        let at = (sample_count(video, i) + k) as int;
        let line = timeline(video, video.len() as int);
        if line[at].present && at >= t.v_skip {
            assert(line[at].at >= t.v_origin);
        }
    }
    if 0 <= i < audio.len() && 0 <= k < audio[i]@.len() {
        law_samples_placed(audio, audio.len() as int, i, k);
        let at = (sample_count(audio, i) + k) as int;
        let line = timeline(audio, audio.len() as int);
        if line[at].present && at >= t.a_skip {
            assert(line[at].at >= t.a_origin);
        }
    }
}

/// The track that is found is the first of its kind.
pub proof fn law_first_of(tracks: Seq<TrackDesc>, kind: TrackKind, from: int)
    requires
        0 <= from,
    ensures
        match first_of(tracks, kind, from) {
            Some(i) => from <= i < tracks.len() && tracks[i].kind == kind && forall|k: int|
                from <= k < i ==> (#[trigger] tracks[k]).kind != kind,
            None => forall|k: int| from <= k < tracks.len() ==> (#[trigger] tracks[k]).kind != kind,
        },
    decreases tracks.len() - from,
{
    if from < tracks.len() && tracks[from].kind != kind {
        law_first_of(tracks, kind, from + 1);
    }
}

/// The segment that does not go with the first one, in its ticks or in the parameters of the
/// codec, is the first such one; there is none if all go with it. The sound has the ticks of the
/// first segment that has sound.
pub proof fn law_joinable(segs: Seq<Segment>, at: int, k: int)
    requires
        0 < at <= segs.len(),
        forall|i: int|
            0 <= i < at ==> (#[trigger] segs[i]).timescale == segs[0].timescale && segs[i].sps@
                == segs[0].sps@,
        at < segs.len() ==> segs[at].timescale != segs[0].timescale || segs[at].sps@ != segs[0].sps@,
        0 <= k <= segs.len(),
        forall|i: int| 0 <= i < k ==> (#[trigger] segs[i]).audio_timescale is None,
        k < segs.len() ==> segs[k].audio_timescale is Some,
    ensures
        first_unlike(segs, 1) == if at < segs.len() {
            Some(at)
        } else {
            None
        },
        k < segs.len() ==> Some(audio_scale(segs) as u32) == segs[k].audio_timescale
            && audio_scale(segs) >= 0,
        k == segs.len() ==> audio_scale(segs) == 0,
{
    lemma_first_unlike(segs, 1, at);
    lemma_audio_scale(segs, k);
}

proof fn lemma_audio_scale(segs: Seq<Segment>, k: int)
    requires
        0 <= k <= segs.len(),
        forall|i: int| 0 <= i < k ==> (#[trigger] segs[i]).audio_timescale is None,
        k < segs.len() ==> segs[k].audio_timescale is Some,
    ensures
        k < segs.len() ==> audio_scale(segs) == segs[k].audio_timescale->0,
        k == segs.len() ==> audio_scale(segs) == 0,
    decreases k,
{
    if k > 0 {
        let rest = segs.drop_first();
        assert(segs[0].audio_timescale is None);
        assert forall|i: int| 0 <= i < k - 1 implies (#[trigger] rest[i]).audio_timescale is None by {
            assert(rest[i] == segs[i + 1]);
        }
        lemma_audio_scale(rest, k - 1);
    }
}

proof fn lemma_first_unlike(segs: Seq<Segment>, from: int, at: int)
    requires
        0 < from <= at <= segs.len(),
        forall|i: int|
            0 <= i < at ==> (#[trigger] segs[i]).timescale == segs[0].timescale && segs[i].sps@
                == segs[0].sps@,
        at < segs.len() ==> segs[at].timescale != segs[0].timescale || segs[at].sps@ != segs[0].sps@,
    ensures
        first_unlike(segs, from) == if at < segs.len() {
            Some(at)
        } else {
            None
        },
    decreases at - from,
{
    if from < at {
        assert(segs[from].timescale == segs[0].timescale);
        lemma_first_unlike(segs, from + 1, at);
    }
}

/// Nothing is made of no segment, one is moved as it is, and more are joined.
pub proof fn law_routes(count: usize, r: Result<Route, String>)
    requires
        call_ensures(remux_route, (count,), r),
    ensures
        r is Err <==> count == 0,
        r == Ok::<Route, String>(Route::Move) <==> count == 1,
        r == Ok::<Route, String>(Route::Join) <==> count > 1,
{
}

/// What is said of a file that was moved is what stands in it.
pub proof fn law_moved(info: &Mp4Info, r: RemuxInfo)
    requires
        call_ensures(moved_info, (info,), r),
    ensures
        r.duration == info.duration && r.timescale == info.timescale,
        info.video matches Some(v) ==> r.video_samples == v.samples,
        info.audio matches Some(a) ==> r.audio_samples == a.samples,
        info.audio is None ==> r.audio_samples == 0,
{
}

} // verus!
