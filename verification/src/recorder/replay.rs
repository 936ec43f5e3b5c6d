//! The instant replay: a rolling buffer of short segments, and saving it.
use vstd::prelude::*;

use crate::clock::{id_text, instant_text, new_id, now_rfc3339};
use crate::order::{law_names_sorted, sort_names, sorted_names};
use crate::recorder::history::RecHistoryItem;
use crate::recorder::params::{whole_screen, full_virtual_area, Params};
use crate::recorder::probe::{EncCand, Probe};
use crate::recorder::session::{
    make_prepared, make_start_note, prepared, sound_missing, start_note, ActiveReplay, Recorder,
};
use crate::screens::{on_screen, MonitorInfo};
use crate::settings::{clamped, is_normalized, AppSettings};
use crate::text::{before, decimal, decimal_text, ends, ends_with, join2, join3};

verus! {

/// The length of a segment of the buffer, in seconds.
pub const SEGMENT_S: u64 = 10;

/// How long the replay must have been on before it can be saved, in seconds.
pub const READY_S: u64 = 3;

/// Segments that are saved may be older than the replay is long by this much, in
/// seconds: a segment is as old as its end.
pub const SAVE_MARGIN_S: u64 = 12;

/// Segments stay in the buffer for this much longer than the replay is long, in
/// seconds.
pub const KEEP_MARGIN_S: u64 = 25;

/// How many seconds the replay lasts: as many as are set, from five to six hundred.
pub open spec fn replay_seconds(s: AppSettings) -> int {
    clamped(s.replay_duration as int, 5, 600)
}

impl Recorder {
    /// Whether the replay can be turned on.
    pub fn check_replay_start(&self) -> (r: Result<(), String>)
        ensures
            match self.replay {
                Some(_) => r matches Err(e) && e@ == "Instant Replay is already on."@,
                None => r is Ok,
            },
    {
        if self.replay.is_some() {
            Err("Instant Replay is already on.".to_string())
        } else {
            Ok(())
        }
    }

    /// Decides how the replay is recorded: always the whole screen.
    pub fn prepare_replay(&mut self, s: &AppSettings, probe: &Probe, ms: &Vec<MonitorInfo>) -> (r:
        Params)
        requires
            on_screen(ms@),
        ensures
            prepared(r, *s, *probe, whole_screen(ms@), true, true),
            final(self).rec == old(self).rec,
            final(self).replay == old(self).replay,
            final(self).last_message@ == if sound_missing(r, *s, true) {
                "Audio capture is unavailable — replay video only."@
            } else {
                old(self).last_message@
            },
    {
        let area = full_virtual_area(ms);
        let (p, missing) = make_prepared(s, probe, area, true, true);
        if missing {
            self.note("Audio capture is unavailable — replay video only.");
        }
        p
    }

    /// The encoder runs: the replay is on.
    pub fn replay_started(
        &mut self,
        params: Params,
        first: &EncCand,
        wanted_audio: &str,
        segdir: String,
        s: &AppSettings,
        now: u64,
    )
        ensures
            final(self).replay matches Some(r) && r.running && r.segdir == segdir && r.started_at
                == now && r.duration_s == clamped(s.replay_duration as int, 5, 600) && r.duration_s
                == replay_seconds(*s) && r.params == params,
            final(self).rec == old(self).rec,
            final(self).last_message@ == (match start_note(
                params,
                first.name@,
                first.label@,
                wanted_audio@,
                "Audio capture failed — replay video only."@,
            ) {
                Some(m) => m,
                None => old(self).last_message@,
            }),
    {
        match make_start_note(
            &params,
            first,
            wanted_audio,
            "Audio capture failed — replay video only.",
        ) {
            Some(m) => {
                self.note(m.as_str());
            },
            None => {},
        }
        let duration_s: u64 = if s.replay_duration < 5 {
            5
        } else if s.replay_duration > 600 {
            600
        } else {
            s.replay_duration
        };
        self.replay = Some(
            ActiveReplay { running: true, segdir, started_at: now, duration_s, params },
        );
    }

    /// Turns the replay off, and hands it out.
    pub fn take_replay(&mut self) -> (r: Result<ActiveReplay, String>)
        ensures
            match old(self).replay {
                Some(a) => r == Ok::<ActiveReplay, String>(a),
                None => r matches Err(e) && e@ == "Instant Replay is off."@,
            },
            final(self).replay is None,
            final(self).rec == old(self).rec,
            final(self).last_message == old(self).last_message,
    {
        match self.replay.take() {
            Some(a) => Ok(a),
            None => Err("Instant Replay is off.".to_string()),
        }
    }

    /// Whether the replay can be saved: it must be on, and have been for some
    /// seconds.
    pub fn check_replay_save(&self, now: u64) -> (r: Result<(), String>)
        ensures
            match self.replay {
                None => r matches Err(e) && e@ == "Instant Replay is off. Enable it first."@,
                Some(a) => if a.ready(now) < READY_S {
                    r matches Err(e) && e@
                        == "Instant Replay is not ready yet. Please wait a few seconds. / انتظر بضع ثوانٍ حتى يجهز."@
                } else {
                    r is Ok
                },
            },
    {
        match &self.replay {
            None => Err("Instant Replay is off. Enable it first.".to_string()),
            Some(a) => if a.ready_s(now) < READY_S {
                Err(
                    "Instant Replay is not ready yet. Please wait a few seconds. / انتظر بضع ثوانٍ حتى يجهز.".to_string(),
                )
            } else {
                Ok(())
            },
        }
    }

    /// The encoder runs again after the replay was saved: the buffer goes on
    /// rolling, with the same length.
    pub fn replay_restarted(&mut self, params: Params, segdir: String, duration_s: u64, now: u64)
        ensures
            final(self).replay matches Some(r) && r.running && r.segdir == segdir && r.started_at
                == now && r.duration_s == duration_s && r.params == params,
            final(self).rec == old(self).rec,
            final(self).last_message == old(self).last_message,
    {
        self.replay = Some(
            ActiveReplay { running: true, segdir, started_at: now, duration_s, params },
        );
    }

    /// What came of saving the replay, and of starting the buffer again. That it
    /// could not be saved is an error; that the buffer did not start again is told.
    pub fn replay_saved(&mut self, saved: Result<(), String>, restarted: Result<(), String>) -> (r:
        Result<(), String>)
        ensures
            final(self).rec == old(self).rec,
            final(self).replay == old(self).replay,
            match saved {
                Err(e) => r == Err::<(), String>(e) && final(self).last_message@ == e@,
                Ok(_) => r is Ok && final(self).last_message@ == (match restarted {
                    Err(e) => "Replay saved, but buffer restart failed: "@ + e@,
                    Ok(_) => old(self).last_message@,
                }),
            },
    {
        match saved {
            Err(e) => {
                self.note(e.as_str());
                Err(e)
            },
            Ok(_) => {
                match restarted {
                    Err(e) => {
                        let m = join2("Replay saved, but buffer restart failed: ", e.as_str());
                        self.note(m.as_str());
                    },
                    Ok(_) => {},
                }
                Ok(())
            },
        }
    }
}

/// What the user is told when the replay is on.
pub fn replay_notice(duration_s: u64) -> (r: String)
    ensures
        r@ == "Buffering last "@ + decimal(duration_s as nat) + "s. Press Ctrl+Shift+I to save."@,
{
    let d = decimal_text(duration_s);
    join3("Buffering last ", d.as_str(), "s. Press Ctrl+Shift+I to save.")
}

// ---- segments ----

/// A file of the buffer: its name, and when it was last written, in nanoseconds
/// since the beginning of 1970.
pub struct SegmentFile {
    pub name: String,
    pub modified_ns: u64,
}

/// Whether a file is a segment, by its name.
pub open spec fn is_segment_name(name: Seq<char>) -> bool {
    name.len() > 4 && ends(name, ".mp4"@)
}

/// Whether a file is a segment, by its name.
pub fn is_segment(name: &str) -> (r: bool)
    ensures
        r == is_segment_name(name@),
{
    name.unicode_len() > 4 && ends_with(name, ".mp4")
}

/// Whether a file was written at most `seconds` before `now_ns`.
pub open spec fn written_within(f: SegmentFile, now_ns: u64, seconds: int) -> bool {
    f.modified_ns >= now_ns - seconds * 1_000_000_000
}

fn is_recent(f: &SegmentFile, now_ns: u64, duration_s: u64, margin_s: u64) -> (r: bool)
    ensures
        r == written_within(*f, now_ns, duration_s + margin_s),
{
    let age: u128 = (duration_s as u128 + margin_s as u128) * 1_000_000_000;
    f.modified_ns as u128 + age >= now_ns as u128
}

/// The names of those of the first `n` files that are segments recent enough to be
/// saved.
pub open spec fn recent(files: Seq<SegmentFile>, now_ns: u64, duration_s: u64, n: int) -> Seq<String>
    decreases n,
{
    if n <= 0 {
        seq![]
    } else if is_segment_name(files[n - 1].name@) && written_within(
        files[n - 1],
        now_ns,
        duration_s + SAVE_MARGIN_S,
    ) {
        recent(files, now_ns, duration_s, n - 1).push(files[n - 1].name)
    } else {
        recent(files, now_ns, duration_s, n - 1)
    }
}

/// Chooses the segments that make up the last seconds, in the order of their
/// names. It is an error if there are none.
pub fn segments_to_save(files: &Vec<SegmentFile>, now_ns: u64, duration_s: u64) -> (r: Result<
    Vec<String>,
    String,
>)
    ensures
        ({
            let chosen = recent(files@, now_ns, duration_s, files@.len() as int);
            if chosen.len() == 0 {
                r matches Err(e) && e@
                    == "Instant Replay is not ready yet. Please wait a few seconds."@
            } else {
                r matches Ok(v) && v@ == sorted_names(chosen)
            }
        }),
        r matches Ok(v) ==> saved_exactly(files@, now_ns, duration_s, v@),
        r is Err ==> forall|i: int|
            0 <= i < files@.len() && named_mp4((#[trigger] files@[i]).name@)
                ==> files@[i].modified_ns + (duration_s + 12) * 1_000_000_000 < now_ns,
{
    let mut out: Vec<String> = Vec::new();
    let mut i: usize = 0;
    while i < files.len()
        invariant
            i <= files.len(),
            out@ == recent(files@, now_ns, duration_s, i as int),
        decreases files.len() - i,
    {
        if is_segment(files[i].name.as_str()) && is_recent(
            &files[i],
            now_ns,
            duration_s,
            SAVE_MARGIN_S,
        ) {
            out.push(files[i].name.clone());
        }
        i = i + 1;
    }
    proof {
        law_saved_exactly(files@, now_ns, duration_s);
    }
    if out.len() == 0 {
        return Err("Instant Replay is not ready yet. Please wait a few seconds.".to_string());
    }
    sort_names(&mut out);
    Ok(out)
}

/// Whether a file leaves the buffer: a segment that is older than the replay is
/// long, with a margin.
pub fn leaves_buffer(f: &SegmentFile, now_ns: u64, duration_s: u64) -> (r: bool)
    ensures
        r == (is_segment_name(f.name@) && !written_within(*f, now_ns, duration_s + KEEP_MARGIN_S)),
        r == (named_mp4(f.name@) && f.modified_ns + (duration_s + 25) * 1_000_000_000 < now_ns),
{
    proof {
        lemma_segment_name(f.name@);
    }
    is_segment(f.name.as_str()) && !is_recent(f, now_ns, duration_s, KEEP_MARGIN_S)
}

/// The entry of a replay that was saved at `out`, under `name`.
pub fn replay_item_at(
    a: &ActiveReplay,
    id: String,
    created_at: String,
    name: &str,
    out: &str,
    size: u64,
    now: u64,
) -> (r: RecHistoryItem)
    ensures
        r.id == id,
        r.created_at == created_at,
        r.name@ == name@,
        r.path@ == out@,
        r.duration_s == if a.duration_s <= a.ready(now) {
            a.duration_s as int
        } else {
            a.ready(now)
        },
        r.width == a.params.out_w,
        r.height == a.params.out_h,
        r.fps == a.params.fps,
        r.size == size,
        r.kind@ == "replay"@,
{
    let ready: u64 = a.ready_s(now);
    RecHistoryItem {
        id,
        name: name.to_string(),
        path: out.to_string(),
        created_at,
        duration_s: if a.duration_s <= ready {
            a.duration_s
        } else {
            ready
        },
        width: a.params.out_w,
        height: a.params.out_h,
        fps: a.params.fps,
        size,
        kind: "replay".to_string(),
    }
}

/// The entry of a replay that was saved at `out`, under `name`, with the date and a
/// fresh identity.
pub fn replay_item(a: &ActiveReplay, name: &str, out: &str, size: u64, now: u64) -> (r:
    RecHistoryItem)
    ensures
        id_text(r.id@),
        instant_text(r.created_at@),
        r.name@ == name@,
        r.path@ == out@,
        r.duration_s == if a.duration_s <= a.ready(now) {
            a.duration_s as int
        } else {
            a.ready(now)
        },
        r.width == a.params.out_w,
        r.height == a.params.out_h,
        r.fps == a.params.fps,
        r.size == size,
        r.kind@ == "replay"@,
{
    replay_item_at(a, new_id(), now_rfc3339(), name, out, size, now)
}

/// What is saved has not left the buffer: a segment that would be saved now is
/// never one that would be deleted now.
pub proof fn law_saved_segments_are_kept(f: SegmentFile, now_ns: u64, duration_s: u64)
    requires
        f.modified_ns + (duration_s + 12) * 1_000_000_000 >= now_ns,
    ensures
        written_within(f, now_ns, duration_s + KEEP_MARGIN_S),
{
}

/// Saving covers the whole replay: every segment written in the last `duration_s`
/// seconds is among those saved.
pub proof fn law_replay_is_covered(
    files: Seq<SegmentFile>,
    now_ns: u64,
    duration_s: u64,
    n: int,
    i: int,
)
    requires
        0 <= i < n <= files.len(),
        named_mp4(files[i].name@),
        files[i].modified_ns + duration_s * 1_000_000_000 >= now_ns,
    ensures
        recent(files, now_ns, duration_s, n).contains(files[i].name),
    decreases n,
{
    lemma_segment_name(files[i].name@);
    let all = recent(files, now_ns, duration_s, n);
    if i < n - 1 {
        law_replay_is_covered(files, now_ns, duration_s, n - 1, i);
        let front = recent(files, now_ns, duration_s, n - 1);
        let k = choose|k: int| 0 <= k < front.len() && front[k] == files[i].name;
        assert(all[k] == files[i].name);
    } else {
        assert(all[all.len() - 1] == files[i].name);
    }
}

/// Whether a name ends with `.mp4` and has something before that.
pub open spec fn named_mp4(name: Seq<char>) -> bool {
    let n = name.len();
    n > 4 && name[n - 4] == '.' && name[n - 3] == 'm' && name[n - 2] == 'p' && name[n - 1] == '4'
}

proof fn lemma_segment_name(name: Seq<char>)
    ensures
        is_segment_name(name) == named_mp4(name),
{
    reveal_strlit(".mp4");
    assert(".mp4"@ =~= seq!['.', 'm', 'p', '4']);
    if name.len() > 4 {
        let t = name.subrange(name.len() - 4, name.len() as int);
        assert(t.len() == 4);
        assert(t[0] == name[name.len() - 4] && t[1] == name[name.len() - 3]);
        assert(t[2] == name[name.len() - 2] && t[3] == name[name.len() - 1]);
        if named_mp4(name) {
            assert(t =~= ".mp4"@);
        }
    }
}

/// Whether a name is that of a segment that was written in the last seconds of the replay
/// or in the twelve seconds before them.
pub open spec fn of_late(
    files: Seq<SegmentFile>,
    now_ns: u64,
    duration_s: u64,
    name: String,
) -> bool {
    exists|i: int|
        0 <= i < files.len() && (#[trigger] files[i]).name == name && named_mp4(files[i].name@)
            && files[i].modified_ns + (duration_s + 12) * 1_000_000_000 >= now_ns
}

/// Whether the names in `saved` are those of just the segments that were written in the
/// last seconds of the replay or in the twelve seconds before them, in the order of their
/// texts, and none twice unless two files have it.
pub open spec fn saved_exactly(
    files: Seq<SegmentFile>,
    now_ns: u64,
    duration_s: u64,
    saved: Seq<String>,
) -> bool {
    &&& forall|i: int|
        0 <= i < files.len() && named_mp4((#[trigger] files[i]).name@) && files[i].modified_ns + (
        duration_s + 12) * 1_000_000_000 >= now_ns ==> saved.contains(files[i].name)
    &&& forall|k: int|
        0 <= k < saved.len() ==> of_late(files, now_ns, duration_s, #[trigger] saved[k])
    &&& forall|k: int, m: int|
        0 <= k <= m < saved.len() ==> !before((#[trigger] saved[m])@, (#[trigger] saved[k])@)
    &&& (forall|i: int, j: int|
        0 <= i < j < files.len() ==> (#[trigger] files[i]).name != (#[trigger] files[j]).name)
        ==> saved.no_duplicates()
}

proof fn lemma_recent(files: Seq<SegmentFile>, now_ns: u64, duration_s: u64, n: int)
    requires
        0 <= n <= files.len(),
    ensures
        ({
            let all = recent(files, now_ns, duration_s, n);
            &&& forall|i: int|
                0 <= i < n && named_mp4((#[trigger] files[i]).name@) && files[i].modified_ns + (
                duration_s + 12) * 1_000_000_000 >= now_ns ==> all.contains(files[i].name)
            &&& forall|k: int|
                0 <= k < all.len() ==> of_late(
                    files.take(n),
                    now_ns,
                    duration_s,
                    #[trigger] all[k],
                )
            &&& (forall|i: int, j: int|
                0 <= i < j < files.len() ==> (#[trigger] files[i]).name != (
                #[trigger] files[j]).name) ==> all.no_duplicates()
        }),
    decreases n,
{
    if n > 0 {
        lemma_recent(files, now_ns, duration_s, n - 1);
        let f = files[n - 1];
        lemma_segment_name(f.name@);
        let front = recent(files, now_ns, duration_s, n - 1);
        let all = recent(files, now_ns, duration_s, n);
        assert forall|i: int|
            0 <= i < n && named_mp4((#[trigger] files[i]).name@) && files[i].modified_ns + (
            duration_s + 12) * 1_000_000_000 >= now_ns implies all.contains(files[i].name) by {
            if i < n - 1 {
                let k = choose|k: int| 0 <= k < front.len() && front[k] == files[i].name;
                assert(all[k] == files[i].name);
            } else {
                assert(all[all.len() - 1] == files[i].name);
            }
        }
        assert forall|k: int| 0 <= k < all.len() implies of_late(
            files.take(n),
            now_ns,
            duration_s,
            #[trigger] all[k],
        ) by {
            if k < front.len() {
                assert(all[k] == front[k]);
                let i = choose|i: int|
                    0 <= i < n - 1 && (#[trigger] files.take(n - 1)[i]).name == front[k]
                        && named_mp4(files.take(n - 1)[i].name@) && files.take(n - 1)[i].modified_ns
                        + (duration_s + 12) * 1_000_000_000 >= now_ns;
                assert(files.take(n)[i] == files.take(n - 1)[i]);
            } else {
                assert(files.take(n)[n - 1].name == all[k]);
            }
        }
        if forall|i: int, j: int|
            0 <= i < j < files.len() ==> (#[trigger] files[i]).name != (#[trigger] files[j]).name {
            assert forall|k: int, m: int| 0 <= k < m < all.len() implies all[k] != all[m] by {
                assert(all[k] == front[k]);
                if m == front.len() {
                    assert(of_late(files.take(n - 1), now_ns, duration_s, front[k]));
                    let i = choose|i: int|
                        0 <= i < n - 1 && (#[trigger] files.take(n - 1)[i]).name == front[k];
                    assert(files[i].name != files[n - 1].name);
                } else {
                    assert(all[m] == front[m]);
                }
            }
            assert forall|k: int, m: int|
                0 <= k < all.len() && 0 <= m < all.len() && k != m implies all[k] != all[m] by {
                if m < k {
                    assert(all[m] != all[k]);
                }
            }
        }
    }
}

/// A replay of any length is saved whole, and nothing else is: a file is saved if and only
/// if it is a segment that was last written no earlier than twelve seconds before the replay
/// begins.
pub proof fn law_saved_exactly(files: Seq<SegmentFile>, now_ns: u64, duration_s: u64)
    ensures
        saved_exactly(
            files,
            now_ns,
            duration_s,
            sorted_names(recent(files, now_ns, duration_s, files.len() as int)),
        ),
        recent(files, now_ns, duration_s, files.len() as int).len() == 0 <==> forall|i: int|
            0 <= i < files.len() && named_mp4((#[trigger] files[i]).name@)
                ==> files[i].modified_ns + (duration_s + 12) * 1_000_000_000 < now_ns,
{
    let chosen = recent(files, now_ns, duration_s, files.len() as int);
    let saved = sorted_names(chosen);
    lemma_recent(files, now_ns, duration_s, files.len() as int);
    law_names_sorted(chosen);
    lemma_same_names(chosen, saved);
    assert(files.take(files.len() as int) =~= files);
    assert forall|k: int| 0 <= k < saved.len() implies of_late(
        files,
        now_ns,
        duration_s,
        #[trigger] saved[k],
    ) by {
        assert(saved.contains(saved[k]));
        let m = choose|m: int| 0 <= m < chosen.len() && chosen[m] == saved[k];
        assert(chosen[m] == saved[k]);
    }
    if chosen.len() > 0 {
        assert(of_late(files, now_ns, duration_s, chosen[0]));
    }
}

proof fn lemma_same_names(a: Seq<String>, b: Seq<String>)
    requires
        b.to_multiset() == a.to_multiset(),
    ensures
        forall|x: String| a.contains(x) <==> b.contains(x),
        a.no_duplicates() ==> b.no_duplicates(),
{
    broadcast use vstd::seq_lib::group_to_multiset_ensures;

    assert forall|x: String| a.contains(x) <==> b.contains(x) by {
        assert(a.contains(x) <==> a.to_multiset().count(x) > 0);
        assert(b.contains(x) <==> b.to_multiset().count(x) > 0);
    }
    if a.no_duplicates() {
        a.lemma_multiset_has_no_duplicates();
        b.lemma_multiset_has_no_duplicates_conv();
    }
}

/// The buffer and what is saved of it, in seconds: a segment is deleted when it was last
/// written more than twenty-five seconds before the replay begins, so what is saved is never
/// deleted before.
pub proof fn law_buffer_outlives_replay(f: SegmentFile, now_ns: u64, duration_s: u64)
    requires
        named_mp4(f.name@),
    ensures
        is_segment_name(f.name@) && !written_within(f, now_ns, duration_s + KEEP_MARGIN_S)
            <==> f.modified_ns + (duration_s + 25) * 1_000_000_000 < now_ns,
{
    lemma_segment_name(f.name@);
}

/// The replay lasts as long as it is set to, but no less than five seconds and no more than ten
/// minutes; saving it asks for three seconds of it.
pub proof fn law_replay_margins()
    ensures
        SEGMENT_S == 10,
        READY_S == 3,
        SEGMENT_S < SAVE_MARGIN_S,
        SAVE_MARGIN_S + SEGMENT_S < KEEP_MARGIN_S,
        SAVE_MARGIN_S == 12 && KEEP_MARGIN_S == 25,
{
}

/// What the list says of how long a saved replay is, is never more than the replay was on, nor
/// more than it was set to last; and it is one of the two.
pub proof fn law_replay_length(
    a: &ActiveReplay,
    id: String,
    created_at: String,
    name: &str,
    out: &str,
    size: u64,
    now: u64,
    r: RecHistoryItem,
)
    requires
        call_ensures(replay_item_at, (a, id, created_at, name, out, size, now), r),
        now >= a.started_at,
    ensures
        r.duration_s <= a.duration_s,
        1000 * r.duration_s <= now - a.started_at,
        r.duration_s < a.duration_s ==> now - a.started_at < 1000 * (r.duration_s + 1),
        r.path@ == out@ && r.name@ == name@ && r.kind@ == "replay"@ && r.size == size,
{
}

/// The replay can be turned on where it is off, and saved once it has been on for three seconds.
pub proof fn law_replay_checks(
    rec: &Recorder,
    now: u64,
    start: Result<(), String>,
    save: Result<(), String>,
)
    requires
        call_ensures(Recorder::check_replay_start, (rec,), start),
        call_ensures(Recorder::check_replay_save, (rec, now), save),
    ensures
        start is Ok <==> rec.replay is None,
        save is Ok <==> (rec.replay matches Some(r) && now >= r.started_at + 3000),
{
}

/// The replay lasts as long as it is set to, where that is from five seconds to ten minutes, and
/// else as long as the settings that are loaded say.
pub proof fn law_replay_seconds(s: AppSettings, r: AppSettings)
    requires
        is_normalized(r, s),
    ensures
        5 <= replay_seconds(s) <= 10 * 60,
        5 <= s.replay_duration <= 10 * 60 ==> replay_seconds(s) == s.replay_duration,
        s.replay_duration < 5 ==> replay_seconds(s) == 5,
        replay_seconds(s) == r.replay_duration && replay_seconds(r) == r.replay_duration,
{
}

} // verus!
