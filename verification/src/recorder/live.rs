//! What a running encoder tells of itself.
use vstd::prelude::*;
use vstd::utf8::{encode_utf8, is_char_boundary};

use crate::text::{
    char_at, contains, decimal, find_char, find_chars, from_chars, holds, is_space, is_white, join2,
    join3, law_first_char, law_first_place, law_number_reads_back, law_trimmed, lowercase, number, parse_number,
    place_of, same, to_chars, to_lowercase, trim, trim_range, trimmed,
};

verus! {

/// What is known of a running recording.
pub struct LiveStats {
    /// Frames of the part that is being recorded.
    pub frames: u64,
    /// Frames of the parts before it.
    pub frames_base: u64,
    pub size_bytes: u64,
    /// The last that the encoder said of errors.
    pub err_tail: String,
}

impl LiveStats {
    /// Nothing known yet.
    pub fn new() -> (r: Self)
        ensures
            r.frames == 0,
            r.frames_base == 0,
            r.size_bytes == 0,
            r.err_tail@.len() == 0,
    {
        LiveStats { frames: 0, frames_base: 0, size_bytes: 0, err_tail: String::new() }
    }
}

// ---- progress reports ----

/// The key and the value of a report such as `frame=12`, without the white space
/// around them.
pub open spec fn report(line: Seq<char>) -> Option<(Seq<char>, Seq<char>)> {
    let t = trimmed(line);
    match char_at(t, '=', 0) {
        Some(i) => Some((trimmed(t.subrange(0, i)), trimmed(t.subrange(i + 1, t.len() as int)))),
        None => None,
    }
}

/// Splits a report.
pub fn split_report(line: &str) -> (r: Option<(String, String)>)
    ensures
        match r {
            Some(p) => report(line@) == Some((p.0@, p.1@)),
            None => report(line@) is None,
        },
{
    let t = trim(line);
    let v = to_chars(t.as_str());
    match find_char(&v, '=', 0) {
        Some(i) => Some((trim_range(&v, 0, i), trim_range(&v, i + 1, v.len()))),
        None => None,
    }
}

/// The number in a report, or the old one where it is none.
pub open spec fn reported(line: Seq<char>, key: Seq<char>, old_value: int) -> int {
    match report(line) {
        Some(kv) if kv.0 == key => match number(kv.1, u64::MAX as int) {
            Some(n) => n as int,
            None => old_value,
        },
        _ => old_value,
    }
}

/// Whether `after` is what is known after a line of the progress reports: the number of frames
/// and the size are told by lines of their own, and nothing else changes.
pub open spec fn is_progress(before: LiveStats, line: Seq<char>, after: LiveStats) -> bool {
    &&& after.frames == reported(line, "frame"@, before.frames as int)
    &&& after.size_bytes == reported(line, "total_size"@, before.size_bytes as int)
    &&& after.frames_base == before.frames_base
    &&& after.err_tail == before.err_tail
}

/// Takes note of a line of the progress reports. The rate of frames, which is a
/// fraction, is returned as text.
pub fn on_progress(live: &mut LiveStats, line: &str) -> (r: Option<String>)
    ensures
        final(live).frames == reported(line@, "frame"@, old(live).frames as int),
        final(live).size_bytes == reported(line@, "total_size"@, old(live).size_bytes as int),
        final(live).frames_base == old(live).frames_base,
        final(live).err_tail == old(live).err_tail,
        is_progress(*old(live), line@, *final(live)),
        match r {
            Some(v) => report(line@) == Some(("fps"@, v@)),
            None => !(report(line@) matches Some(kv) && kv.0 == "fps"@),
        },
{
    proof {
        reveal_strlit("frame");
        reveal_strlit("fps");
        reveal_strlit("total_size");
        assert("frame"@.len() == 5 && "fps"@.len() == 3 && "total_size"@.len() == 10);
    }
    let (key, value) = split_report(line)?;
    if same(key.as_str(), "frame") {
        if let Some(n) = parse_number(value.as_str(), u64::MAX) {
            live.frames = n;
        }
    } else if same(key.as_str(), "fps") {
        return Some(value);
    } else if same(key.as_str(), "total_size") {
        if let Some(n) = parse_number(value.as_str(), u64::MAX) {
            live.size_bytes = n;
        }
    }
    None
}

// ---- errors ----

/// How many bytes of what the encoder says of errors are kept.
pub const TAIL_BYTES: usize = 3000;

/// What the encoder has said of errors, with one more line.
pub open spec fn with_line(tail: Seq<char>, line: Seq<char>) -> Seq<char> {
    tail + line + "\n"@
}

/// Adds a line to what the encoder has said of errors, of which the last bytes are
/// kept. Nothing where the cut would go through a character.
pub fn tail_with(tail: &str, line: &str) -> (r: Option<String>)
    ensures
        ({
            let all = encode_utf8(with_line(tail@, line@));
            if all.len() <= TAIL_BYTES {
                r matches Some(t) && t@ == with_line(tail@, line@)
            } else if is_char_boundary(all, all.len() - TAIL_BYTES) {
                r matches Some(t) && encode_utf8(t@) == all.skip(all.len() - TAIL_BYTES)
            } else {
                r is None
            }
        }),
        r matches Some(t) ==> encode_utf8(t@).len() <= TAIL_BYTES,
{
    let whole = join3(tail, line, "\n");
    let s = whole.as_str();
    let bytes = s.as_bytes();
    let n: usize = bytes.len();
    if n <= TAIL_BYTES {
        return Some(whole);
    }
    if !s.is_char_boundary(n - TAIL_BYTES) {
        return None;
    }
    let (_, end) = s.split_at(n - TAIL_BYTES);
    Some(end.to_string())
}

/// The last `n` characters, or all.
pub open spec fn last_chars(s: Seq<char>, n: int) -> Seq<char> {
    if s.len() <= n {
        s
    } else {
        s.skip(s.len() - n)
    }
}

/// What the encoder said last of errors: about 400 characters.
pub fn short_tail(err_tail: &str) -> (r: String)
    ensures
        r@ == trimmed(last_chars(trimmed(err_tail@), 400)),
{
    let t = trim(err_tail);
    let v = to_chars(t.as_str());
    let from: usize = if v.len() <= 400 {
        0
    } else {
        v.len() - 400
    };
    assert(v@.subrange(from as int, v@.len() as int) =~= last_chars(v@, 400));
    trim_range(&v, from, v.len())
}

/// Whether an error says that the picture cannot be encoded.
pub open spec fn is_video_error(tail: Seq<char>) -> bool {
    let l = lowercase(tail);
    holds(l, "could not open encoder"@) || holds(l, "error initializing output stream 0:0"@)
        || holds(l, "no nvenc"@) || holds(l, "nvenc"@)
}

/// Whether an error says that the picture cannot be encoded.
pub fn video_broken(tail: &str) -> (r: bool)
    ensures
        r == is_video_error(tail@),
{
    let l = to_lowercase(tail);
    let t = l.as_str();
    contains(t, "could not open encoder") || contains(t, "error initializing output stream 0:0")
        || contains(t, "no nvenc") || contains(t, "nvenc")
}

// ---- loudness ----

/// What `char::is_numeric` says of a character that is not ASCII.
pub uninterp spec fn unicode_numeric(c: char) -> bool;

/// Whether a character is a digit: of ASCII the decimal digits, and else those of which
/// `char::is_numeric` says so.
pub open spec fn numeric(c: char) -> bool {
    if c as int <= 0x7f {
        '0' <= c <= '9'
    } else {
        unicode_numeric(c)
    }
}

/// Calls `char::is_numeric`. Of the ASCII characters it is true of the decimal digits
/// only; of others the answer is a function of the character.
#[verifier::external_body]
fn is_numeric(c: char) -> (r: bool)
    ensures
        r == numeric(c),
        c as int > 0x7f ==> r == unicode_numeric(c),
{
    c.is_numeric()
}

/// Whether a character can stand in the number of a meter.
pub open spec fn in_number(c: char) -> bool {
    numeric(c) || c == '.' || c == '-'
}

/// The end of the number that starts at `from`.
pub open spec fn number_end(s: Seq<char>, from: int) -> int
    decreases s.len() - from,
{
    if from < 0 || from >= s.len() || !in_number(s[from]) {
        from
    } else {
        number_end(s, from + 1)
    }
}

/// The first place from `from` on that holds no white space.
pub open spec fn past_white(s: Seq<char>, from: int) -> int
    decreases s.len() - from,
{
    if from < 0 || from >= s.len() || !is_white(s[from]) {
        from
    } else {
        past_white(s, from + 1)
    }
}

/// The text of the loudness in a line of the meters: the number behind `M:`.
pub open spec fn loudness(line: Seq<char>) -> Option<Seq<char>> {
    if holds(line, "ebur128_"@) {
        match place_of(line, "M:"@, 0) {
            Some(i) => {
                let k = past_white(line, i + 2);
                Some(line.subrange(k, number_end(line, k)))
            },
            None => None,
        }
    } else {
        None
    }
}

/// Whether a line of the meters is about what is played: the first meter where
/// both sounds are recorded, else the only one.
pub open spec fn is_system_meter(line: Seq<char>, has_sys: bool, has_mic: bool) -> bool {
    if has_sys && has_mic {
        !holds(line, "ebur128_1"@)
    } else {
        has_sys
    }
}

/// A reading of a meter: the text of the loudness, and whether it is that of what
/// is played.
pub struct Reading {
    pub text: String,
    pub is_sys: bool,
}

/// Reads a line of the meters.
pub fn meter_reading(line: &str, has_sys: bool, has_mic: bool) -> (r: Option<Reading>)
    ensures
        match r {
            Some(m) => loudness(line@) == Some(m.text@) && m.is_sys == is_system_meter(
                line@,
                has_sys,
                has_mic,
            ),
            None => loudness(line@) is None,
        },
{
    if !contains(line, "ebur128_") {
        return None;
    }
    let v = to_chars(line);
    let p = to_chars("M:");
    proof {
        reveal_strlit("M:");
        assert("M:"@.len() == 2);
    }
    let at: usize = find_chars(&v, &p, 0)?;
    let mut from: usize = at + 2;
    while from < v.len() && is_space(v[from])
        invariant
            at + 2 <= from <= v.len(),
            past_white(v@, at + 2) == past_white(v@, from as int),
        decreases v.len() - from,
    {
        from = from + 1;
    }
    let mut end: usize = from;
    while end < v.len() && (is_numeric(v[end]) || v[end] == '.' || v[end] == '-')
        invariant
            from <= end <= v.len(),
            number_end(v@, from as int) == number_end(v@, end as int),
        decreases v.len() - end,
    {
        end = end + 1;
    }
    let is_sys: bool = if has_sys && has_mic {
        !contains(line, "ebur128_1")
    } else {
        has_sys
    };
    Some(Reading { text: from_chars(&v, from, end), is_sys })
}

// ---- starting up ----

/// Milliseconds between two looks at a program that starts up.
pub const POLL_MS: u64 = 200;

/// How long a program is watched when it starts up, in milliseconds.
pub fn startup_ms(segmented: bool) -> (r: u64)
    ensures
        r == if segmented {
            2000int
        } else {
            1500
        },
{
    if segmented {
        2000
    } else {
        1500
    }
}

/// What to do next with a program that starts up.
#[derive(PartialEq, Eq, Structural, Clone, Copy)]
pub enum Watch {
    /// Wait, then look again.
    Wait,
    /// It runs.
    Alive,
    /// It has ended.
    Dead,
}

/// Decides, after `waited` milliseconds, of a program that is watched for `ms`. It
/// is dead as soon as it is seen not to run, and alive if it still runs at the end.
/// A program is not looked at before the first wait, unless there is none.
pub fn watch(waited: u64, ms: u64, running: bool) -> (r: Watch)
    ensures
        r == if waited == 0 && ms > 0 {
            Watch::Wait
        } else if !running {
            Watch::Dead
        } else if waited < ms {
            Watch::Wait
        } else {
            Watch::Alive
        },
{
    if waited == 0 && ms > 0 {
        Watch::Wait
    } else if !running {
        Watch::Dead
    } else if waited < ms {
        Watch::Wait
    } else {
        Watch::Alive
    }
}

/// What to tell the user when nothing could be started.
pub fn start_error(last_err: &str) -> (r: String)
    ensures
        r@ == if last_err@.len() == 0 {
            "Unable to start screen recording."@
        } else {
            "Unable to start screen recording. ("@ + last_err@ + ")"@
        },
{
    if last_err.is_empty() {
        "Unable to start screen recording.".to_string()
    } else {
        join3("Unable to start screen recording. (", last_err, ")")
    }
}

/// What to tell the user when the program itself could not be started.
pub fn spawn_error(reason: &str) -> (r: String)
    ensures
        r@ == "Unable to start screen recording. ("@ + reason@ + ")"@,
{
    let s = join2("Unable to start screen recording. (", reason);
    join2(s.as_str(), ")")
}

// ---- laws ----

/// A report has its key before the first equals sign and its value behind it, both without
/// white space around them; without an equals sign there is no report.
pub proof fn law_report(line: Seq<char>, key: Seq<char>, value: Seq<char>)
    requires
        forall|i: int| 0 <= i < key.len() ==> #[trigger] key[i] != '=',
    ensures
        trimmed(line) == key + seq!['='] + value ==> report(line) == Some(
            (trimmed(key), trimmed(value)),
        ),
        trimmed(line) == key ==> report(line) is None,
{
    let t = trimmed(line);
    let n = key.len() as int;
    law_first_char(t, '=', 0);
    if t == key + seq!['='] + value {
        assert(t[n] == '=');
        assert forall|i: int| 0 <= i < n implies #[trigger] t[i] != '=' by {
            assert(t[i] == key[i]);
        }
        assert(char_at(t, '=', 0) == Some(n));
        assert(t.subrange(0, n) =~= key);
        assert(t.subrange(n + 1, t.len() as int) =~= value);
    }
}

/// A number that is reported under a key is taken over, and nothing else is: not what is
/// reported under another key, and not what is no number.
pub proof fn law_reported(line: Seq<char>, key: Seq<char>, old_value: int, n: nat)
    requires
        n <= u64::MAX,
    ensures
        report(line) == Some((key, decimal(n))) ==> reported(line, key, old_value) == n,
        report(line) is None ==> reported(line, key, old_value) == old_value,
        report(line) matches Some(kv) ==> (kv.0 != key || number(kv.1, u64::MAX as int) is None
            ==> reported(line, key, old_value) == old_value),
{
    law_number_reads_back(n, u64::MAX as int);
}

/// What the encoder says is kept line by line, the newest at the end, and no more than 3000
/// bytes of it.
pub proof fn law_tail(tail: &str, line: &str, r: Option<String>)
    requires
        call_ensures(tail_with, (tail, line), r),
    ensures
        encode_utf8(tail@ + line@ + "\n"@).len() <= 3000 ==> (r matches Some(t) && t@ == tail@ + line@
            + "\n"@),
        r matches Some(t) ==> encode_utf8(t@).len() <= 3000 && encode_utf8(
            tail@ + line@ + "\n"@,
        ).len() >= encode_utf8(t@).len() && encode_utf8(tail@ + line@ + "\n"@).skip(
            encode_utf8(tail@ + line@ + "\n"@).len() - encode_utf8(t@).len(),
        ) == encode_utf8(t@),
        r matches Some(t) ==> encode_utf8(tail@ + line@ + "\n"@).len() >= 3000 ==> encode_utf8(
            t@,
        ).len() == 3000,
{
    let all = encode_utf8(tail@ + line@ + "\n"@);
    assert(all.skip(0) =~= all);
}

/// The last characters of a text are its end, and as many as are asked for where it has them.
pub proof fn law_last_chars(a: Seq<char>, b: Seq<char>, n: int)
    requires
        n >= 0,
    ensures
        b.len() == n ==> last_chars(a + b, n) == b,
        a.len() <= n ==> last_chars(a, n) == a,
{
    if b.len() == n {
        assert((a + b).skip((a + b).len() - n) =~= b);
    }
}

/// In the number of a meter stand digits, points and minus signs.
pub proof fn law_meter_digits(c: char)
    ensures
        '0' <= c <= '9' ==> in_number(c),
        in_number('.') && in_number('-'),
        c as int <= 0x7f && in_number(c) ==> c == '.' || c == '-' || '0' <= c <= '9',
{
}

proof fn lemma_past_white(s: Seq<char>, from: int, k: int)
    requires
        0 <= from <= k <= s.len(),
        forall|i: int| from <= i < k ==> is_white(#[trigger] s[i]),
        k < s.len() ==> !is_white(s[k]),
    ensures
        past_white(s, from) == k,
    decreases k - from,
{
    if from < k {
        lemma_past_white(s, from + 1, k);
    }
}

proof fn lemma_number_end(s: Seq<char>, from: int, k: int)
    requires
        0 <= from <= k <= s.len(),
        forall|i: int| from <= i < k ==> in_number(#[trigger] s[i]),
        k < s.len() ==> !in_number(s[k]),
    ensures
        number_end(s, from) == k,
    decreases k - from,
{
    if from < k {
        lemma_number_end(s, from + 1, k);
    }
}

/// The loudness is the number that follows the first `M:` of a line of the meters, without the
/// white space before it; other lines tell of none.
pub proof fn law_loudness(line: Seq<char>, at: int, from: int, end: int)
    requires
        0 <= at,
        at + 2 <= from <= end <= line.len(),
        line[at] == 'M' && line[at + 1] == ':',
        forall|i: int| 0 <= i < at ==> !(#[trigger] line[i] == 'M' && line[i + 1] == ':'),
        forall|i: int| at + 2 <= i < from ==> is_white(#[trigger] line[i]),
        from < line.len() ==> !is_white(line[from]),
        forall|i: int| from <= i < end ==> in_number(#[trigger] line[i]),
        end < line.len() ==> !in_number(line[end]),
    ensures
        holds(line, "ebur128_"@) ==> loudness(line) == Some(line.subrange(from, end)),
        !holds(line, "ebur128_"@) ==> loudness(line) is None,
{
    reveal_strlit("M:");
    let p = "M:"@;
    assert(p.len() == 2 && p[0] == 'M' && p[1] == ':');
    law_first_place(line, p, 0);
    assert(line.subrange(at, at + 2) =~= p);
    match place_of(line, p, 0) {
        Some(i) => {
            assert(line.subrange(i, i + 2)[0] == 'M' && line.subrange(i, i + 2)[1] == ':');
            assert(line[i] == 'M' && line[i + 1] == ':');
            if i < at {
                assert(!(line[i] == 'M' && line[i + 1] == ':'));
            }
            if at < i {
                assert(line.subrange(at, at + p.len()) != p);
            }
        },
        None => {
            assert(line.subrange(at, at + p.len()) != p);
        },
    }
    lemma_past_white(line, at + 2, from);
    lemma_number_end(line, from, end);
}

/// Where both sounds are recorded, the second meter is that of the microphone and any other
/// that of what is played; otherwise every meter is that of the only sound.
pub proof fn law_meters(line: Seq<char>)
    ensures
        is_system_meter(line, true, true) <==> !holds(line, "ebur128_1"@),
        is_system_meter(line, true, false),
        !is_system_meter(line, false, true),
{
}

/// A program that ends while it is watched is never taken to run, and one that runs is never
/// taken to have ended; the longer it is watched, the sooner it is known.
pub proof fn law_watched(waited: u64, ms: u64, running: bool, r: Watch)
    requires
        call_ensures(watch, (waited, ms, running), r),
    ensures
        r == Watch::Alive <==> running && waited >= ms,
        r == Watch::Dead <==> !running && (waited > 0 || ms == 0),
        r == Watch::Wait <==> waited < ms && (running || waited == 0),
{
}

/// A program that writes segments is watched for two seconds when it starts up, and any other for
/// one and a half; it is looked at five times a second.
pub proof fn law_startup(segmented: bool, r: u64)
    requires
        call_ensures(startup_ms, (segmented,), r),
    ensures
        segmented ==> r == 2000,
        !segmented ==> r == 1500,
        5 * POLL_MS == 1000,
{
}

/// What is told of errors is the end of them, of no more than 400 characters.
pub proof fn law_short_tail(err_tail: &str, r: String, a: Seq<char>, b: Seq<char>)
    requires
        call_ensures(short_tail, (err_tail,), r),
        trimmed(err_tail@) == a + b,
    ensures
        b.len() == 400 ==> r@ == trimmed(b),
        a.len() + b.len() <= 400 ==> r@ == trimmed(a + b),
        r@.len() <= 400,
{
    if b.len() == 400 {
        law_last_chars(a, b, 400);
    }
    law_trimmed(last_chars(trimmed(err_tail@), 400));
    let s = last_chars(trimmed(err_tail@), 400);
    let (i, j) = choose|i: int, j: int|
        0 <= i <= j <= s.len() && trimmed(s) == #[trigger] s.subrange(i, j) && (forall|k: int|
            0 <= k < i || j <= k < s.len() ==> is_white(#[trigger] s[k]));
    assert(trimmed(s).len() == j - i);
}

/// A line that tells of frames changes their number and not the size, and one that tells of the
/// size changes that and not the frames; any other line changes nothing.
pub proof fn law_progress(before: LiveStats, line: Seq<char>, after: LiveStats, n: nat)
    requires
        is_progress(before, line, after),
        n <= u64::MAX,
    ensures
        report(line) == Some(("frame"@, decimal(n))) ==> after.frames == n && after.size_bytes
            == before.size_bytes,
        report(line) == Some(("total_size"@, decimal(n))) ==> after.size_bytes == n && after.frames
            == before.frames,
        !(report(line) matches Some(kv) && (kv.0 == "frame"@ || kv.0 == "total_size"@))
            ==> after.frames == before.frames && after.size_bytes == before.size_bytes,
{
    reveal_strlit("frame");
    reveal_strlit("total_size");
    assert("frame"@.len() == 5 && "total_size"@.len() == 10);
    law_reported(line, "frame"@, before.frames as int, n);
    law_reported(line, "total_size"@, before.size_bytes as int, n);
}

} // verus!
