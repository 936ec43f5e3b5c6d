//! Recording without a separate program: what happens to each frame and each piece of
//! sound on its way from the compositor to the encoder.
use vstd::arithmetic::div_mod::{lemma_fundamental_div_mod, lemma_fundamental_div_mod_converse};
use vstd::prelude::*;

use crate::text::{decimal, decimal_text, join2, join3};

verus! {

/// What video is encoded as.
#[derive(Clone, Copy, Debug, PartialEq, Eq, Structural)]
pub enum NativeCodec {
    H264,
    Hevc,
}

/// How to record.
pub struct NativeRecConfig {
    /// The monitor, counted from nought.
    pub monitor_idx: usize,
    /// The part of the monitor, by its left, upper, right and lower edge.
    pub crop: Option<(u32, u32, u32, u32)>,
    pub out_w: u32,
    pub out_h: u32,
    pub fps: u32,
    pub bitrate_bps: u32,
    pub codec: NativeCodec,
    pub cursor: bool,
    /// The channels of sound, none for a recording without sound.
    pub audio_channels: u32,
    pub sample_rate: u32,
}

/// What came of a recording.
pub struct NativeRecStats {
    pub frames: u64,
    pub audio_bytes: u64,
    pub elapsed_ms: u64,
    pub width: u32,
    pub height: u32,
    pub encoder: String,
    pub monotonic: bool,
}

/// Asks a recording to end.
pub struct NativeStop {
    pub asked: bool,
}

impl NativeStop {
    /// Nothing is asked yet.
    pub fn new() -> (r: Self)
        ensures
            !r.asked,
    {
        NativeStop { asked: false }
    }

    /// Asks the recording to end.
    pub fn stop(&mut self)
        ensures
            final(self).asked,
    {
        self.asked = true;
    }
}

/// The name of a codec.
pub open spec fn codec_text(codec: NativeCodec) -> Seq<char> {
    match codec {
        NativeCodec::H264 => "H264"@,
        NativeCodec::Hevc => "HEVC"@,
    }
}

/// The name of a codec.
pub fn codec_name(codec: NativeCodec) -> (r: &'static str)
    ensures
        r@ == codec_text(codec),
{
    match codec {
        NativeCodec::H264 => "H264",
        NativeCodec::Hevc => "HEVC",
    }
}

/// What can stop a recording from starting or from running.
pub enum NativeFault {
    /// The system has no such recording.
    Unsupported,
    /// The monitor is not there.
    Monitor(usize, String),
    /// The encoder did not start.
    Encoder(NativeCodec, String),
    /// The capture did not run.
    Capture(String),
    /// The thread did not start.
    Thread(String),
    /// The thread broke off.
    Panicked,
    /// The recording was ended before.
    Joined,
}

/// What is said of a fault.
pub open spec fn fault_text(f: NativeFault) -> Seq<char> {
    match f {
        NativeFault::Unsupported => "Native recording requires Windows."@,
        NativeFault::Monitor(i, why) => "Monitor "@ + decimal(i as nat) + " unavailable: "@ + why@,
        NativeFault::Encoder(c, why) => "Encoder init failed ("@ + codec_text(c) + "): "@ + why@,
        NativeFault::Capture(why) => "Capture session failed: "@ + why@,
        NativeFault::Thread(why) => "Could not start capture thread: "@ + why@,
        NativeFault::Panicked => "Native session thread panicked."@,
        NativeFault::Joined => "Native session already joined."@,
    }
}

impl NativeFault {
    /// What is said of the fault.
    pub fn message(&self) -> (r: String)
        ensures
            r@ == fault_text(*self),
    {
        match self {
            NativeFault::Unsupported => "Native recording requires Windows.".to_string(),
            NativeFault::Monitor(i, why) => {
                let head = join3("Monitor ", decimal_text(*i as u64).as_str(), " unavailable: ");
                join2(head.as_str(), why.as_str())
            },
            NativeFault::Encoder(c, why) => {
                let head = join3("Encoder init failed (", codec_name(*c), "): ");
                join2(head.as_str(), why.as_str())
            },
            NativeFault::Capture(why) => join2("Capture session failed: ", why.as_str()),
            NativeFault::Thread(why) => join2("Could not start capture thread: ", why.as_str()),
            NativeFault::Panicked => "Native session thread panicked.".to_string(),
            NativeFault::Joined => "Native session already joined.".to_string(),
        }
    }
}

/// The channels and the rate of the sound, where sound is recorded.
pub fn audio_track(cfg: &NativeRecConfig) -> (r: Option<(u32, u32)>)
    ensures
        r == if cfg.audio_channels == 0 {
            None
        } else {
            Some((cfg.audio_channels, cfg.sample_rate))
        },
{
    if cfg.audio_channels == 0 {
        None
    } else {
        Some((cfg.audio_channels, cfg.sample_rate))
    }
}

// ---- sound ----

/// The two bytes of a sample, the lower one first.
pub open spec fn sample_bytes(s: i16) -> Seq<u8> {
    let u = if s < 0 {
        s + 65536
    } else {
        s as int
    };
    seq![(u % 256) as u8, (u / 256) as u8]
}

/// The bytes of samples, in turn.
pub open spec fn samples_bytes(chunk: Seq<i16>) -> Seq<u8>
    decreases chunk.len(),
{
    if chunk.len() == 0 {
        seq![]
    } else {
        samples_bytes(chunk.drop_last()) + sample_bytes(chunk.last())
    }
}

/// The sample that two bytes stand for, the lower one first.
pub open spec fn sample_of(low: u8, high: u8) -> int {
    let u = low + 256 * high;
    if u >= 32768 {
        u - 65536
    } else {
        u
    }
}

/// Each sample takes two bytes, and can be read from them.
pub proof fn law_samples_read_back(chunk: Seq<i16>, i: int)
    requires
        0 <= i < chunk.len(),
    ensures
        samples_bytes(chunk).len() == 2 * chunk.len(),
        sample_of(samples_bytes(chunk)[2 * i], samples_bytes(chunk)[2 * i + 1]) == chunk[i],
    decreases chunk.len(),
{
    let before = chunk.drop_last();
    lemma_bytes_len(before);
    if i < chunk.len() - 1 {
        law_samples_read_back(before, i);
        assert(before[i] == chunk[i]);
    }
}

proof fn lemma_bytes_len(chunk: Seq<i16>)
    ensures
        samples_bytes(chunk).len() == 2 * chunk.len(),
    decreases chunk.len(),
{
    if chunk.len() > 0 {
        lemma_bytes_len(chunk.drop_last());
    }
}

/// The bytes of samples, in turn.
pub fn i16_to_le_bytes(chunk: &Vec<i16>) -> (r: Vec<u8>)
    ensures
        r@ == samples_bytes(chunk@),
{
    let mut out: Vec<u8> = Vec::new();
    let mut i: usize = 0;
    assert(chunk@.take(0) =~= seq![]);
    while i < chunk.len()
        invariant
            i <= chunk.len(),
            out@ == samples_bytes(chunk@.take(i as int)),
        decreases chunk.len() - i,
    {
        let s: i32 = chunk[i] as i32;
        let u: i32 = if s < 0 {
            s + 65536
        } else {
            s
        };
        let ghost so_far = out@;
        out.push((u % 256) as u8);
        out.push((u / 256) as u8);
        proof {
            let more = chunk@.take(i + 1);
            assert(more.drop_last() =~= chunk@.take(i as int));
            assert(out@ =~= so_far + sample_bytes(chunk@[i as int]));
        }
        i = i + 1;
    }
    assert(chunk@.take(i as int) =~= chunk@);
    out
}

// ---- frames ----

/// What becomes of a frame.
pub enum FrameRoute {
    /// It goes to the encoder as it is.
    Direct,
    /// The part between these edges is copied, turned upside down and brought to the
    /// size that is encoded.
    Pixels(u32, u32, u32, u32),
}

/// Decides what becomes of a frame of this size: only a whole frame of just the size
/// that is encoded goes to the encoder as it is.
pub fn frame_route(cfg: &NativeRecConfig, width: u32, height: u32) -> (r: FrameRoute)
    ensures
        r == match cfg.crop {
            Some((x0, y0, x1, y1)) => FrameRoute::Pixels(x0, y0, x1, y1),
            None => if width == cfg.out_w && height == cfg.out_h {
                FrameRoute::Direct
            } else {
                FrameRoute::Pixels(0, 0, width, height)
            },
        },
{
    match cfg.crop {
        Some((x0, y0, x1, y1)) => FrameRoute::Pixels(x0, y0, x1, y1),
        None => if width == cfg.out_w && height == cfg.out_h {
            FrameRoute::Direct
        } else {
            FrameRoute::Pixels(0, 0, width, height)
        },
    }
}

/// A picture with its rows in the opposite order: `row` bytes in each of `h` rows.
pub open spec fn flipped(src: Seq<u8>, row: int, h: int) -> Seq<u8> {
    Seq::new((h * row) as nat, |i: int| src[(h - 1 - i / row) * row + i % row])
}

proof fn lemma_row_place(row: int, h: int, r: int, k: int)
    requires
        0 < row,
        0 <= r < h,
        0 <= k < row,
    ensures
        0 <= r * row + k < h * row,
        (r * row + k) / row == r,
        (r * row + k) % row == k,
{
    assert(0 <= r * row) by (nonlinear_arith)
        requires
            0 < row,
            0 <= r,
    ;
    assert(r * row + row <= h * row) by (nonlinear_arith)
        requires
            0 < row,
            r + 1 <= h,
    ;
    lemma_fundamental_div_mod_converse(r * row + k, row, r, k);
}

proof fn lemma_in_rows(row: int, h: int, i: int)
    requires
        0 < row,
        0 <= i < h * row,
    ensures
        0 <= i / row < h,
        0 <= i % row < row,
        i == (i / row) * row + i % row,
{
    lemma_fundamental_div_mod(i, row);
    let q = i / row;
    assert(row * q == q * row) by (nonlinear_arith);
    assert(0 <= q && q < h) by (nonlinear_arith)
        requires
            0 < row,
            0 <= i < h * row,
            i == q * row + i % row,
            0 <= i % row < row,
    ;
}

/// A picture that is turned upside down twice is as it was.
pub proof fn law_flipped_twice(src: Seq<u8>, row: int, h: int)
    requires
        0 < row,
        0 <= h,
        src.len() == h * row,
    ensures
        flipped(flipped(src, row, h), row, h) == src,
{
    assert(0 <= h * row) by (nonlinear_arith)
        requires
            0 < row,
            0 <= h,
    ;
    let once = flipped(src, row, h);
    let twice = flipped(once, row, h);
    assert forall|i: int| 0 <= i < src.len() implies twice[i] == src[i] by {
        lemma_in_rows(row, h, i);
        let r = i / row;
        let k = i % row;
        lemma_row_place(row, h, h - 1 - r, k);
        assert(h - 1 - (h - 1 - r) == r);
    }
    assert(twice =~= src);
}

/// What is done with the pixels of a frame.
pub enum PixelWork {
    /// There are too few, or none are wanted.
    Refused,
    /// The frame, upside down, for the encoder.
    Ready(Vec<u8>),
    /// The frame has to be brought to another size.
    Scale,
}

/// Turns a frame upside down, four bytes for each pixel, where it already has the size
/// that is encoded.
pub fn pixel_work(src: &Vec<u8>, sw: u32, sh: u32, dw: u32, dh: u32) -> (r: PixelWork)
    ensures
        match r {
            PixelWork::Refused => src@.len() < sw * sh * 4 || dw == 0 || dh == 0,
            PixelWork::Ready(v) => src@.len() >= sw * sh * 4 && 0 < dw && 0 < dh && sw == dw && sh
                == dh && v@ == flipped(src@, dw * 4, dh as int),
            PixelWork::Scale => src@.len() >= sw * sh * 4 && 0 < dw && 0 < dh && !(sw == dw && sh
                == dh),
        },
{
    assert(sw * sh * 4 <= 0x4_0000_0000_0000_0000) by (nonlinear_arith)
        requires
            sw <= 0xffff_ffff,
            sh <= 0xffff_ffff,
    ;
    assert(0 <= sw * sh <= 0x1_0000_0000_0000_0000) by (nonlinear_arith)
        requires
            0 <= sw <= 0xffff_ffff,
            0 <= sh <= 0xffff_ffff,
    ;
    let need: u128 = sw as u128 * sh as u128 * 4;
    if (src.len() as u128) < need || dw == 0 || dh == 0 {
        return PixelWork::Refused;
    }
    if sw != dw || sh != dh {
        return PixelWork::Scale;
    }
    let count: usize = src.len();
    proof {
        let row = dw * 4;
        assert(row * dh == dw * dh * 4) by (nonlinear_arith)
            requires
                row == dw * 4,
        ;
        assert(row <= row * dh) by (nonlinear_arith)
            requires
                1 <= dh,
                0 <= row,
        ;
        assert(dh <= row * dh) by (nonlinear_arith)
            requires
                0 <= dh,
                1 <= row,
        ;
    }
    assert(dw * 4 <= count && dh <= count);
    let row: usize = dw as usize * 4;
    let h: usize = dh as usize;
    assert(h * row == dw * dh * 4) by (nonlinear_arith)
        requires
            row == dw * 4,
            h == dh,
    ;
    PixelWork::Ready(flip_rows(src, row, h))
}

fn flip_rows(src: &Vec<u8>, row: usize, h: usize) -> (r: Vec<u8>)
    requires
        0 < row,
        h * row <= src@.len(),
    ensures
        r@ == flipped(src@, row as int, h as int),
{
    let mut out: Vec<u8> = Vec::new();
    let mut y: usize = 0;
    assert(0 * row == 0) by (nonlinear_arith);
    assert(0 <= h * row) by (nonlinear_arith)
        requires
            0 <= h,
            0 <= row,
    ;
    let count: usize = src.len();
    while y < h
        invariant
            0 < row,
            y <= h,
            count == src@.len(),
            h * row <= count,
            out@.len() == y * row,
            forall|i: int|
                0 <= i < out@.len() ==> out@[i] == src@[(h - 1 - i / row as int) * row + i
                    % row as int],
        decreases h - y,
    {
        let mut k: usize = 0;
        proof {
            lemma_row_place(row as int, h as int, h - 1 - y, 0);
            assert(y * row + row == (y + 1) * row) by (nonlinear_arith);
        }
        let from: usize = (h - 1 - y) * row;
        while k < row
            invariant
                0 < row,
                k <= row,
                y < h,
                count == src@.len(),
                h * row <= count,
                from == (h - 1 - y) * row,
                out@.len() == y * row + k,
                forall|i: int|
                    0 <= i < out@.len() ==> out@[i] == src@[(h - 1 - i / row as int) * row + i
                        % row as int],
            decreases row - k,
        {
            proof {
                lemma_row_place(row as int, h as int, h - 1 - y, k as int);
                lemma_row_place(row as int, h as int, y as int, k as int);
            }
            out.push(src[from + k]);
            k = k + 1;
        }
        y = y + 1;
    }
    assert(out@ =~= flipped(src@, row as int, h as int));
    out
}

// ---- a recording ----

/// Whether `now` lies before the last time.
pub open spec fn is_past(last: Option<u64>, now: u64) -> bool {
    last matches Some(l) && now < l
}

/// A recording that runs. Times are in nanoseconds, on one clock.
pub struct NativeCount {
    pub frames: u64,
    pub audio_bytes: u64,
    pub width: u32,
    pub height: u32,
    pub first: Option<u64>,
    pub last: Option<u64>,
    pub monotonic: bool,
}

impl NativeCount {
    /// A recording that has seen nothing yet.
    pub fn new() -> (r: Self)
        ensures
            r.frames == 0,
            r.audio_bytes == 0,
            r.width == 0,
            r.height == 0,
            r.first is None,
            r.last is None,
            r.monotonic,
    {
        NativeCount {
            frames: 0,
            audio_bytes: 0,
            width: 0,
            height: 0,
            first: None,
            last: None,
            monotonic: true,
        }
    }

    /// Notes the time of a frame. With the first one the size that is encoded is known;
    /// a frame that is earlier than the one before it breaks the order of times for good.
    pub fn on_frame(&mut self, cfg: &NativeRecConfig, now: u64)
        ensures
            final(self).frames == old(self).frames,
            final(self).audio_bytes == old(self).audio_bytes,
            final(self).last == Some(now),
            old(self).first is None ==> final(self).first == Some(now),
            old(self).first is Some ==> final(self).first == old(self).first,
            final(self).width == if old(self).first is None {
                cfg.out_w
            } else {
                old(self).width
            },
            final(self).height == if old(self).first is None {
                cfg.out_h
            } else {
                old(self).height
            },
            final(self).monotonic == (old(self).monotonic && !(old(self).first is Some && is_past(
                old(self).last, now))),
    {
        match self.first {
            None => {
                self.first = Some(now);
                self.width = cfg.out_w;
                self.height = cfg.out_h;
            },
            Some(_) => {
                match self.last {
                    Some(last) => {
                        if now < last {
                            self.monotonic = false;
                        }
                    },
                    None => {},
                }
            },
        }
        self.last = Some(now);
    }

    /// Counts a piece of sound, and hands out its bytes.
    pub fn on_audio(&mut self, chunk: &Vec<i16>) -> (r: Vec<u8>)
        requires
            old(self).audio_bytes + 2 * chunk@.len() <= u64::MAX,
        ensures
            r@ == samples_bytes(chunk@),
            final(self).audio_bytes == old(self).audio_bytes + 2 * chunk@.len(),
            final(self).frames == old(self).frames,
            final(self).width == old(self).width,
            final(self).height == old(self).height,
            final(self).first == old(self).first,
            final(self).last == old(self).last,
            final(self).monotonic == old(self).monotonic,
    {
        let bytes = i16_to_le_bytes(chunk);
        proof {
            lemma_bytes_len(chunk@);
        }
        self.audio_bytes = self.audio_bytes + bytes.len() as u64;
        bytes
    }

    /// Counts a frame that the encoder has taken.
    pub fn on_pushed(&mut self)
        requires
            old(self).frames < u64::MAX,
        ensures
            final(self).frames == old(self).frames + 1,
            final(self).audio_bytes == old(self).audio_bytes,
            final(self).width == old(self).width,
            final(self).height == old(self).height,
            final(self).first == old(self).first,
            final(self).last == old(self).last,
            final(self).monotonic == old(self).monotonic,
    {
        self.frames = self.frames + 1;
    }

    /// What came of the recording, after this long.
    pub fn stats(&self, codec: NativeCodec, elapsed_ms: u64) -> (r: NativeRecStats)
        ensures
            r.frames == self.frames,
            r.audio_bytes == self.audio_bytes,
            r.elapsed_ms == elapsed_ms,
            r.width == self.width,
            r.height == self.height,
            r.encoder@ == codec_text(codec),
            r.monotonic == self.monotonic,
    {
        NativeRecStats {
            frames: self.frames,
            audio_bytes: self.audio_bytes,
            elapsed_ms,
            width: self.width,
            height: self.height,
            encoder: codec_name(codec).to_string(),
            monotonic: self.monotonic,
        }
    }
}

// ---- laws ----

/// A sample is written as two bytes, the lower one first, of its number in 16 bits.
pub proof fn law_sample_bytes(chunk: Seq<i16>, i: int)
    requires
        0 <= i < chunk.len(),
    ensures
        samples_bytes(chunk).len() == 2 * chunk.len(),
        ({
            let low = samples_bytes(chunk)[2 * i];
            let high = samples_bytes(chunk)[2 * i + 1];
            &&& chunk[i] >= 0 ==> low + 256 * high == chunk[i]
            &&& chunk[i] < 0 ==> low + 256 * high == chunk[i] + 65536
        }),
{
    law_samples_read_back(chunk, i);
    lemma_one_sample(chunk, i);
}

proof fn lemma_one_sample(chunk: Seq<i16>, i: int)
    requires
        0 <= i < chunk.len(),
    ensures
        samples_bytes(chunk)[2 * i] == sample_bytes(chunk[i])[0],
        samples_bytes(chunk)[2 * i + 1] == sample_bytes(chunk[i])[1],
    decreases chunk.len(),
{
    let before = chunk.drop_last();
    lemma_bytes_len(before);
    if i < chunk.len() - 1 {
        lemma_one_sample(before, i);
        assert(before[i] == chunk[i]);
    }
}

/// A picture that is turned upside down has its first row last: each row is the one that lies as
/// far from the other edge, and the bytes of a row keep their order.
pub proof fn law_rows_turned(src: Seq<u8>, row: int, h: int, y: int, k: int)
    requires
        0 < row,
        0 <= y < h,
        0 <= k < row,
        h * row <= src.len(),
    ensures
        flipped(src, row, h).len() == h * row,
        flipped(src, row, h)[y * row + k] == src[(h - 1 - y) * row + k],
{
    lemma_row_place(row, h, y, k);
}

/// A frame goes to the encoder as it is only where it is whole and of just the size that is
/// encoded; otherwise the part that is asked for, or all of it, is worked on.
pub proof fn law_frame_route(cfg: &NativeRecConfig, width: u32, height: u32, r: FrameRoute)
    requires
        call_ensures(frame_route, (cfg, width, height), r),
    ensures
        r is Direct <==> cfg.crop is None && width == cfg.out_w && height == cfg.out_h,
        r matches FrameRoute::Pixels(x0, y0, x1, y1) ==> match cfg.crop {
            Some(c) => (x0, y0, x1, y1) == c,
            None => x0 == 0 && y0 == 0 && x1 == width && y1 == height,
        },
{
}

/// Pixels are refused where there are too few of them, or none are wanted; they are ready where
/// they have the size already, and scaled in all other cases.
pub proof fn law_pixel_work(src: &Vec<u8>, sw: u32, sh: u32, dw: u32, dh: u32, r: PixelWork)
    requires
        call_ensures(pixel_work, (src, sw, sh, dw, dh), r),
    ensures
        r is Refused <==> src@.len() < sw * sh * 4 || dw == 0 || dh == 0,
        r is Ready ==> sw == dw && sh == dh,
        r is Scale ==> sw != dw || sh != dh,
        r matches PixelWork::Ready(v) ==> v@.len() == dh * (dw * 4),
{
    assert(0 <= dh * (dw * 4)) by (nonlinear_arith)
        requires
            0 <= dh,
            0 <= dw,
    ;
}

/// Sound is recorded where there are channels for it, with those and at the rate that is set.
pub proof fn law_audio_track(cfg: &NativeRecConfig, r: Option<(u32, u32)>)
    requires
        call_ensures(audio_track, (cfg,), r),
    ensures
        r is Some <==> cfg.audio_channels > 0,
        r matches Some(t) ==> t.0 == cfg.audio_channels && t.1 == cfg.sample_rate,
{
}

/// The two codecs have different names, and what is said of an encoder that did not start names
/// the codec and the reason.
pub proof fn law_encoder_fault(c: NativeCodec, why: String)
    ensures
        codec_text(NativeCodec::H264) == "H264"@,
        codec_text(NativeCodec::Hevc) == "HEVC"@,
        fault_text(NativeFault::Encoder(c, why)) == "Encoder init failed ("@ + codec_text(c) + "): "@
            + why@,
{
}

/// A frame is out of order only if it is earlier than the one before it; one at the same time is
/// in order.
pub proof fn law_frame_times(last: u64, now: u64)
    ensures
        is_past(Some(last), now) <==> now < last,
        !is_past(Some(last), last),
        !is_past(None, now),
{
}

} // verus!
