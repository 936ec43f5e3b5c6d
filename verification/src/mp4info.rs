//! A reader of MP4 box structure.
//!
//! Reads the structure only, no media: the video track's size, codec, sample
//! count and duration, the audio track's codec, sample count and duration, and
//! the movie's duration. Durations stay what the file holds, a count of ticks
//! and the number of ticks in a second.
use vstd::prelude::*;

use crate::text::{from_utf8_lossy, lossy, same};

verus! {

/// The big-endian number in the four bytes at `at`.
pub open spec fn be32(d: Seq<u8>, at: int) -> int {
    d[at] * 0x100_0000 + d[at + 1] * 0x1_0000 + d[at + 2] * 0x100 + d[at + 3]
}

/// The big-endian number in the eight bytes at `at`.
pub open spec fn be64(d: Seq<u8>, at: int) -> int {
    be32(d, at) * 0x1_0000_0000 + be32(d, at + 4)
}

/// A position in a byte slice from which numbers, tags and slices are read.
pub struct Cursor<'a> {
    pub data: &'a [u8],
    pub pos: usize,
}

impl<'a> Cursor<'a> {
    /// The number of bytes that are left to read.
    pub open spec fn left(&self) -> int {
        if self.pos <= self.data@.len() {
            self.data@.len() - self.pos
        } else {
            0
        }
    }

    /// `self` moved `n` bytes forward in the same data.
    pub open spec fn advanced(self, before: Self, n: int) -> bool {
        self.data == before.data && self.pos == before.pos + n
    }

    /// The number of bytes that are left to read.
    pub fn rest(&self) -> (r: usize)
        ensures
            r == self.left(),
    {
        if self.pos <= self.data.len() {
            self.data.len() - self.pos
        } else {
            0
        }
    }

    /// Reads a big-endian 32-bit number.
    pub fn u32(&mut self) -> (r: Option<u32>)
        ensures
            r is None <==> old(self).left() < 4,
            r is None ==> *final(self) == *old(self),
            r matches Some(v) ==> v == be32(old(self).data@, old(self).pos as int)
                && final(self).advanced(*old(self), 4),
    {
        if self.rest() < 4 {
            return None;
        }
        let p: usize = self.pos;
        let d = self.data;
        let v: u32 = d[p] as u32 * 0x100_0000 + d[p + 1] as u32 * 0x1_0000 + d[p + 2] as u32 * 0x100
            + d[p + 3] as u32;
        self.pos = p + 4;
        Some(v)
    }

    /// Reads a big-endian 64-bit number.
    pub fn u64(&mut self) -> (r: Option<u64>)
        ensures
            r is None <==> old(self).left() < 8,
            r is None ==> *final(self) == *old(self),
            r matches Some(v) ==> v == be64(old(self).data@, old(self).pos as int)
                && final(self).advanced(*old(self), 8),
    {
        if self.rest() < 8 {
            return None;
        }
        let high: u32 = match self.u32() {
            Some(v) => v,
            None => return None,
        };
        let low: u32 = match self.u32() {
            Some(v) => v,
            None => return None,
        };
        Some(high as u64 * 0x1_0000_0000 + low as u64)
    }

    /// Reads a four-byte tag.
    pub fn tag(&mut self) -> (r: Option<[u8; 4]>)
        ensures
            r is None <==> old(self).left() < 4,
            r is None ==> *final(self) == *old(self),
            r matches Some(t) ==> t@ == old(self).data@.subrange(
                old(self).pos as int,
                old(self).pos + 4,
            ) && final(self).advanced(*old(self), 4),
    {
        if self.rest() < 4 {
            return None;
        }
        let p: usize = self.pos;
        let d = self.data;
        let t: [u8; 4] = [d[p], d[p + 1], d[p + 2], d[p + 3]];
        self.pos = p + 4;
        assert(t@ =~= d@.subrange(p as int, p + 4));
        Some(t)
    }

    /// Moves `n` bytes forward.
    pub fn skip(&mut self, n: usize) -> (r: Option<()>)
        ensures
            r is None <==> old(self).left() < n,
            r is None ==> *final(self) == *old(self),
            r is Some ==> final(self).advanced(*old(self), n as int),
    {
        if self.rest() < n {
            return None;
        }
        let len: usize = self.data.len();
        if n > 0 {
            assert(self.pos + n <= len);
            self.pos = self.pos + n;
        }
        Some(())
    }

    /// Reads the next `n` bytes.
    pub fn slice(&mut self, n: usize) -> (r: Option<&'a [u8]>)
        requires
            old(self).pos <= old(self).data@.len(),
        ensures
            r is None <==> old(self).left() < n,
            r is None ==> *final(self) == *old(self),
            r matches Some(s) ==> s@ == old(self).data@.subrange(
                old(self).pos as int,
                old(self).pos + n,
            ) && final(self).advanced(*old(self), n as int),
    {
        if self.rest() < n {
            return None;
        }
        let d = self.data;
        let len: usize = d.len();
        assert(self.pos + n <= len);
        let s = &d[self.pos..self.pos + n];
        self.pos = self.pos + n;
        Some(s)
    }
}

/// A box of the file: its tag and the bytes of its body.
pub struct BoxRef<'a> {
    pub tag: [u8; 4],
    pub body: &'a [u8],
}

/// What a [`BoxRef`] stands for.
pub struct BoxView {
    pub tag: Seq<u8>,
    pub body: Seq<u8>,
}

impl<'a> View for BoxRef<'a> {
    type V = BoxView;

    open spec fn view(&self) -> BoxView {
        BoxView { tag: self.tag@, body: self.body@ }
    }
}

/// The length of the header of the first box in `d`: a size of 1 announces a
/// 64-bit size behind the tag.
pub open spec fn header_len(d: Seq<u8>) -> int {
    if be32(d, 0) == 1 {
        16
    } else {
        8
    }
}

/// The length of the first box in `d`, header included: a size of 0 means all
/// that is left.
pub open spec fn box_len(d: Seq<u8>) -> int {
    if be32(d, 0) == 1 {
        be64(d, 8)
    } else if be32(d, 0) == 0 {
        d.len() as int
    } else {
        be32(d, 0)
    }
}

/// Whether `d` begins with a whole box.
pub open spec fn has_box(d: Seq<u8>) -> bool {
    d.len() >= 8 && d.len() >= header_len(d) && header_len(d) <= box_len(d) <= d.len()
}

/// The boxes at the front of `d`, up to the first place where no whole box starts.
pub open spec fn boxes(d: Seq<u8>) -> Seq<BoxView>
    decreases d.len(),
{
    if has_box(d) {
        seq![
            BoxView { tag: d.subrange(4, 8), body: d.subrange(header_len(d), box_len(d)) },
        ] + boxes(d.skip(box_len(d)))
    } else {
        seq![]
    }
}

/// The views of a list of boxes.
pub open spec fn views(v: Seq<BoxRef<'_>>) -> Seq<BoxView> {
    Seq::new(v.len(), |i: int| v[i]@)
}

/// The text of a tag.
pub fn tag_str(t: &[u8; 4]) -> (r: String)
    ensures
        r@ == lossy(t@),
{
    let s: &[u8] = t.as_slice();
    from_utf8_lossy(s)
}

/// The boxes that `body` holds.
pub fn children<'a>(body: &'a [u8]) -> (r: Vec<BoxRef<'a>>)
    ensures
        views(r@) == boxes(body@),
{
    let mut out: Vec<BoxRef<'a>> = Vec::new();
    let mut c = Cursor { data: body, pos: 0 };
    assert(body@.skip(0) =~= body@);
    while c.rest() >= 8
        invariant_except_break
            c.data == body,
            c.pos <= body@.len(),
            views(out@) + boxes(body@.skip(c.pos as int)) =~= boxes(body@),
        ensures
            views(out@) =~= boxes(body@),
        decreases c.left(),
    {
        let ghost d = body@.skip(c.pos as int);
        let ghost before = views(out@);
        let start: usize = c.pos;
        let left: usize = c.rest();
        let size32: u32 = match c.u32() {
            Some(s) => s,
            None => 0,
        };
        assert(size32 == be32(d, 0));
        let tag: [u8; 4] = match c.tag() {
            Some(t) => t,
            None => break,
        };
        assert(tag@ =~= d.subrange(4, 8));
        let mut size: u64 = size32 as u64;
        let mut header: u64 = 8;
        if size32 == 1 {
            match c.u64() {
                Some(s) => {
                    size = s;
                    assert(size == be64(d, 8));
                },
                None => break,
            }
            header = 16;
        } else if size32 == 0 {
            size = left as u64;
        }
        assert(header == header_len(d) && size == box_len(d));
        if size < header || size > left as u64 {
            break;
        }
        let body_len: usize = (size - header) as usize;
        match c.slice(body_len) {
            Some(b) => {
                assert(b@ =~= d.subrange(header_len(d), box_len(d)));
                assert(d.skip(box_len(d)) =~= body@.skip(c.pos as int));
                out.push(BoxRef { tag, body: b });
                assert(views(out@) =~= before.push(
                    BoxView { tag: d.subrange(4, 8), body: d.subrange(header_len(d), box_len(d)) },
                ));
            },
            None => break,
        }
    }
    out
}

/// The version (the top byte) and the flags of a full box.
pub fn full_header(c: &mut Cursor<'_>) -> (r: Option<(u8, u32)>)
    ensures
        r is None <==> old(c).left() < 4,
        r is None ==> *final(c) == *old(c),
        r matches Some(h) ==> h.0 == old(c).data@[old(c).pos as int] && h.1 == be32(
            old(c).data@,
            old(c).pos as int,
        ) % 0x100_0000 && final(c).advanced(*old(c), 4),
{
    match c.u32() {
        Some(v) => Some(((v / 0x100_0000) as u8, v % 0x100_0000)),
        None => None,
    }
}

/// What is known of a track.
pub struct TrackCtx {
    pub kind: String,
    pub codec: String,
    pub width: u32,
    pub height: u32,
    pub samples: u32,
    pub timescale: u32,
    pub duration: u64,
}

/// What a [`TrackCtx`] stands for.
#[verifier::ext_equal]
pub struct Track {
    pub kind: Seq<char>,
    pub codec: Seq<char>,
    pub width: int,
    pub height: int,
    pub samples: int,
    pub timescale: int,
    pub duration: int,
}

impl View for TrackCtx {
    type V = Track;

    open spec fn view(&self) -> Track {
        Track {
            kind: self.kind@,
            codec: self.codec@,
            width: self.width as int,
            height: self.height as int,
            samples: self.samples as int,
            timescale: self.timescale as int,
            duration: self.duration as int,
        }
    }
}

/// A track of which nothing has been read yet.
pub open spec fn blank_track() -> Track {
    Track {
        kind: seq![],
        codec: seq![],
        width: 0,
        height: 0,
        samples: 0,
        timescale: 0,
        duration: 0,
    }
}

/// The four bytes of a tag.
pub open spec fn tag4(a: u8, b: u8, c: u8, d: u8) -> Seq<u8> {
    seq![a, b, c, d]
}

/// Where a track header holds the picture's width: behind the times, whose
/// fields are wider in version 1.
pub open spec fn tkhd_size_at(d: Seq<u8>) -> int {
    if d[0] == 1 {
        84
    } else {
        76
    }
}

/// A track header (`tkhd`) gives width and height, as 16.16 fixed point.
pub open spec fn with_tkhd(t: Track, d: Seq<u8>) -> Option<Track> {
    if d.len() >= 4 && d.len() >= tkhd_size_at(d) + 8 {
        Some(
            Track {
                width: be32(d, tkhd_size_at(d)) / 0x1_0000,
                height: be32(d, tkhd_size_at(d) + 4) / 0x1_0000,
                ..t
            },
        )
    } else {
        None
    }
}

/// A media header (`mdhd`) gives timescale and duration.
pub open spec fn with_mdhd(t: Track, d: Seq<u8>) -> Option<Track> {
    if d.len() < 4 {
        None
    } else if d[0] == 1 {
        if d.len() >= 32 {
            Some(Track { timescale: be32(d, 20), duration: be64(d, 24), ..t })
        } else {
            None
        }
    } else if d.len() >= 20 {
        Some(Track { timescale: be32(d, 12), duration: be32(d, 16), ..t })
    } else {
        None
    }
}

/// The kind that a handler tag stands for.
pub open spec fn handler_kind(tag: Seq<u8>) -> Seq<char> {
    if tag == tag4(118, 105, 100, 101) {
        "video"@
    } else if tag == tag4(115, 111, 117, 110) {
        "audio"@
    } else {
        lossy(tag)
    }
}

/// A handler box (`hdlr`) gives the kind of the track.
pub open spec fn with_hdlr(t: Track, d: Seq<u8>) -> Option<Track> {
    if d.len() >= 12 {
        Some(Track { kind: handler_kind(d.subrange(8, 12)), ..t })
    } else {
        None
    }
}

/// A sample description (`stsd`) gives the codec, the tag of its first entry.
pub open spec fn with_stsd(t: Track, d: Seq<u8>) -> Option<Track> {
    if d.len() < 8 {
        None
    } else if d.len() >= 16 {
        Some(Track { codec: lossy(d.subrange(12, 16)), ..t })
    } else {
        Some(t)
    }
}

/// A sample size box (`stsz`) gives the number of samples.
pub open spec fn with_stsz(t: Track, d: Seq<u8>) -> Option<Track> {
    if d.len() >= 12 {
        Some(Track { samples: be32(d, 8), ..t })
    } else {
        None
    }
}

/// Reads one box of a sample table.
pub open spec fn stbl_step(t: Track, b: BoxView) -> Option<Track> {
    if b.tag == tag4(115, 116, 115, 100) {
        with_stsd(t, b.body)
    } else if b.tag == tag4(115, 116, 115, 122) {
        with_stsz(t, b.body)
    } else {
        Some(t)
    }
}

/// Reads the boxes of a sample table in turn.
pub open spec fn stbl_fold(t: Track, bs: Seq<BoxView>) -> Option<Track>
    decreases bs.len(),
{
    if bs.len() == 0 {
        Some(t)
    } else {
        match stbl_fold(t, bs.drop_last()) {
            Some(u) => stbl_step(u, bs.last()),
            None => None,
        }
    }
}

/// Reads the boxes of the media information in turn: only sample tables count.
pub open spec fn minf_fold(t: Track, bs: Seq<BoxView>) -> Option<Track>
    decreases bs.len(),
{
    if bs.len() == 0 {
        Some(t)
    } else {
        match minf_fold(t, bs.drop_last()) {
            Some(u) => if bs.last().tag == tag4(115, 116, 98, 108) {
                stbl_fold(u, boxes(bs.last().body))
            } else {
                Some(u)
            },
            None => None,
        }
    }
}

/// Reads one box of the media box.
pub open spec fn mdia_step(t: Track, b: BoxView) -> Option<Track> {
    if b.tag == tag4(109, 100, 104, 100) {
        with_mdhd(t, b.body)
    } else if b.tag == tag4(104, 100, 108, 114) {
        with_hdlr(t, b.body)
    } else if b.tag == tag4(109, 105, 110, 102) {
        minf_fold(t, boxes(b.body))
    } else {
        Some(t)
    }
}

/// Reads the boxes of the media box in turn.
pub open spec fn mdia_fold(t: Track, bs: Seq<BoxView>) -> Option<Track>
    decreases bs.len(),
{
    if bs.len() == 0 {
        Some(t)
    } else {
        match mdia_fold(t, bs.drop_last()) {
            Some(u) => mdia_step(u, bs.last()),
            None => None,
        }
    }
}

/// Reads one box of a track.
pub open spec fn trak_step(t: Track, b: BoxView) -> Option<Track> {
    if b.tag == tag4(116, 107, 104, 100) {
        with_tkhd(t, b.body)
    } else if b.tag == tag4(109, 100, 105, 97) {
        mdia_fold(t, boxes(b.body))
    } else {
        Some(t)
    }
}

/// Reads the boxes of a track in turn. One truncated box spoils the track.
pub open spec fn trak_fold(t: Track, bs: Seq<BoxView>) -> Option<Track>
    decreases bs.len(),
{
    if bs.len() == 0 {
        Some(t)
    } else {
        match trak_fold(t, bs.drop_last()) {
            Some(u) => trak_step(u, bs.last()),
            None => None,
        }
    }
}

/// The track that `body` describes: none where a box is truncated, or where
/// nothing says of what kind the track is.
pub open spec fn track_of(body: Seq<u8>) -> Option<Track> {
    match trak_fold(blank_track(), boxes(body)) {
        Some(t) => if t.kind.len() == 0 {
            None
        } else {
            Some(t)
        },
        None => None,
    }
}

/// What a parser step leaves behind: the track, or nothing on truncation.
pub open spec fn step_result(r: Option<()>, after: TrackCtx, expected: Option<Track>) -> bool {
    match expected {
        Some(t) => r is Some && after@ == t,
        None => r is None,
    }
}

fn is_tag(t: &[u8; 4], a: u8, b: u8, c: u8, d: u8) -> (r: bool)
    ensures
        r == (t@ == tag4(a, b, c, d)),
{
    let r: bool = t[0] == a && t[1] == b && t[2] == c && t[3] == d;
    if r {
        assert(t@ =~= tag4(a, b, c, d));
    }
    r
}

fn read_tkhd(t: &mut TrackCtx, body: &[u8]) -> (r: Option<()>)
    ensures
        step_result(r, *final(t), with_tkhd(old(t)@, body@)),
{
    let mut c = Cursor { data: body, pos: 0 };
    let (ver, _) = full_header(&mut c)?;
    if ver == 1 {
        c.skip(8 + 8 + 4 + 8)?;
    } else {
        c.skip(4 + 4 + 4 + 8)?;
    }
    c.skip(8 + 2 + 2 + 2 + 2)?;
    c.skip(36)?;
    let w: u32 = c.u32()?;
    let h: u32 = c.u32()?;
    t.width = w / 0x1_0000;
    t.height = h / 0x1_0000;
    Some(())
}

fn read_mdhd(t: &mut TrackCtx, body: &[u8]) -> (r: Option<()>)
    ensures
        step_result(r, *final(t), with_mdhd(old(t)@, body@)),
{
    let mut c = Cursor { data: body, pos: 0 };
    let (ver, _) = full_header(&mut c)?;
    if ver == 1 {
        c.skip(8 + 8)?;
        t.timescale = c.u32()?;
        t.duration = c.u64()?;
    } else {
        c.skip(4 + 4)?;
        t.timescale = c.u32()?;
        t.duration = c.u32()? as u64;
    }
    Some(())
}

fn read_hdlr(t: &mut TrackCtx, body: &[u8]) -> (r: Option<()>)
    ensures
        step_result(r, *final(t), with_hdlr(old(t)@, body@)),
{
    let mut c = Cursor { data: body, pos: 0 };
    full_header(&mut c)?;
    c.skip(4)?;
    let h: [u8; 4] = c.tag()?;
    t.kind = if is_tag(&h, 118, 105, 100, 101) {
        "video".to_string()
    } else if is_tag(&h, 115, 111, 117, 110) {
        "audio".to_string()
    } else {
        tag_str(&h)
    };
    Some(())
}

fn read_stsd(t: &mut TrackCtx, body: &[u8]) -> (r: Option<()>)
    ensures
        step_result(r, *final(t), with_stsd(old(t)@, body@)),
{
    let mut c = Cursor { data: body, pos: 0 };
    full_header(&mut c)?;
    c.skip(4)?;
    if c.rest() >= 8 {
        c.u32()?;
        let codec: [u8; 4] = c.tag()?;
        t.codec = tag_str(&codec);
    }
    Some(())
}

fn read_stsz(t: &mut TrackCtx, body: &[u8]) -> (r: Option<()>)
    ensures
        step_result(r, *final(t), with_stsz(old(t)@, body@)),
{
    let mut c = Cursor { data: body, pos: 0 };
    full_header(&mut c)?;
    c.u32()?;
    t.samples = c.u32()?;
    Some(())
}

fn read_stbl(t: &mut TrackCtx, body: &[u8]) -> (r: Option<()>)
    ensures
        step_result(r, *final(t), stbl_fold(old(t)@, boxes(body@))),
{
    let all = children(body);
    let ghost bs = boxes(body@);
    let mut i: usize = 0;
    while i < all.len()
        invariant
            i <= all.len(),
            views(all@) == bs,
            bs == boxes(body@),
            stbl_fold(old(t)@, bs.take(i as int)) == Some(t@),
        decreases all.len() - i,
    {
        let b = &all[i];
        assert(b@ == bs[i as int]);
        assert(bs.take(i + 1).drop_last() =~= bs.take(i as int));
        proof {
            lemma_stbl_none(old(t)@, bs, i + 1);
        }
        if is_tag(&b.tag, 115, 116, 115, 100) {
            read_stsd(t, b.body)?;
        } else if is_tag(&b.tag, 115, 116, 115, 122) {
            read_stsz(t, b.body)?;
        }
        i = i + 1;
    }
    assert(bs.take(i as int) =~= bs);
    Some(())
}

proof fn lemma_stbl_none(t: Track, bs: Seq<BoxView>, i: int)
    requires
        0 <= i <= bs.len(),
    ensures
        stbl_fold(t, bs.take(i)) is None ==> stbl_fold(t, bs) is None,
    decreases bs.len() - i,
{
    if i < bs.len() {
        assert(bs.take(i + 1).drop_last() =~= bs.take(i));
        lemma_stbl_none(t, bs, i + 1);
    } else {
        assert(bs.take(i) =~= bs);
    }
}

fn read_minf(t: &mut TrackCtx, body: &[u8]) -> (r: Option<()>)
    ensures
        step_result(r, *final(t), minf_fold(old(t)@, boxes(body@))),
{
    let all = children(body);
    let ghost bs = boxes(body@);
    let mut i: usize = 0;
    while i < all.len()
        invariant
            i <= all.len(),
            views(all@) == bs,
            bs == boxes(body@),
            minf_fold(old(t)@, bs.take(i as int)) == Some(t@),
        decreases all.len() - i,
    {
        let b = &all[i];
        assert(b@ == bs[i as int]);
        assert(bs.take(i + 1).drop_last() =~= bs.take(i as int));
        proof {
            lemma_minf_none(old(t)@, bs, i + 1);
        }
        if is_tag(&b.tag, 115, 116, 98, 108) {
            read_stbl(t, b.body)?;
        }
        i = i + 1;
    }
    assert(bs.take(i as int) =~= bs);
    Some(())
}

proof fn lemma_minf_none(t: Track, bs: Seq<BoxView>, i: int)
    requires
        0 <= i <= bs.len(),
    ensures
        minf_fold(t, bs.take(i)) is None ==> minf_fold(t, bs) is None,
    decreases bs.len() - i,
{
    if i < bs.len() {
        assert(bs.take(i + 1).drop_last() =~= bs.take(i));
        lemma_minf_none(t, bs, i + 1);
    } else {
        assert(bs.take(i) =~= bs);
    }
}

fn read_mdia(t: &mut TrackCtx, body: &[u8]) -> (r: Option<()>)
    ensures
        step_result(r, *final(t), mdia_fold(old(t)@, boxes(body@))),
{
    let all = children(body);
    let ghost bs = boxes(body@);
    let mut i: usize = 0;
    while i < all.len()
        invariant
            i <= all.len(),
            views(all@) == bs,
            bs == boxes(body@),
            mdia_fold(old(t)@, bs.take(i as int)) == Some(t@),
        decreases all.len() - i,
    {
        let b = &all[i];
        assert(b@ == bs[i as int]);
        assert(bs.take(i + 1).drop_last() =~= bs.take(i as int));
        proof {
            lemma_mdia_none(old(t)@, bs, i + 1);
        }
        if is_tag(&b.tag, 109, 100, 104, 100) {
            read_mdhd(t, b.body)?;
        } else if is_tag(&b.tag, 104, 100, 108, 114) {
            read_hdlr(t, b.body)?;
        } else if is_tag(&b.tag, 109, 105, 110, 102) {
            read_minf(t, b.body)?;
        }
        i = i + 1;
    }
    assert(bs.take(i as int) =~= bs);
    Some(())
}

proof fn lemma_mdia_none(t: Track, bs: Seq<BoxView>, i: int)
    requires
        0 <= i <= bs.len(),
    ensures
        mdia_fold(t, bs.take(i)) is None ==> mdia_fold(t, bs) is None,
    decreases bs.len() - i,
{
    if i < bs.len() {
        assert(bs.take(i + 1).drop_last() =~= bs.take(i));
        lemma_mdia_none(t, bs, i + 1);
    } else {
        assert(bs.take(i) =~= bs);
    }
}

fn read_trak(t: &mut TrackCtx, body: &[u8]) -> (r: Option<()>)
    ensures
        step_result(r, *final(t), trak_fold(old(t)@, boxes(body@))),
{
    let all = children(body);
    let ghost bs = boxes(body@);
    let mut i: usize = 0;
    while i < all.len()
        invariant
            i <= all.len(),
            views(all@) == bs,
            bs == boxes(body@),
            trak_fold(old(t)@, bs.take(i as int)) == Some(t@),
        decreases all.len() - i,
    {
        let b = &all[i];
        assert(b@ == bs[i as int]);
        assert(bs.take(i + 1).drop_last() =~= bs.take(i as int));
        proof {
            lemma_trak_none(old(t)@, bs, i + 1);
        }
        if is_tag(&b.tag, 116, 107, 104, 100) {
            read_tkhd(t, b.body)?;
        } else if is_tag(&b.tag, 109, 100, 105, 97) {
            read_mdia(t, b.body)?;
        }
        i = i + 1;
    }
    assert(bs.take(i as int) =~= bs);
    Some(())
}

proof fn lemma_trak_none(t: Track, bs: Seq<BoxView>, i: int)
    requires
        0 <= i <= bs.len(),
    ensures
        trak_fold(t, bs.take(i)) is None ==> trak_fold(t, bs) is None,
    decreases bs.len() - i,
{
    if i < bs.len() {
        assert(bs.take(i + 1).drop_last() =~= bs.take(i));
        lemma_trak_none(t, bs, i + 1);
    } else {
        assert(bs.take(i) =~= bs);
    }
}

/// Reads the track that the body of a `trak` box describes.
pub fn parse_trak(body: &[u8]) -> (r: Option<TrackCtx>)
    ensures
        match r {
            Some(t) => track_of(body@) == Some(t@),
            None => track_of(body@) is None,
        },
{
    let mut t = TrackCtx {
        kind: String::new(),
        codec: String::new(),
        width: 0,
        height: 0,
        samples: 0,
        timescale: 0,
        duration: 0,
    };
    assert(t@ =~= blank_track());
    read_trak(&mut t, body)?;
    if t.kind.as_str().is_empty() {
        return None;
    }
    Some(t)
}

/// A track of a file.
pub struct Mp4TrackInfo {
    pub kind: String,
    pub codec: String,
    pub width: u32,
    pub height: u32,
    pub samples: u32,
    pub duration: u64,
    pub timescale: u32,
}

impl View for Mp4TrackInfo {
    type V = Track;

    open spec fn view(&self) -> Track {
        Track {
            kind: self.kind@,
            codec: self.codec@,
            width: self.width as int,
            height: self.height as int,
            samples: self.samples as int,
            timescale: self.timescale as int,
            duration: self.duration as int,
        }
    }
}

/// What a file holds. Its length is `duration` ticks, `timescale` of which make
/// a second; a timescale of 0 means that the file does not tell.
pub struct Mp4Info {
    pub duration: u64,
    pub timescale: u32,
    pub video: Option<Mp4TrackInfo>,
    pub audio: Option<Mp4TrackInfo>,
    pub valid: bool,
}

/// What an [`Mp4Info`] stands for.
#[verifier::ext_equal]
pub struct Movie {
    pub duration: int,
    pub timescale: int,
    pub video: Option<Track>,
    pub audio: Option<Track>,
}

/// The view of an optional track.
pub open spec fn track_view(t: Option<Mp4TrackInfo>) -> Option<Track> {
    match t {
        Some(t) => Some(t@),
        None => None,
    }
}

impl View for Mp4Info {
    type V = Movie;

    open spec fn view(&self) -> Movie {
        Movie {
            duration: self.duration as int,
            timescale: self.timescale as int,
            video: track_view(self.video),
            audio: track_view(self.audio),
        }
    }
}

/// Whether a movie header is long enough to reach its timescale field.
pub open spec fn mvhd_whole(d: Seq<u8>) -> bool {
    d.len() >= 12 && (d[0] == 1 ==> d.len() >= 20)
}

/// The timescale of a movie header, 0 where it is cut off.
pub open spec fn mvhd_timescale(d: Seq<u8>) -> int {
    let at: int = if d[0] == 1 {
        20
    } else {
        12
    };
    if d.len() >= at + 4 {
        be32(d, at)
    } else {
        0
    }
}

/// The duration of a movie header, 0 where it is cut off.
pub open spec fn mvhd_duration(d: Seq<u8>) -> int {
    if d[0] == 1 {
        if d.len() >= 32 {
            be64(d, 24)
        } else {
            0
        }
    } else if d.len() >= 20 {
        be32(d, 16)
    } else {
        0
    }
}

/// Reads one box of the movie box. A movie header counts if it has a timescale;
/// of several tracks of one kind the last one stays.
pub open spec fn moov_step(m: Movie, b: BoxView) -> Option<Movie> {
    if b.tag == tag4(109, 118, 104, 100) {
        if !mvhd_whole(b.body) {
            None
        } else if mvhd_timescale(b.body) > 0 {
            Some(
                Movie {
                    duration: mvhd_duration(b.body),
                    timescale: mvhd_timescale(b.body),
                    ..m
                },
            )
        } else {
            Some(m)
        }
    } else if b.tag == tag4(116, 114, 97, 107) {
        match track_of(b.body) {
            Some(t) => if t.kind == "video"@ {
                Some(Movie { video: Some(t), ..m })
            } else if t.kind == "audio"@ {
                Some(Movie { audio: Some(t), ..m })
            } else {
                Some(m)
            },
            None => Some(m),
        }
    } else {
        Some(m)
    }
}

/// Reads the boxes of the movie box in turn; nothing on a truncated movie header.
pub open spec fn moov_fold(m: Movie, bs: Seq<BoxView>) -> Option<Movie>
    decreases bs.len(),
{
    if bs.len() == 0 {
        Some(m)
    } else {
        match moov_fold(m, bs.drop_last()) {
            Some(u) => moov_step(u, bs.last()),
            None => None,
        }
    }
}

/// Reads the boxes of a file in turn: only movie boxes count.
pub open spec fn file_fold(m: Movie, bs: Seq<BoxView>) -> Option<Movie>
    decreases bs.len(),
{
    if bs.len() == 0 {
        Some(m)
    } else {
        match file_fold(m, bs.drop_last()) {
            Some(u) => if bs.last().tag == tag4(109, 111, 111, 118) {
                moov_fold(u, boxes(bs.last().body))
            } else {
                Some(u)
            },
            None => None,
        }
    }
}

/// The movie that the bytes of a file describe, nothing on a truncated movie header.
pub open spec fn movie_of(data: Seq<u8>) -> Option<Movie> {
    file_fold(Movie { duration: 0, timescale: 0, video: None, audio: None }, boxes(data))
}

proof fn lemma_moov_none(m: Movie, bs: Seq<BoxView>, i: int)
    requires
        0 <= i <= bs.len(),
    ensures
        moov_fold(m, bs.take(i)) is None ==> moov_fold(m, bs) is None,
    decreases bs.len() - i,
{
    if i < bs.len() {
        assert(bs.take(i + 1).drop_last() =~= bs.take(i));
        lemma_moov_none(m, bs, i + 1);
    } else {
        assert(bs.take(i) =~= bs);
    }
}

proof fn lemma_file_none(m: Movie, bs: Seq<BoxView>, i: int)
    requires
        0 <= i <= bs.len(),
    ensures
        file_fold(m, bs.take(i)) is None ==> file_fold(m, bs) is None,
    decreases bs.len() - i,
{
    if i < bs.len() {
        assert(bs.take(i + 1).drop_last() =~= bs.take(i));
        lemma_file_none(m, bs, i + 1);
    } else {
        assert(bs.take(i) =~= bs);
    }
}

fn read_mvhd(info: &mut Mp4Info, body: &[u8]) -> (r: Option<()>)
    ensures
        match moov_step(old(info)@, BoxView { tag: tag4(109, 118, 104, 100), body: body@ }) {
            Some(m) => r is Some && final(info)@ == m,
            None => r is None,
        },
        final(info).valid == old(info).valid,
{
    let mut c = Cursor { data: body, pos: 0 };
    let ver: u8 = match full_header(&mut c) {
        Some(h) => h.0,
        None => 0,
    };
    let ts: u32;
    let du: u64;
    if ver == 1 {
        c.skip(8 + 8)?;
        ts = c.u32().unwrap_or(0);
        du = c.u64().unwrap_or(0);
    } else {
        c.skip(4 + 4)?;
        ts = c.u32().unwrap_or(0);
        du = c.u32().unwrap_or(0) as u64;
    }
    if ts > 0 {
        info.timescale = ts;
        info.duration = du;
    }
    Some(())
}

fn read_moov(info: &mut Mp4Info, body: &[u8]) -> (r: Option<()>)
    ensures
        match moov_fold(old(info)@, boxes(body@)) {
            Some(m) => r is Some && final(info)@ == m,
            None => r is None,
        },
        final(info).valid == old(info).valid,
{
    let all = children(body);
    let ghost bs = boxes(body@);
    let mut i: usize = 0;
    while i < all.len()
        invariant
            i <= all.len(),
            views(all@) == bs,
            bs == boxes(body@),
            moov_fold(old(info)@, bs.take(i as int)) == Some(info@),
            info.valid == old(info).valid,
        decreases all.len() - i,
    {
        let b = &all[i];
        assert(b@ == bs[i as int]);
        assert(bs.take(i + 1).drop_last() =~= bs.take(i as int));
        proof {
            lemma_moov_none(old(info)@, bs, i + 1);
        }
        if is_tag(&b.tag, 109, 118, 104, 100) {
            read_mvhd(info, b.body)?;
        } else if is_tag(&b.tag, 116, 114, 97, 107) {
            if let Some(t) = parse_trak(b.body) {
                let track = Mp4TrackInfo {
                    kind: t.kind,
                    codec: t.codec,
                    width: t.width,
                    height: t.height,
                    samples: t.samples,
                    duration: t.duration,
                    timescale: t.timescale,
                };
                let is_video: bool = same(track.kind.as_str(), "video");
                let is_audio: bool = same(track.kind.as_str(), "audio");
                if is_video {
                    info.video = Some(track);
                } else if is_audio {
                    info.audio = Some(track);
                }
            }
        }
        i = i + 1;
    }
    assert(bs.take(i as int) =~= bs);
    Some(())
}

/// Reads what the bytes of a file hold. Every file that has a video track and
/// no truncated movie header is read.
pub fn read_info(data: &[u8]) -> (r: Result<Mp4Info, String>)
    ensures
        data@.len() < 32 ==> (r matches Err(e) && e@ == "File too small to be MP4."@),
        data@.len() >= 32 ==> match movie_of(data@) {
            None => r matches Err(e) && e@ == "Truncated mvhd."@,
            Some(m) => if m.video is None {
                r matches Err(e) && e@ == "No video track found — not a playable MP4."@
            } else {
                r matches Ok(info) && info@ == m && info.valid
            },
        },
{
    if data.len() < 32 {
        return Err("File too small to be MP4.".to_string());
    }
    let mut info = Mp4Info { duration: 0, timescale: 0, video: None, audio: None, valid: false };
    let all = children(data);
    let ghost bs = boxes(data@);
    let ghost start = Movie { duration: 0, timescale: 0, video: None, audio: None };
    let mut i: usize = 0;
    while i < all.len()
        invariant
            data@.len() >= 32,
            i <= all.len(),
            views(all@) == bs,
            bs == boxes(data@),
            file_fold(start, bs.take(i as int)) == Some(info@),
            movie_of(data@) == file_fold(start, bs),
        decreases all.len() - i,
    {
        let b = &all[i];
        assert(b@ == bs[i as int]);
        assert(bs.take(i + 1).drop_last() =~= bs.take(i as int));
        proof {
            lemma_file_none(start, bs, i + 1);
        }
        if is_tag(&b.tag, 109, 111, 111, 118) {
            if read_moov(&mut info, b.body).is_none() {
                return Err("Truncated mvhd.".to_string());
            }
        }
        i = i + 1;
    }
    assert(bs.take(i as int) =~= bs);
    info.valid = info.video.is_some();
    if !info.valid {
        return Err("No video track found — not a playable MP4.".to_string());
    }
    Ok(info)
}

/// The frame rate that the container tells, as a fraction: video samples per
/// second of video. It is 0 without a video track, without a timescale, and for
/// a video of a fifth of a second or less.
pub fn container_fps(info: &Mp4Info) -> (r: (u64, u64))
    ensures
        match info@.video {
            Some(v) if v.timescale > 0 && v.duration * 5 > v.timescale => {
                r.0 == v.samples * v.timescale && r.1 == v.duration
            },
            _ => r == (0u64, 1u64),
        },
{
    match &info.video {
        Some(v) => {
            if v.timescale > 0 && v.duration as u128 * 5 > v.timescale as u128 {
                proof {
                    assert(v.samples * v.timescale <= 0xffff_ffff * 0xffff_ffff) by (nonlinear_arith)
                        requires
                            v.samples <= 0xffff_ffff,
                            v.timescale <= 0xffff_ffff,
                    ;
                }
                (v.samples as u64 * v.timescale as u64, v.duration)
            } else {
                (0, 1)
            }
        },
        None => (0, 1),
    }
}

/// The bytes of a box with an ordinary 32-bit size.
pub open spec fn written_box(b: BoxView) -> Seq<u8> {
    let n = b.body.len() + 8;
    seq![
        ((n / 0x100_0000) % 0x100) as u8,
        ((n / 0x1_0000) % 0x100) as u8,
        ((n / 0x100) % 0x100) as u8,
        (n % 0x100) as u8,
    ] + b.tag + b.body
}

/// The bytes of several boxes, one behind the other.
pub open spec fn written_boxes(bs: Seq<BoxView>) -> Seq<u8>
    decreases bs.len(),
{
    if bs.len() == 0 {
        seq![]
    } else {
        written_box(bs[0]) + written_boxes(bs.drop_first())
    }
}

proof fn lemma_size_bytes(n: int)
    requires
        0 <= n < 0x1_0000_0000,
    ensures
        ((n / 0x100_0000) % 0x100) * 0x100_0000 + ((n / 0x1_0000) % 0x100) * 0x1_0000 + ((n / 0x100)
            % 0x100) * 0x100 + n % 0x100 == n,
{
}

/// A box that is written in front of others is read in front of them.
pub proof fn law_first_box_reads_back(b: BoxView, rest: Seq<u8>)
    requires
        b.tag.len() == 4,
        b.body.len() + 8 < 0x1_0000_0000,
    ensures
        boxes(written_box(b) + rest) == seq![b] + boxes(rest),
{
    let d = written_box(b) + rest;
    let n = (b.body.len() + 8) as int;
    lemma_size_bytes(n);
    assert(be32(d, 0) == n);
    assert(d.subrange(4, 8) =~= b.tag);
    assert(d.subrange(8, n) =~= b.body);
    assert(d.skip(n) =~= rest);
    assert(has_box(d));
}

/// Boxes written one behind the other are read back as they were.
pub proof fn law_boxes_read_back(bs: Seq<BoxView>)
    requires
        forall|i: int|
            0 <= i < bs.len() ==> (#[trigger] bs[i]).tag.len() == 4 && bs[i].body.len() + 8
                < 0x1_0000_0000,
    ensures
        boxes(written_boxes(bs)) == bs,
    decreases bs.len(),
{
    if bs.len() > 0 {
        assert(bs[0].tag.len() == 4);
        law_first_box_reads_back(bs[0], written_boxes(bs.drop_first()));
        assert forall|i: int| 0 <= i < bs.drop_first().len() implies (
        #[trigger] bs.drop_first()[i]).tag.len() == 4 && bs.drop_first()[i].body.len() + 8
            < 0x1_0000_0000 by {
            assert(bs.drop_first()[i] == bs[i + 1]);
        }
        law_boxes_read_back(bs.drop_first());
        assert(seq![bs[0]] + bs.drop_first() =~= bs);
    }
}

/// A file that is read has a video track, and says so.
pub proof fn law_read_means_video(data: Seq<u8>, m: Movie)
    requires
        movie_of(data) == Some(m),
        m.video is Some,
    ensures
        m.video->0.kind == "video"@,
{
    lemma_file_video(Movie { duration: 0, timescale: 0, video: None, audio: None }, boxes(data));
}

proof fn lemma_moov_video(m: Movie, bs: Seq<BoxView>)
    requires
        m.video matches Some(v) ==> v.kind == "video"@,
    ensures
        moov_fold(m, bs) matches Some(u) ==> (u.video matches Some(v) ==> v.kind == "video"@),
    decreases bs.len(),
{
    if bs.len() > 0 {
        lemma_moov_video(m, bs.drop_last());
    }
}

proof fn lemma_file_video(m: Movie, bs: Seq<BoxView>)
    requires
        m.video matches Some(v) ==> v.kind == "video"@,
    ensures
        file_fold(m, bs) matches Some(u) ==> (u.video matches Some(v) ==> v.kind == "video"@),
    decreases bs.len(),
{
    if bs.len() > 0 {
        lemma_file_video(m, bs.drop_last());
        if let Some(u) = file_fold(m, bs.drop_last()) {
            lemma_moov_video(u, boxes(bs.last().body));
        }
    }
}

/// A number in four bytes has the largest byte first.
pub open spec fn number4(a: u8, b: u8, c: u8, d: u8) -> int {
    ((a * 256 + b) * 256 + c) * 256 + d
}

/// A box with a large size has that size in the eight bytes behind its tag, and its body behind
/// those.
pub proof fn law_large_box(d: Seq<u8>, body: Seq<u8>, rest: Seq<u8>)
    requires
        d.len() == 16,
        d[0] == 0 && d[1] == 0 && d[2] == 0 && d[3] == 1,
        number4(d[8], d[9], d[10], d[11]) * 0x1_0000_0000 + number4(d[12], d[13], d[14], d[15]) == 16
            + body.len(),
    ensures
        boxes(d + body + rest) == seq![BoxView { tag: d.subrange(4, 8), body }] + boxes(rest),
{
    let all = d + body + rest;
    let n = 16 + body.len() as int;
    assert(forall|i: int| 0 <= i < 16 ==> #[trigger] all[i] == d[i]);
    assert(be32(all, 0) == 1);
    assert(be64(all, 8) == n);
    assert(all.subrange(4, 8) =~= d.subrange(4, 8));
    assert(all.subrange(16, n) =~= body);
    assert(all.skip(n) =~= rest);
}

/// A box without a size reaches to the end.
pub proof fn law_last_box(tag: Seq<u8>, body: Seq<u8>)
    requires
        tag.len() == 4,
    ensures
        boxes(seq![0u8, 0, 0, 0] + tag + body) == seq![BoxView { tag, body }],
{
    let d = seq![0u8, 0, 0, 0] + tag + body;
    let n = d.len() as int;
    assert(be32(d, 0) == 0);
    assert(d.subrange(4, 8) =~= tag);
    assert(d.subrange(8, n) =~= body);
    assert(d.skip(n).len() == 0);
    assert(boxes(d.skip(n)) =~= seq![]);
    assert(boxes(d) =~= seq![BoxView { tag, body }]);
}

/// A box that is cut off ends the list: it counts for nothing, and neither does what is behind.
pub proof fn law_truncated_box(d: Seq<u8>)
    requires
        d.len() < 8 || (number4(d[0], d[1], d[2], d[3]) > 1 && (number4(d[0], d[1], d[2], d[3])
            > d.len() || number4(d[0], d[1], d[2], d[3]) < 8)),
    ensures
        boxes(d).len() == 0,
{
    if d.len() >= 8 {
        assert(be32(d, 0) == number4(d[0], d[1], d[2], d[3]));
    }
}

/// The width and the height stand in the track header as whole pixels in two bytes each, behind
/// times of four bytes, or of eight in version 1.
pub proof fn law_track_header(t: Track, d: Seq<u8>)
    ensures
        d.len() >= 84 && d[0] != 1 ==> (with_tkhd(t, d) matches Some(u) && u.width == d[76] * 256
            + d[77] && u.height == d[80] * 256 + d[81] && u.kind == t.kind && u.codec == t.codec
            && u.samples == t.samples && u.timescale == t.timescale && u.duration == t.duration),
        d.len() >= 92 && d[0] == 1 ==> (with_tkhd(t, d) matches Some(u) && u.width == d[84] * 256
            + d[85] && u.height == d[88] * 256 + d[89] && u.kind == t.kind && u.codec == t.codec
            && u.samples == t.samples && u.timescale == t.timescale && u.duration == t.duration),
        d.len() < 84 || (d[0] == 1 && d.len() < 92) ==> with_tkhd(t, d) is None,
{
}

/// The length of a track stands in its media header, with the ticks of a second before it.
pub proof fn law_media_header(t: Track, d: Seq<u8>)
    ensures
        d.len() >= 20 && d[0] != 1 ==> (with_mdhd(t, d) matches Some(u) && u.timescale == number4(
            d[12],
            d[13],
            d[14],
            d[15],
        ) && u.duration == number4(d[16], d[17], d[18], d[19]) && u.kind == t.kind && u.codec
            == t.codec && u.samples == t.samples && u.width == t.width && u.height == t.height),
        d.len() >= 32 && d[0] == 1 ==> (with_mdhd(t, d) matches Some(u) && u.timescale == number4(
            d[20],
            d[21],
            d[22],
            d[23],
        ) && u.duration == number4(d[24], d[25], d[26], d[27]) * 0x1_0000_0000 + number4(
            d[28],
            d[29],
            d[30],
            d[31],
        ) && u.kind == t.kind && u.codec == t.codec && u.samples == t.samples && u.width == t.width
            && u.height == t.height),
        d.len() < 20 || (d[0] == 1 && d.len() < 32) ==> with_mdhd(t, d) is None,
{
}

/// The kind of a track stands in its handler box: `vide` for a video, `soun` for sound.
pub proof fn law_handler(t: Track, d: Seq<u8>)
    ensures
        d.len() >= 12 && d[8] == 'v' as u8 && d[9] == 'i' as u8 && d[10] == 'd' as u8 && d[11]
            == 'e' as u8 ==> (with_hdlr(t, d) matches Some(u) && u.kind == "video"@),
        d.len() >= 12 && d[8] == 's' as u8 && d[9] == 'o' as u8 && d[10] == 'u' as u8 && d[11]
            == 'n' as u8 ==> (with_hdlr(t, d) matches Some(u) && u.kind == "audio"@),
        with_hdlr(t, d) matches Some(u) ==> u.codec == t.codec && u.samples == t.samples && u.width
            == t.width && u.height == t.height && u.timescale == t.timescale && u.duration
            == t.duration,
        with_hdlr(t, d) is None <==> d.len() < 12,
{
    if d.len() >= 12 {
        let tag = d.subrange(8, 12);
        assert(tag[0] == d[8] && tag[1] == d[9] && tag[2] == d[10] && tag[3] == d[11]);
        if d[8] == 118 && d[9] == 105 && d[10] == 100 && d[11] == 101 {
            assert(tag =~= tag4(118, 105, 100, 101));
        }
        if d[8] == 115 && d[9] == 111 && d[10] == 117 && d[11] == 110 {
            assert(tag =~= tag4(115, 111, 117, 110));
            assert(tag4(118, 105, 100, 101)[0] == 118);
        }
    }
}

/// The number of samples stands in the box of their sizes, and the codec in the first entry of
/// their description.
pub proof fn law_sample_boxes(t: Track, d: Seq<u8>)
    ensures
        d.len() >= 12 ==> (with_stsz(t, d) matches Some(u) && u.samples == number4(
            d[8],
            d[9],
            d[10],
            d[11],
        ) && u.codec == t.codec && u.kind == t.kind && u.width == t.width && u.height == t.height
            && u.timescale == t.timescale && u.duration == t.duration),
        d.len() < 12 ==> with_stsz(t, d) is None,
        d.len() >= 16 ==> (with_stsd(t, d) matches Some(u) && u.codec == lossy(d.subrange(12, 16))
            && u.samples == t.samples && u.kind == t.kind && u.width == t.width && u.height
            == t.height && u.timescale == t.timescale && u.duration == t.duration),
        8 <= d.len() < 16 ==> with_stsd(t, d) == Some(t),
        d.len() < 8 ==> with_stsd(t, d) is None,
{
}

/// The length of a file stands in its movie header, with the ticks of a second before it.
pub proof fn law_movie_header(d: Seq<u8>)
    ensures
        d.len() >= 20 && d[0] != 1 ==> mvhd_whole(d) && mvhd_timescale(d) == number4(
            d[12],
            d[13],
            d[14],
            d[15],
        ) && mvhd_duration(d) == number4(d[16], d[17], d[18], d[19]),
        d.len() >= 32 && d[0] == 1 ==> mvhd_whole(d) && mvhd_timescale(d) == number4(
            d[20],
            d[21],
            d[22],
            d[23],
        ) && mvhd_duration(d) == number4(d[24], d[25], d[26], d[27]) * 0x1_0000_0000 + number4(
            d[28],
            d[29],
            d[30],
            d[31],
        ),
        d.len() < 12 || (d[0] == 1 && d.len() < 20) ==> !mvhd_whole(d),
{
}

/// The boxes of a track that are read: the headers, the handler and what tells of the samples.
pub struct TrackBoxes {
    pub tkhd: Seq<u8>,
    pub mdhd: Seq<u8>,
    pub hdlr: Seq<u8>,
    pub stsd: Seq<u8>,
    pub stsz: Seq<u8>,
}

/// A box with this tag and body.
pub open spec fn tagged(a: char, b: char, c: char, d: char, body: Seq<u8>) -> BoxView {
    BoxView { tag: seq![a as u8, b as u8, c as u8, d as u8], body }
}

/// The body of a track box that holds these boxes, each where it belongs.
pub open spec fn track_body(t: TrackBoxes) -> Seq<u8> {
    let stbl = written_boxes(
        seq![tagged('s', 't', 's', 'd', t.stsd), tagged('s', 't', 's', 'z', t.stsz)],
    );
    let minf = written_boxes(seq![tagged('s', 't', 'b', 'l', stbl)]);
    let mdia = written_boxes(
        seq![
            tagged('m', 'd', 'h', 'd', t.mdhd),
            tagged('h', 'd', 'l', 'r', t.hdlr),
            tagged('m', 'i', 'n', 'f', minf),
        ],
    );
    written_boxes(seq![tagged('t', 'k', 'h', 'd', t.tkhd), tagged('m', 'd', 'i', 'a', mdia)])
}

/// Whether the boxes of a track are whole, and small enough to be written with ordinary sizes.
pub open spec fn track_whole(t: TrackBoxes) -> bool {
    &&& 84 <= t.tkhd.len() < 0x100_0000 && t.tkhd[0] == 0
    &&& 20 <= t.mdhd.len() < 0x100_0000 && t.mdhd[0] == 0
    &&& 12 <= t.hdlr.len() < 0x100_0000
    &&& 16 <= t.stsd.len() < 0x100_0000
    &&& 12 <= t.stsz.len() < 0x100_0000
}

proof fn lemma_written_len(bs: Seq<BoxView>)
    requires
        1 <= bs.len() <= 3,
        forall|i: int| 0 <= i < bs.len() ==> (#[trigger] bs[i]).tag.len() == 4,
    ensures
        bs.len() == 1 ==> written_boxes(bs).len() == 8 + bs[0].body.len(),
        bs.len() == 2 ==> written_boxes(bs).len() == 16 + bs[0].body.len() + bs[1].body.len(),
        bs.len() == 3 ==> written_boxes(bs).len() == 24 + bs[0].body.len() + bs[1].body.len()
            + bs[2].body.len(),
{
    reveal_with_fuel(written_boxes, 4);
    assert(bs[0].tag.len() == 4);
    if bs.len() > 1 {
        assert(bs.drop_first()[0] == bs[1]);
        assert(bs[1].tag.len() == 4);
    }
    if bs.len() > 2 {
        assert(bs.drop_first().drop_first()[0] == bs[2]);
        assert(bs[2].tag.len() == 4);
    }
}

proof fn lemma_stbl(t: Track, b: TrackBoxes)
    requires
        track_whole(b),
    ensures
        ({
            let bs = seq![tagged('s', 't', 's', 'd', b.stsd), tagged('s', 't', 's', 'z', b.stsz)];
            &&& boxes(written_boxes(bs)) == bs
            &&& written_boxes(bs).len() == 16 + b.stsd.len() + b.stsz.len()
            &&& stbl_fold(t, bs) == Some(
                Track { codec: lossy(b.stsd.subrange(12, 16)), samples: be32(b.stsz, 8), ..t },
            )
        }),
{
    let bs = seq![tagged('s', 't', 's', 'd', b.stsd), tagged('s', 't', 's', 'z', b.stsz)];
    lemma_written_len(bs);
    law_boxes_read_back(bs);
    reveal_with_fuel(stbl_fold, 3);
    assert(bs.drop_last() =~= seq![bs[0]]);
    assert(seq![bs[0]].drop_last() =~= seq![]);
    assert(bs[0].tag =~= tag4(115, 116, 115, 100));
    assert(bs[1].tag =~= tag4(115, 116, 115, 122));
    assert(tag4(115, 116, 115, 100)[3] == 100 && tag4(115, 116, 115, 122)[3] == 122);
}

proof fn lemma_minf(t: Track, b: TrackBoxes, stbl: Seq<u8>)
    requires
        stbl.len() < 0x1000_0000,
    ensures
        ({
            let bs = seq![tagged('s', 't', 'b', 'l', stbl)];
            &&& boxes(written_boxes(bs)) == bs
            &&& written_boxes(bs).len() == 8 + stbl.len()
            &&& minf_fold(t, bs) == stbl_fold(t, boxes(stbl))
        }),
{
    let bs = seq![tagged('s', 't', 'b', 'l', stbl)];
    lemma_written_len(bs);
    law_boxes_read_back(bs);
    reveal_with_fuel(minf_fold, 2);
    assert(bs.drop_last() =~= seq![]);
    assert(bs[0].tag =~= tag4(115, 116, 98, 108));
}

proof fn lemma_mdia(t: Track, b: TrackBoxes, minf: Seq<u8>)
    requires
        track_whole(b),
        minf.len() < 0x1000_0000,
    ensures
        ({
            let bs = seq![
                tagged('m', 'd', 'h', 'd', b.mdhd),
                tagged('h', 'd', 'l', 'r', b.hdlr),
                tagged('m', 'i', 'n', 'f', minf),
            ];
            &&& boxes(written_boxes(bs)) == bs
            &&& written_boxes(bs).len() == 24 + b.mdhd.len() + b.hdlr.len() + minf.len()
            &&& mdia_fold(t, bs) == minf_fold(
                Track {
                    timescale: be32(b.mdhd, 12),
                    duration: be32(b.mdhd, 16),
                    kind: handler_kind(b.hdlr.subrange(8, 12)),
                    ..t
                },
                boxes(minf),
            )
        }),
{
    let bs = seq![
        tagged('m', 'd', 'h', 'd', b.mdhd),
        tagged('h', 'd', 'l', 'r', b.hdlr),
        tagged('m', 'i', 'n', 'f', minf),
    ];
    lemma_written_len(bs);
    law_boxes_read_back(bs);
    reveal_with_fuel(mdia_fold, 4);
    assert(bs.drop_last() =~= seq![bs[0], bs[1]]);
    assert(seq![bs[0], bs[1]].drop_last() =~= seq![bs[0]]);
    assert(seq![bs[0]].drop_last() =~= seq![]);
    assert(bs[0].tag =~= tag4(109, 100, 104, 100));
    assert(bs[1].tag =~= tag4(104, 100, 108, 114));
    assert(bs[2].tag =~= tag4(109, 105, 110, 102));
    assert(tag4(109, 100, 104, 100)[1] == 100 && tag4(104, 100, 108, 114)[0] == 104 && tag4(
        109,
        105,
        110,
        102,
    )[1] == 105);
    assert(tag4(109, 100, 104, 100)[0] == 109 && tag4(109, 105, 110, 102)[0] == 109);
}

/// A track that is written as its headers, its handler and its sample boxes, each in the box
/// where it belongs, is read with the size, the length, the kind, the codec and the number of
/// samples that stand in them.
pub proof fn law_track_reads_back(b: TrackBoxes)
    requires
        track_whole(b),
        b.hdlr.subrange(8, 12) == seq!['v' as u8, 'i' as u8, 'd' as u8, 'e' as u8]
            || b.hdlr.subrange(8, 12) == seq!['s' as u8, 'o' as u8, 'u' as u8, 'n' as u8],
    ensures
        track_body(b).len() < 0x1000_0000,
        track_of(track_body(b)) matches Some(t) && {
            &&& b.hdlr[8] == 'v' as u8 ==> t.kind == "video"@
            &&& b.hdlr[8] == 's' as u8 ==> t.kind == "audio"@
            &&& t.codec == lossy(b.stsd.subrange(12, 16))
            &&& t.width == b.tkhd[76] * 256 + b.tkhd[77]
            &&& t.height == b.tkhd[80] * 256 + b.tkhd[81]
            &&& t.samples == number4(b.stsz[8], b.stsz[9], b.stsz[10], b.stsz[11])
            &&& t.timescale == number4(b.mdhd[12], b.mdhd[13], b.mdhd[14], b.mdhd[15])
            &&& t.duration == number4(b.mdhd[16], b.mdhd[17], b.mdhd[18], b.mdhd[19])
        },
{
    let stbl = written_boxes(
        seq![tagged('s', 't', 's', 'd', b.stsd), tagged('s', 't', 's', 'z', b.stsz)],
    );
    let minf = written_boxes(seq![tagged('s', 't', 'b', 'l', stbl)]);
    let mdia = written_boxes(
        seq![
            tagged('m', 'd', 'h', 'd', b.mdhd),
            tagged('h', 'd', 'l', 'r', b.hdlr),
            tagged('m', 'i', 'n', 'f', minf),
        ],
    );
    let bs = seq![tagged('t', 'k', 'h', 'd', b.tkhd), tagged('m', 'd', 'i', 'a', mdia)];
    let t0 = blank_track();
    law_track_header(t0, b.tkhd);
    let t1 = with_tkhd(t0, b.tkhd)->0;
    lemma_stbl(t1, b);
    lemma_minf(t1, b, stbl);
    lemma_mdia(t1, b, minf);
    let t2 = Track {
        timescale: be32(b.mdhd, 12),
        duration: be32(b.mdhd, 16),
        kind: handler_kind(b.hdlr.subrange(8, 12)),
        ..t1
    };
    lemma_minf(t2, b, stbl);
    lemma_stbl(t2, b);
    lemma_written_len(bs);
    law_boxes_read_back(bs);
    reveal_with_fuel(trak_fold, 3);
    assert(bs.drop_last() =~= seq![bs[0]]);
    assert(seq![bs[0]].drop_last() =~= seq![]);
    assert(bs[0].tag =~= tag4(116, 107, 104, 100));
    assert(bs[1].tag =~= tag4(109, 100, 105, 97));
    assert(tag4(116, 107, 104, 100)[0] == 116 && tag4(109, 100, 105, 97)[0] == 109);
    law_handler(t1, b.hdlr);
    law_media_header(t1, b.mdhd);
    law_sample_boxes(t2, b.stsz);
    let tag = b.hdlr.subrange(8, 12);
    assert(tag[0] == b.hdlr[8] && tag[1] == b.hdlr[9] && tag[2] == b.hdlr[10] && tag[3]
        == b.hdlr[11]);
    reveal_strlit("video");
    reveal_strlit("audio");
    assert("video"@.len() == 5 && "audio"@.len() == 5);
}

/// A file that is written as a movie header and a track for the video, and perhaps one for the
/// sound, is read with the length that stands in the header and with these tracks.
pub proof fn law_movie_reads_back(mvhd: Seq<u8>, video: TrackBoxes, audio: TrackBoxes)
    requires
        20 <= mvhd.len() < 0x100_0000,
        mvhd[0] == 0,
        number4(mvhd[12], mvhd[13], mvhd[14], mvhd[15]) > 0,
        track_whole(video),
        track_whole(audio),
        video.hdlr.subrange(8, 12) == seq!['v' as u8, 'i' as u8, 'd' as u8, 'e' as u8],
        audio.hdlr.subrange(8, 12) == seq!['s' as u8, 'o' as u8, 'u' as u8, 'n' as u8],
    ensures
        ({
            let moov = written_boxes(
                seq![
                    tagged('m', 'v', 'h', 'd', mvhd),
                    tagged('t', 'r', 'a', 'k', track_body(video)),
                    tagged('t', 'r', 'a', 'k', track_body(audio)),
                ],
            );
            let file = written_boxes(seq![tagged('m', 'o', 'o', 'v', moov)]);
            movie_of(file) matches Some(m) && {
                &&& m.timescale == number4(mvhd[12], mvhd[13], mvhd[14], mvhd[15])
                &&& m.duration == number4(mvhd[16], mvhd[17], mvhd[18], mvhd[19])
                &&& m.video == track_of(track_body(video)) && m.video is Some
                &&& m.audio == track_of(track_body(audio)) && m.audio is Some
            }
        }),
{
    law_track_reads_back(video);
    law_track_reads_back(audio);
    let tag = video.hdlr.subrange(8, 12);
    assert(tag[0] == video.hdlr[8]);
    let other = audio.hdlr.subrange(8, 12);
    assert(other[0] == audio.hdlr[8]);
    let v = track_of(track_body(video))->0;
    let a = track_of(track_body(audio))->0;
    lemma_moov(mvhd, track_body(video), track_body(audio), v, a);
    let moov = written_boxes(
        seq![
            tagged('m', 'v', 'h', 'd', mvhd),
            tagged('t', 'r', 'a', 'k', track_body(video)),
            tagged('t', 'r', 'a', 'k', track_body(audio)),
        ],
    );
    lemma_file(moov);
    law_movie_header(mvhd);
}

proof fn lemma_moov(mvhd: Seq<u8>, video: Seq<u8>, audio: Seq<u8>, v: Track, a: Track)
    requires
        20 <= mvhd.len() < 0x100_0000,
        mvhd[0] == 0,
        mvhd_timescale(mvhd) > 0,
        video.len() < 0x1000_0000,
        audio.len() < 0x1000_0000,
        track_of(video) == Some(v) && v.kind == "video"@,
        track_of(audio) == Some(a) && a.kind == "audio"@,
    ensures
        ({
            let bs = seq![
                tagged('m', 'v', 'h', 'd', mvhd),
                tagged('t', 'r', 'a', 'k', video),
                tagged('t', 'r', 'a', 'k', audio),
            ];
            &&& written_boxes(bs).len() < 0x4000_0000
            &&& moov_fold(
                Movie { duration: 0, timescale: 0, video: None, audio: None },
                boxes(written_boxes(bs)),
            ) == Some(
                Movie {
                    duration: mvhd_duration(mvhd),
                    timescale: mvhd_timescale(mvhd),
                    video: Some(v),
                    audio: Some(a),
                },
            )
        }),
{
    let bs = seq![
        tagged('m', 'v', 'h', 'd', mvhd),
        tagged('t', 'r', 'a', 'k', video),
        tagged('t', 'r', 'a', 'k', audio),
    ];
    lemma_written_len(bs);
    law_boxes_read_back(bs);
    assert(bs[0].tag =~= tag4(109, 118, 104, 100));
    assert(bs[1].tag =~= tag4(116, 114, 97, 107));
    assert(bs[2].tag =~= tag4(116, 114, 97, 107));
    assert(tag4(109, 118, 104, 100)[0] == 109 && tag4(116, 114, 97, 107)[0] == 116);
    reveal_strlit("video");
    reveal_strlit("audio");
    assert("video"@[0] == 'v' && "audio"@[0] == 'a');
    let m0 = Movie { duration: 0, timescale: 0, video: None, audio: None };
    let none: Seq<BoxView> = seq![];
    let one = seq![bs[0]];
    let two = seq![bs[0], bs[1]];
    assert(one.drop_last() =~= none);
    assert(two.drop_last() =~= one);
    assert(bs.drop_last() =~= two);
    assert(moov_fold(m0, none) == Some(m0));
    let m1 = Movie {
        duration: mvhd_duration(mvhd),
        timescale: mvhd_timescale(mvhd),
        video: None,
        audio: None,
    };
    assert(moov_step(m0, bs[0]) == Some(m1));
    assert(moov_fold(m0, one) == Some(m1));
    let m2 = Movie { video: Some(v), ..m1 };
    assert(moov_step(m1, bs[1]) == Some(m2));
    assert(moov_fold(m0, two) == Some(m2));
    assert(moov_step(m2, bs[2]) == Some(Movie { audio: Some(a), ..m2 }));
}

proof fn lemma_file(moov: Seq<u8>)
    requires
        moov.len() < 0x4000_0000,
    ensures
        movie_of(written_boxes(seq![tagged('m', 'o', 'o', 'v', moov)])) == moov_fold(
            Movie { duration: 0, timescale: 0, video: None, audio: None },
            boxes(moov),
        ),
{
    let fs = seq![tagged('m', 'o', 'o', 'v', moov)];
    law_boxes_read_back(fs);
    reveal_with_fuel(file_fold, 2);
    assert(fs.drop_last() =~= seq![]);
    assert(fs[0].tag =~= tag4(109, 111, 111, 118));
}

/// The frame rate is the number of frames of the video over its length; it is told only of a
/// video of more than a fifth of a second.
pub proof fn law_container_fps(info: &Mp4Info, r: (u64, u64))
    requires
        call_ensures(container_fps, (info,), r),
    ensures
        r.1 > 0,
        info@.video is None ==> r.0 == 0,
        info@.video matches Some(v) ==> {
            &&& v.timescale == 0 || 5 * v.duration <= v.timescale ==> r.0 == 0
            &&& v.timescale > 0 && 5 * v.duration > v.timescale ==> r.0 * v.duration == v.samples
                * v.timescale * r.1
        },
{
    if let Some(v) = info@.video {
        if v.timescale > 0 && 5 * v.duration > v.timescale {
            assert(r.0 * v.duration == v.samples * v.timescale * r.1) by (nonlinear_arith)
                requires
                    r.0 == v.samples * v.timescale,
                    r.1 == v.duration,
            ;
        }
    }
}

/// Numbers have their largest byte first.
pub proof fn law_big_endian(d: Seq<u8>, at: int)
    ensures
        be32(d, at) == number4(d[at], d[at + 1], d[at + 2], d[at + 3]),
        be64(d, at) == number4(d[at], d[at + 1], d[at + 2], d[at + 3]) * 0x1_0000_0000 + number4(
            d[at + 4],
            d[at + 5],
            d[at + 6],
            d[at + 7],
        ),
{
}

/// The views of boxes are those of each of them.
pub proof fn law_views(v: Seq<BoxRef<'_>>, i: int)
    requires
        0 <= i < v.len(),
    ensures
        views(v).len() == v.len(),
        views(v)[i].tag == v[i].tag@ && views(v)[i].body == v[i].body@,
{
}

} // verus!
