//! Screenshots: which monitors a part of the screen lies on, and putting the
//! pictures of the monitors together.
use vstd::prelude::*;

use crate::clock::{date_text, now_stamp, time_text, Stamp};
use crate::encoding::{base64_bytes, base64_text, decode_trimmed, encode};
use crate::paths::{dir_or_here, is_in, join, picture_dir};
use crate::picture::{
    from_rgba, jpeg, lemma_pixel_inside, lemma_pixel_of_byte, load, loaded, pixels, png,
    rgba_image, tight, to_rgba, write_jpeg, write_png, Bitmap,
};
use crate::screens::{
    bounds, law_span_holds_all, least, most, on_screen, span, ActiveWindowInfo, MonitorInfo,
};
use crate::text::{
    alphanumeric, decimal, decimal_text, is_alphanumeric, join2, join3, law_first_place,
    law_substituted, lowercase, place_of, same, substitute, substituted, to_chars, to_lowercase,
    trimmed,
};

verus! {

/// A screenshot: a picture file as base64.
pub struct CaptureResult {
    pub base64: String,
    pub mime: String,
    pub width: u32,
    pub height: u32,
}

// ---- monitors ----

/// What a monitor tells of itself, where it does.
pub struct RawMonitor {
    pub name: Option<String>,
    pub x: Option<i32>,
    pub y: Option<i32>,
    pub width: Option<u32>,
    pub height: Option<u32>,
}

/// A number, or 0 where it is not known.
pub open spec fn or_zero(n: Option<i32>) -> int {
    match n {
        Some(v) => v as int,
        None => 0,
    }
}

/// A size, or 0 where it is not known.
pub open spec fn size_or_zero(n: Option<u32>) -> int {
    match n {
        Some(v) => v as int,
        None => 0,
    }
}

/// Whether `m` is the monitor with this number that tells `raw` of itself. A monitor
/// without a name is called by its number, from 1.
pub open spec fn is_monitor(m: MonitorInfo, raw: RawMonitor, index: int) -> bool {
    &&& m.index == index
    &&& m.name@ == (match raw.name {
        Some(n) => n@,
        None => "Screen "@ + decimal((index + 1) as nat),
    })
    &&& m.x == or_zero(raw.x)
    &&& m.y == or_zero(raw.y)
    &&& m.width == size_or_zero(raw.width)
    &&& m.height == size_or_zero(raw.height)
}

/// Lists the monitors.
pub fn list_monitors(raw: &Vec<RawMonitor>) -> (r: Vec<MonitorInfo>)
    requires
        raw.len() < usize::MAX,
    ensures
        r.len() == raw.len(),
        forall|i: int| 0 <= i < r.len() ==> is_monitor(#[trigger] r@[i], raw@[i], i),
{
    let mut out: Vec<MonitorInfo> = Vec::new();
    let mut i: usize = 0;
    while i < raw.len()
        invariant
            i <= raw.len(),
            raw.len() < usize::MAX,
            out.len() == i,
            forall|k: int| 0 <= k < i ==> is_monitor(#[trigger] out@[k], raw@[k], k),
        decreases raw.len() - i,
    {
        let name = match &raw[i].name {
            Some(n) => n.clone(),
            None => {
                let d = decimal_text((i + 1) as u64);
                join2("Screen ", d.as_str())
            },
        };
        out.push(
            MonitorInfo {
                index: i,
                name,
                x: raw[i].x.unwrap_or(0),
                y: raw[i].y.unwrap_or(0),
                width: raw[i].width.unwrap_or(0),
                height: raw[i].height.unwrap_or(0),
            },
        );
        i = i + 1;
    }
    out
}

// ---- a part of the screen ----

/// A rectangle on the virtual screen.
#[derive(Clone, Copy)]
pub struct Region {
    pub x: i32,
    pub y: i32,
    pub w: u32,
    pub h: u32,
}

/// The largest width and height of a screenshot.
pub const LARGEST: u32 = 8000;

/// Whether a region can be captured, by its size.
pub fn check_region(r: &Region) -> (res: Result<(), String>)
    ensures
        if r.w == 0 || r.h == 0 {
            res matches Err(e) && e@ == "Empty region"@
        } else if r.w > LARGEST || r.h > LARGEST {
            res matches Err(e) && e@ == "Region too large"@
        } else {
            res is Ok
        },
{
    if r.w == 0 || r.h == 0 {
        return Err("Empty region".to_string());
    }
    if r.w > LARGEST || r.h > LARGEST {
        return Err("Region too large".to_string());
    }
    Ok(())
}

/// Whether a region has an area, and not too large a one.
pub open spec fn capturable(r: Region) -> bool {
    0 < r.w <= LARGEST && 0 < r.h <= LARGEST
}

/// The part of a region that lies on a monitor: its place in the region, its place
/// on the monitor, and its size.
#[derive(Clone, Copy)]
pub struct Part {
    pub monitor: usize,
    pub dx: u32,
    pub dy: u32,
    pub sx: u32,
    pub sy: u32,
    pub w: u32,
    pub h: u32,
}

/// The first column that a region and a monitor share.
pub open spec fn shared_left(r: Region, m: MonitorInfo) -> int {
    most(r.x as int, m.x as int)
}

/// The first row that a region and a monitor share.
pub open spec fn shared_top(r: Region, m: MonitorInfo) -> int {
    most(r.y as int, m.y as int)
}

/// The column behind the last one that a region and a monitor share.
pub open spec fn shared_right(r: Region, m: MonitorInfo) -> int {
    least(r.x + r.w, m.x + m.width)
}

/// The row behind the last one that a region and a monitor share.
pub open spec fn shared_bottom(r: Region, m: MonitorInfo) -> int {
    least(r.y + r.h, m.y + m.height)
}

/// Whether a region lies on a monitor in part.
pub open spec fn touches(r: Region, m: MonitorInfo) -> bool {
    shared_left(r, m) < shared_right(r, m) && shared_top(r, m) < shared_bottom(r, m)
}

/// The part of a region that lies on a monitor.
pub open spec fn part_on(r: Region, m: MonitorInfo, i: int) -> Part {
    Part {
        monitor: i as usize,
        dx: (shared_left(r, m) - r.x) as u32,
        dy: (shared_top(r, m) - r.y) as u32,
        sx: (shared_left(r, m) - m.x) as u32,
        sy: (shared_top(r, m) - m.y) as u32,
        w: (shared_right(r, m) - shared_left(r, m)) as u32,
        h: (shared_bottom(r, m) - shared_top(r, m)) as u32,
    }
}

/// The parts of a region on the first `n` monitors.
pub open spec fn parts_on(r: Region, ms: Seq<MonitorInfo>, n: int) -> Seq<Part>
    decreases n,
{
    if n <= 0 {
        seq![]
    } else if touches(r, ms[n - 1]) {
        parts_on(r, ms, n - 1).push(part_on(r, ms[n - 1], n - 1))
    } else {
        parts_on(r, ms, n - 1)
    }
}

/// The parts of a region on the monitors. It is an error if there are no monitors.
pub fn region_parts(r: &Region, ms: &Vec<MonitorInfo>) -> (res: Result<Vec<Part>, String>)
    ensures
        ms@.len() == 0 ==> (res matches Err(e) && e@ == "No monitors found"@),
        ms@.len() > 0 ==> (res matches Ok(v) && v@ == parts_on(*r, ms@, ms@.len() as int)),
        res matches Ok(v) ==> are_parts(*r, ms@, v@),
{
    if ms.len() == 0 {
        return Err("No monitors found".to_string());
    }
    let mut out: Vec<Part> = Vec::new();
    let mut i: usize = 0;
    while i < ms.len()
        invariant
            i <= ms.len(),
            out@ == parts_on(*r, ms@, i as int),
        decreases ms.len() - i,
    {
        let m = &ms[i];
        let left: i64 = if r.x > m.x {
            r.x as i64
        } else {
            m.x as i64
        };
        let top: i64 = if r.y > m.y {
            r.y as i64
        } else {
            m.y as i64
        };
        let right_r: i64 = r.x as i64 + r.w as i64;
        let right_m: i64 = m.x as i64 + m.width as i64;
        let right: i64 = if right_r < right_m {
            right_r
        } else {
            right_m
        };
        let bottom_r: i64 = r.y as i64 + r.h as i64;
        let bottom_m: i64 = m.y as i64 + m.height as i64;
        let bottom: i64 = if bottom_r < bottom_m {
            bottom_r
        } else {
            bottom_m
        };
        if left < right && top < bottom {
            let part = Part {
                monitor: i,
                dx: (left - r.x as i64) as u32,
                dy: (top - r.y as i64) as u32,
                sx: (left - m.x as i64) as u32,
                sy: (top - m.y as i64) as u32,
                w: (right - left) as u32,
                h: (bottom - top) as u32,
            };
            assert(part == part_on(*r, ms@[i as int], i as int));
            out.push(part);
        }
        i = i + 1;
    }
    proof {
        law_parts_cover_the_region(*r, ms@, ms@.len() as int);
        assert(ms@.take(ms@.len() as int) =~= ms@);
    }
    Ok(out)
}

// ---- putting the pictures together ----

/// What is left of a length behind a place in a picture.
pub open spec fn fits_in(len: int, size: int, at: int) -> int {
    if at >= size {
        0
    } else {
        least(len, size - at)
    }
}

/// Whether a pixel of the region is on the picture of a part: the picture may be
/// smaller than the monitor.
pub open spec fn covers(p: Part, shot: Bitmap, x: int, y: int) -> bool {
    &&& p.dx <= x < p.dx + fits_in(p.w as int, shot.width as int, p.sx as int)
    &&& p.dy <= y < p.dy + fits_in(p.h as int, shot.height as int, p.sy as int)
}

/// Whether the picture of a part shows anything of the region.
pub open spec fn paints(p: Part, shot: Bitmap) -> bool {
    fits_in(p.w as int, shot.width as int, p.sx as int) > 0 && fits_in(
        p.h as int,
        shot.height as int,
        p.sy as int,
    ) > 0
}

/// A byte of the region: that of the last of the first `n` parts that has the pixel,
/// and nothing where none has it.
pub open spec fn stitched(
    parts: Seq<Part>,
    shots: Seq<Bitmap>,
    n: int,
    x: int,
    y: int,
    part: int,
) -> u8
    decreases n,
{
    if n <= 0 {
        0
    } else if covers(parts[n - 1], shots[n - 1], x, y) {
        let p = parts[n - 1];
        shots[n - 1].byte(p.sx + x - p.dx, p.sy + y - p.dy, part)
    } else {
        stitched(parts, shots, n - 1, x, y, part)
    }
}

/// All bytes of the region, row by row.
pub open spec fn stitched_all(parts: Seq<Part>, shots: Seq<Bitmap>, w: int, h: int) -> Seq<u8> {
    Seq::new(
        (w * h * 4) as nat,
        |i: int|
            stitched(parts, shots, parts.len() as int, i / 4 % w, i / 4 / w, i % 4),
    )
}

/// Whether a picture shows anything of the region.
pub open spec fn painted(parts: Seq<Part>, shots: Seq<Bitmap>, n: int) -> bool
    decreases n,
{
    n > 0 && (paints(parts[n - 1], shots[n - 1]) || painted(parts, shots, n - 1))
}

/// Whether there is a whole picture for each part.
pub open spec fn shots_match(parts: Seq<Part>, shots: Seq<Bitmap>) -> bool {
    parts.len() == shots.len() && forall|i: int| 0 <= i < shots.len() ==> (#[trigger] shots[i]).whole()
}

fn length_in(len: u32, size: u32, at: u32) -> (r: u32)
    ensures
        r == fits_in(len as int, size as int, at as int),
{
    if at >= size {
        0
    } else if len < size - at {
        len
    } else {
        size - at
    }
}

/// Finds the last part that has a pixel, and the place of the pixel's bytes there.
fn find_pixel(parts: &Vec<Part>, shots: &Vec<Bitmap>, x: u32, y: u32) -> (r: Option<(usize, usize)>)
    requires
        shots_match(parts@, shots@),
    ensures
        match r {
            Some((k, at)) => k < shots.len() && at + 4 <= shots@[k as int].rgba@.len() && forall|
                c: int,
            |
                0 <= c < 4 ==> #[trigger] stitched(
                    parts@,
                    shots@,
                    parts@.len() as int,
                    x as int,
                    y as int,
                    c,
                ) == shots@[k as int].rgba@[at + c],
            None => forall|c: int|
                #[trigger] stitched(parts@, shots@, parts@.len() as int, x as int, y as int, c)
                    == 0,
        },
{
    let mut n: usize = parts.len();
    while n > 0
        invariant
            n <= parts.len(),
            shots_match(parts@, shots@),
            forall|c: int|
                #[trigger] stitched(parts@, shots@, parts@.len() as int, x as int, y as int, c)
                    == stitched(parts@, shots@, n as int, x as int, y as int, c),
        decreases n,
    {
        let p = &parts[n - 1];
        let shot = &shots[n - 1];
        let w: u32 = length_in(p.w, shot.width, p.sx);
        let h: u32 = length_in(p.h, shot.height, p.sy);
        if p.dx <= x && x - p.dx < w && p.dy <= y && y - p.dy < h {
            let px: usize = (p.sx + (x - p.dx)) as usize;
            let py: usize = (p.sy + (y - p.dy)) as usize;
            assert(shots@[n - 1].whole());
            proof {
                lemma_pixel_inside(
                    px as int,
                    py as int,
                    shot.width as int,
                    shot.height as int,
                );
            }
            let len: usize = shot.rgba.len();
            assert((py * shot.width + px) * 4 + 4 <= len);
            assert(0 <= py * shot.width <= len) by {
                assert(0 <= py * shot.width) by (nonlinear_arith)
                    requires
                        0 <= py,
                        0 <= shot.width,
                ;
            }
            let at: usize = (py * shot.width as usize + px) * 4;
            assert forall|c: int| 0 <= c < 4 implies #[trigger] stitched(
                parts@,
                shots@,
                parts@.len() as int,
                x as int,
                y as int,
                c,
            ) == shots@[n - 1].rgba@[at + c] by {
                assert(stitched(parts@, shots@, n as int, x as int, y as int, c) == shot.byte(
                    px as int,
                    py as int,
                    c,
                ));
            }
            return Some((n - 1, at));
        }
        n = n - 1;
    }
    None
}

/// Puts the pictures of the parts together. It is an error if none of them shows
/// anything of the region.
pub fn stitch(r: &Region, parts: &Vec<Part>, shots: &Vec<Bitmap>) -> (res: Result<Bitmap, String>)
    requires
        capturable(*r),
        shots_match(parts@, shots@),
    ensures
        if painted(parts@, shots@, parts@.len() as int) {
            res matches Ok(b) && b.width == r.w && b.height == r.h && b.rgba@ == stitched_all(
                parts@,
                shots@,
                r.w as int,
                r.h as int,
            ) && b.exact()
        } else {
            res matches Err(e) && e@ == "Selected area is outside all monitors"@
        },
        res matches Ok(b) ==> b.rgba@.len() == r.w * r.h * 4,
        res matches Ok(b) ==> forall|x: int, y: int, c: int|
            0 <= x < r.w && 0 <= y < r.h && 0 <= c < 4 ==> b.rgba@[(y * r.w + x) * 4 + c]
                == #[trigger] stitched(parts@, shots@, parts@.len() as int, x, y, c),
{
    proof {
        law_rows_of_pixels(parts@, shots@, r.w as int, r.h as int);
    }
    let mut any: bool = false;
    let mut k: usize = 0;
    while k < parts.len()
        invariant
            k <= parts.len(),
            shots_match(parts@, shots@),
            any == painted(parts@, shots@, k as int),
        decreases parts.len() - k,
    {
        let p = &parts[k];
        if length_in(p.w, shots[k].width, p.sx) > 0 && length_in(p.h, shots[k].height, p.sy) > 0 {
            any = true;
        }
        k = k + 1;
    }
    if !any {
        return Err("Selected area is outside all monitors".to_string());
    }
    let ghost all = stitched_all(parts@, shots@, r.w as int, r.h as int);
    let mut out: Vec<u8> = Vec::new();
    let mut y: u32 = 0;
    assert(0 * r.w == 0);
    while y < r.h
        invariant
            capturable(*r),
            shots_match(parts@, shots@),
            y <= r.h,
            all == stitched_all(parts@, shots@, r.w as int, r.h as int),
            out@.len() == y * r.w * 4,
            out@.len() <= all.len(),
            forall|i: int| 0 <= i < out@.len() ==> #[trigger] out@[i] == all[i],
        decreases r.h - y,
    {
        let mut x: u32 = 0;
        while x < r.w
            invariant
                capturable(*r),
                shots_match(parts@, shots@),
                y < r.h,
                x <= r.w,
                all == stitched_all(parts@, shots@, r.w as int, r.h as int),
                out@.len() == (y * r.w + x) * 4,
                forall|i: int| 0 <= i < out@.len() && i < all.len() ==> #[trigger] out@[i] == all[i],
            decreases r.w - x,
        {
            proof {
                lemma_pixel_inside(x as int, y as int, r.w as int, r.h as int);
                lemma_pixel_of_byte(x as int, y as int, 0, r.w as int);
                lemma_pixel_of_byte(x as int, y as int, 1, r.w as int);
                lemma_pixel_of_byte(x as int, y as int, 2, r.w as int);
                lemma_pixel_of_byte(x as int, y as int, 3, r.w as int);
            }
            let ghost base = (y * r.w + x) * 4;
            let ghost n = parts@.len() as int;
            assert(all[base] == stitched(parts@, shots@, n, x as int, y as int, 0));
            assert(all[base + 1] == stitched(parts@, shots@, n, x as int, y as int, 1));
            assert(all[base + 2] == stitched(parts@, shots@, n, x as int, y as int, 2));
            assert(all[base + 3] == stitched(parts@, shots@, n, x as int, y as int, 3));
            match find_pixel(parts, shots, x, y) {
                Some((k, at)) => {
                    let b = &shots[k].rgba;
                    let len: usize = b.len();
                    assert(at + 4 <= len);
                    out.push(b[at]);
                    out.push(b[at + 1]);
                    out.push(b[at + 2]);
                    out.push(b[at + 3]);
                },
                None => {
                    out.push(0);
                    out.push(0);
                    out.push(0);
                    out.push(0);
                },
            }
            x = x + 1;
        }
        proof {
            assert((y * r.w + r.w) * 4 == (y + 1) * r.w * 4) by (nonlinear_arith);
            assert((y + 1) * r.w * 4 <= r.w * r.h * 4) by (nonlinear_arith)
                requires
                    y + 1 <= r.h,
                    0 <= r.w,
            ;
        }
        y = y + 1;
    }
    proof {
        assert(r.h * r.w * 4 == r.w * r.h * 4) by (nonlinear_arith);
    }
    assert(out@ =~= all);
    Ok(Bitmap { width: r.w, height: r.h, rgba: out })
}

/// Whether a capture, when its file is read again, shows these pixels.
pub open spec fn shows(
    r: Result<CaptureResult, String>,
    width: u32,
    height: u32,
    rgba: Seq<u8>,
) -> bool {
    match r {
        Ok(c) => match picture_in(c.base64@) {
            Ok(img) => pixels(img) == (width, height, rgba),
            Err(_) => true,
        },
        Err(_) => true,
    }
}

/// Makes a screenshot of a picture: a PNG file as base64.
pub fn capture_result(b: Bitmap) -> (r: Result<CaptureResult, String>)
    requires
        b.exact(),
    ensures
        match png(rgba_image(b.width, b.height, b.rgba@)) {
            Ok(file) => r matches Ok(c) && c.base64@ == base64_text(file) && c.mime@
                == "image/png"@ && c.width == b.width && c.height == b.height,
            Err(words) => r matches Err(e) && e@ == words,
        },
        shows(r, b.width, b.height, b.rgba@),
{
    let width: u32 = b.width;
    let height: u32 = b.height;
    let ghost rgba = b.rgba@;
    let img = from_rgba(b);
    assert(img == rgba_image(width, height, rgba));
    match write_png(&img) {
        Ok(file) => Ok(
            CaptureResult {
                base64: encode(file.as_slice()),
                mime: "image/png".to_string(),
                width,
                height,
            },
        ),
        Err(e) => Err(e),
    }
}

/// The region that all monitors span.
pub fn whole_region(ms: &Vec<MonitorInfo>) -> (r: Result<Region, String>)
    requires
        on_screen(ms@),
    ensures
        ms@.len() == 0 ==> (r matches Err(e) && e@ == "No monitors found"@),
        ms@.len() > 0 ==> ({
            let s = span(ms@, ms@.len() as int);
            r matches Ok(g) && g.x == s.left && g.y == s.top && g.w == most(1, s.right - s.left)
                && g.h == most(1, s.bottom - s.top)
        }),
{
    if ms.len() == 0 {
        return Err("No monitors found".to_string());
    }
    let b = bounds(ms);
    let w: i64 = b.right as i64 - b.left as i64;
    let h: i64 = b.bottom as i64 - b.top as i64;
    Ok(
        Region {
            x: b.left,
            y: b.top,
            w: if w < 1 {
                1
            } else {
                w as u32
            },
            h: if h < 1 {
                1
            } else {
                h as u32
            },
        },
    )
}

/// The screenshot of a region, of the pictures of its parts.
pub fn capture_region(r: &Region, parts: &Vec<Part>, shots: &Vec<Bitmap>) -> (res: Result<
    CaptureResult,
    String,
>)
    requires
        capturable(*r),
        shots_match(parts@, shots@),
    ensures
        if painted(parts@, shots@, parts@.len() as int) {
            match png(
                rgba_image(r.w, r.h, stitched_all(parts@, shots@, r.w as int, r.h as int)),
            ) {
                Ok(file) => res matches Ok(c) && c.base64@ == base64_text(file) && c.mime@
                    == "image/png"@ && c.width == r.w && c.height == r.h,
                Err(words) => res matches Err(e) && e@ == words,
            }
        } else {
            res matches Err(e) && e@ == "Selected area is outside all monitors"@
        },
        shows(res, r.w, r.h, stitched_all(parts@, shots@, r.w as int, r.h as int)),
{
    match stitch(r, parts, shots) {
        Ok(b) => capture_result(b),
        Err(e) => Err(e),
    }
}

/// Checks the number of the monitor to capture.
pub fn check_monitor(count: usize, index: usize) -> (r: Result<(), String>)
    ensures
        index < count ==> r is Ok,
        index >= count ==> (r matches Err(e) && e@ == "Monitor not found"@),
{
    if index < count {
        Ok(())
    } else {
        Err("Monitor not found".to_string())
    }
}

/// The region of the active window.
pub fn capture_active_window(info: &ActiveWindowInfo) -> (r: Region)
    ensures
        r.x == info.x,
        r.y == info.y,
        r.w == info.width,
        r.h == info.height,
{
    Region { x: info.x, y: info.y, w: info.width, h: info.height }
}

// ---- picture files ----

/// The picture in a base64 text, or the words of an error.
pub open spec fn picture_in(b64: Seq<char>) -> Result<image::DynamicImage, Seq<char>> {
    match base64_bytes(trimmed(b64)) {
        Ok(bytes) => loaded(bytes),
        Err(words) => Err(words),
    }
}

/// Reads a picture that is written as base64.
pub fn decode_base64_png(b64: &str) -> (r: Result<image::DynamicImage, String>)
    ensures
        match r {
            Ok(img) => picture_in(b64@) matches Ok(t) && t == img && tight(img),
            Err(e) => picture_in(b64@) matches Err(t) && t == e@,
        },
{
    match decode_trimmed(b64) {
        Ok(bytes) => load(bytes.as_slice()),
        Err(e) => Err(e),
    }
}

/// Whether a file format is JPEG, by its name.
pub open spec fn is_jpeg(format: Seq<char>) -> bool {
    lowercase(format) == "jpg"@ || lowercase(format) == "jpeg"@
}

/// The bytes of a picture file: JPEG if the format asks for it, else PNG.
pub open spec fn file_of(img: image::DynamicImage, format: Seq<char>, quality: u8) -> Result<
    Seq<u8>,
    Seq<char>,
> {
    if is_jpeg(format) {
        jpeg(img, quality)
    } else {
        png(img)
    }
}

/// Whether `r` is a picture as base64 in a file format, with the format's media type, or
/// the error that it cannot be written.
pub open spec fn is_written(
    r: Result<(String, String), String>,
    img: image::DynamicImage,
    format: Seq<char>,
    quality: u8,
) -> bool {
    match file_of(img, format, quality) {
        Ok(file) => r matches Ok(p) && p.0@ == base64_text(file) && p.1@ == if is_jpeg(format) {
            "image/jpeg"@
        } else {
            "image/png"@
        },
        Err(words) => r matches Err(e) && e@ == words,
    }
}

/// Writes a picture as base64 in a file format, with the format's media type.
pub fn encode_image_base64(img: &image::DynamicImage, format: &str, quality: u8) -> (r: Result<
    (String, String),
    String,
>)
    requires
        is_jpeg(format@) || tight(*img),
    ensures
        is_written(r, *img, format@, quality),
{
    let fmt = to_lowercase(format);
    let is_jpg: bool = same(fmt.as_str(), "jpg") || same(fmt.as_str(), "jpeg");
    let file = if is_jpg {
        write_jpeg(img, quality)
    } else {
        write_png(img)
    };
    match file {
        Ok(bytes) => {
            let mime = if is_jpg {
                "image/jpeg".to_string()
            } else {
                "image/png".to_string()
            };
            Ok((encode(bytes.as_slice()), mime))
        },
        Err(e) => Err(e),
    }
}

/// The quality of a picture where none is given.
pub const USUAL_QUALITY: u8 = 90;

/// Writes a picture that is written as base64 in another file format.
pub fn convert_image(b64: &str, format: &str, quality: Option<u8>) -> (r: Result<
    (String, String),
    String,
>)
    ensures
        match picture_in(b64@) {
            Ok(img) => is_written(
                r,
                img,
                format@,
                match quality {
                    Some(q) => q,
                    None => USUAL_QUALITY,
                },
            ),
            Err(words) => r matches Err(e) && e@ == words,
        },
{
    match decode_base64_png(b64) {
        Ok(img) => encode_image_base64(&img, format, quality.unwrap_or(USUAL_QUALITY)),
        Err(e) => Err(e),
    }
}

/// The pixels of a picture that is written as base64.
pub fn decode_pixels(b64: &str) -> (r: Result<Bitmap, String>)
    ensures
        match picture_in(b64@) {
            Ok(img) => r matches Ok(b) && (b.width, b.height, b.rgba@) == pixels(img) && b.whole(),
            Err(words) => r matches Err(e) && e@ == words,
        },
{
    match decode_base64_png(b64) {
        Ok(img) => Ok(to_rgba(&img)),
        Err(e) => Err(e),
    }
}

/// Where screenshots go, for a user with this folder for pictures.
pub fn default_pictures_dir_in(pictures: Option<String>) -> (r: String)
    ensures
        is_in(r@, dir_or_here(pictures), "Open Screen"@),
{
    proof {
        reveal_strlit("Open Screen");
    }
    match pictures {
        Some(d) => join(d.as_str(), "Open Screen"),
        None => join(".", "Open Screen"),
    }
}

/// Where screenshots go.
pub fn default_pictures_dir() -> (r: String)
    ensures
        exists|pictures: Option<String>| is_in(r@, #[trigger] dir_or_here(pictures), "Open Screen"@),
{
    let pictures = picture_dir();
    let ghost p = pictures;
    let r = default_pictures_dir_in(pictures);
    assert(is_in(r@, dir_or_here(p), "Open Screen"@));
    r
}

// ---- names ----

/// Whether a character stays in the name of a file.
pub open spec fn in_name(c: char) -> bool {
    alphanumeric(c) || c == '-' || c == '_' || c == '.'
}

/// The name of a file with an underscore for each character that does not stay.
pub open spec fn cleaned(s: Seq<char>) -> Seq<char> {
    Seq::new(
        s.len(),
        |i: int|
            if in_name(s[i]) {
                s[i]
            } else {
                '_'
            },
    )
}

/// Whether a character separates folders in a path.
pub open spec fn separates_folders(c: char) -> bool {
    c == '/' || c == '\\'
}

/// The pattern of a name with the date, the time and the format in it.
pub open spec fn filled(pattern: Seq<char>, date: Seq<char>, time: Seq<char>, format: Seq<char>) -> Seq<
    char,
> {
    substituted(
        substituted(substituted(pattern, "{date}"@, date), "{time}"@, time),
        "{format}"@,
        format,
    )
}

/// The name of a screenshot.
pub open spec fn file_name(
    pattern: Seq<char>,
    date: Seq<char>,
    time: Seq<char>,
    format: Seq<char>,
) -> Seq<char> {
    cleaned(filled(pattern, date, time, format)) + "."@ + format
}

fn clean(s: &str) -> (r: String)
    ensures
        r@ == cleaned(s@),
        forall|i: int| 0 <= i < r@.len() ==> !separates_folders(#[trigger] r@[i]),
{
    let v = to_chars(s);
    let mut out = String::new();
    let mut i: usize = 0;
    while i < v.len()
        invariant
            i <= v.len(),
            v@ == s@,
            out@ =~= cleaned(s@).take(i as int),
            forall|k: int| 0 <= k < i ==> !separates_folders(#[trigger] out@[k]),
        decreases v.len() - i,
    {
        let c: char = v[i];
        if is_alphanumeric(c) || c == '-' || c == '_' || c == '.' {
            out.push(c);
        } else {
            out.push('_');
        }
        i = i + 1;
    }
    assert(out@ =~= cleaned(s@));
    out
}

/// The name of a screenshot that is taken at this time. Before the format, it holds
/// nothing that separates folders, whatever the pattern does.
pub fn generate_filename_at(format: &str, pattern: &str, stamp: &Stamp) -> (r: String)
    ensures
        r@ == file_name(pattern@, stamp.date@, stamp.time@, format@),
        forall|i: int|
            0 <= i < r@.len() - format@.len() ==> !separates_folders(#[trigger] r@[i]),
{
    proof {
        reveal_strlit("{date}");
        reveal_strlit("{time}");
        reveal_strlit("{format}");
        assert("{date}"@.len() == 6 && "{time}"@.len() == 6 && "{format}"@.len() == 8);
    }
    let with_date = substitute(pattern, "{date}", stamp.date.as_str());
    let with_time = substitute(with_date.as_str(), "{time}", stamp.time.as_str());
    let base = substitute(with_time.as_str(), "{format}", format);
    let name = clean(base.as_str());
    let r = join3(name.as_str(), ".", format);
    proof {
        reveal_strlit(".");
        assert("."@.len() == 1 && "."@[0] == '.');
        assert forall|i: int| 0 <= i < r@.len() - format@.len() implies !separates_folders(
            #[trigger] r@[i],
        ) by {
            if i < name@.len() {
                assert(r@[i] == name@[i]);
            } else {
                assert(r@[i] == "."@[i - name@.len()]);
            }
        }
    }
    r
}

/// The name of a screenshot that is taken now.
pub fn generate_filename(format: &str, pattern: &str) -> (r: String)
    ensures
        exists|date: Seq<char>, time: Seq<char>|
            date_text(date) && time_text(time) && r@ == #[trigger] file_name(
                pattern@,
                date,
                time,
                format@,
            ),
{
    let stamp = now_stamp();
    generate_filename_at(format, pattern, &stamp)
}

/// The pattern for the name of a screenshot: the usual one where none is given.
pub fn pattern_or_usual(pattern: Option<String>) -> (r: String)
    ensures
        r@ == (match pattern {
            Some(p) => p@,
            None => "OpenScreen_{date}_{time}"@,
        }),
{
    match pattern {
        Some(p) => p,
        None => "OpenScreen_{date}_{time}".to_string(),
    }
}

// ---- laws ----

/// Where pictures overlap, the last one that has a pixel shows it.
pub proof fn law_last_picture_wins(
    parts: Seq<Part>,
    shots: Seq<Bitmap>,
    n: int,
    k: int,
    x: int,
    y: int,
    part: int,
)
    requires
        0 <= k < n,
        covers(parts[k], shots[k], x, y),
        forall|j: int| k < j < n ==> !covers(parts[j], #[trigger] shots[j], x, y),
    ensures
        stitched(parts, shots, n, x, y, part) == shots[k].byte(
            parts[k].sx + x - parts[k].dx,
            parts[k].sy + y - parts[k].dy,
            part,
        ),
    decreases n,
{
    if k < n - 1 {
        assert(!covers(parts[n - 1], shots[n - 1], x, y));
        law_last_picture_wins(parts, shots, n - 1, k, x, y, part);
    }
}

/// What no picture has stays transparent.
pub proof fn law_uncovered_is_transparent(
    parts: Seq<Part>,
    shots: Seq<Bitmap>,
    n: int,
    x: int,
    y: int,
    part: int,
)
    requires
        forall|j: int| 0 <= j < n ==> !covers(parts[j], #[trigger] shots[j], x, y),
    ensures
        stitched(parts, shots, n, x, y, part) == 0,
    decreases n,
{
    if n > 0 {
        assert(!covers(parts[n - 1], shots[n - 1], x, y));
        law_uncovered_is_transparent(parts, shots, n - 1, x, y, part);
    }
}

/// A pixel keeps its place on the screen: the column and the row of the region that
/// a part fills are those of the monitor.
pub proof fn law_pixels_keep_their_place(r: Region, m: MonitorInfo, i: int, x: int, y: int)
    requires
        touches(r, m),
        part_on(r, m, i).dx <= x < part_on(r, m, i).dx + part_on(r, m, i).w,
        part_on(r, m, i).dy <= y < part_on(r, m, i).dy + part_on(r, m, i).h,
    ensures
        ({
            let p = part_on(r, m, i);
            &&& r.x + x == m.x + (p.sx + x - p.dx)
            &&& r.y + y == m.y + (p.sy + y - p.dy)
            &&& 0 <= x < r.w
            &&& 0 <= y < r.h
        }),
{
}

/// Whether a monitor shows a pixel of a region.
pub open spec fn shown_on(r: Region, m: MonitorInfo, x: int, y: int) -> bool {
    &&& m.x <= r.x + x < m.x + m.width
    &&& m.y <= r.y + y < m.y + m.height
}

/// Whether a part lies at this pixel of the region.
pub open spec fn lies_at(p: Part, x: int, y: int) -> bool {
    p.dx <= x < p.dx + p.w && p.dy <= y < p.dy + p.h
}

/// Whether a part of a region is on this monitor, with each pixel at its place there.
pub open spec fn is_part_of(r: Region, m: MonitorInfo, p: Part) -> bool {
    &&& p.w > 0 && p.h > 0
    &&& p.dx + p.w <= r.w && p.dy + p.h <= r.h
    &&& p.sx + p.w <= m.width && p.sy + p.h <= m.height
    &&& r.x + p.dx == m.x + p.sx && r.y + p.dy == m.y + p.sy
}

/// Whether some part on this monitor lies at this pixel of the region.
pub open spec fn some_part_at(parts: Seq<Part>, monitor: int, x: int, y: int) -> bool {
    exists|k: int|
        0 <= k < parts.len() && (#[trigger] parts[k]).monitor == monitor && lies_at(parts[k], x, y)
}

/// Whether these are the parts of a region on the monitors: every pixel of the region that a
/// monitor shows is in a part on that monitor, every part is on its monitor, and the parts
/// come in the order of the monitors, one for each at the most.
pub open spec fn are_parts(r: Region, ms: Seq<MonitorInfo>, parts: Seq<Part>) -> bool {
    &&& forall|i: int, x: int, y: int|
        0 <= i < ms.len() && 0 <= x < r.w && 0 <= y < r.h && #[trigger] shown_on(r, ms[i], x, y)
            ==> some_part_at(parts, i, x, y)
    &&& forall|k: int|
        0 <= k < parts.len() ==> (#[trigger] parts[k]).monitor < ms.len() && is_part_of(
            r,
            ms[parts[k].monitor as int],
            parts[k],
        )
    &&& forall|k: int, m: int|
        0 <= k < m < parts.len() ==> (#[trigger] parts[k]).monitor < (#[trigger] parts[m]).monitor
}

/// Every pixel of a region that some monitor shows is captured there, wherever on the
/// virtual screen the monitor lies, and nothing else is.
pub proof fn law_parts_cover_the_region(r: Region, ms: Seq<MonitorInfo>, n: int)
    requires
        0 <= n <= ms.len() <= usize::MAX,
    ensures
        are_parts(r, ms.take(n), parts_on(r, ms, n)),
    decreases n,
{
    if n > 0 {
        law_parts_cover_the_region(r, ms, n - 1);
        let front = parts_on(r, ms, n - 1);
        let all = parts_on(r, ms, n);
        let m = ms[n - 1];
        assert forall|i: int, x: int, y: int|
            0 <= i < n && 0 <= x < r.w && 0 <= y < r.h && #[trigger] shown_on(
                r,
                ms.take(n)[i],
                x,
                y,
            ) implies some_part_at(all, i, x, y) by {
            if i < n - 1 {
                assert(ms.take(n - 1)[i] == ms.take(n)[i]);
                assert(shown_on(r, ms.take(n - 1)[i], x, y));
                assert(some_part_at(front, i, x, y));
                let k = choose|k: int|
                    0 <= k < front.len() && (#[trigger] front[k]).monitor == i && lies_at(
                        front[k],
                        x,
                        y,
                    );
                assert(all[k] == front[k]);
            } else {
                assert(touches(r, m));
                assert(all[all.len() - 1] == part_on(r, m, n - 1));
                assert(lies_at(all[all.len() - 1], x, y));
            }
        }
        assert forall|k: int| 0 <= k < all.len() implies (#[trigger] all[k]).monitor < n
            && is_part_of(r, ms.take(n)[all[k].monitor as int], all[k]) by {
            if k < front.len() {
                assert(all[k] == front[k]);
                assert(ms.take(n)[all[k].monitor as int] == ms.take(n - 1)[all[k].monitor as int]);
            } else {
                assert(all[k] == part_on(r, m, n - 1));
                assert(ms.take(n)[n - 1] == m);
            }
        }
        assert forall|k: int, j: int| 0 <= k < j < all.len() implies (#[trigger] all[k]).monitor < (
        #[trigger] all[j]).monitor by {
            assert(all[k] == front[k]);
            if j < front.len() {
                assert(all[j] == front[j]);
            }
        }
    }
}

/// The bytes of a capture are its pixels row by row, four bytes each.
pub proof fn law_rows_of_pixels(parts: Seq<Part>, shots: Seq<Bitmap>, w: int, h: int)
    requires
        0 < w,
        0 < h,
    ensures
        stitched_all(parts, shots, w, h).len() == w * h * 4,
        forall|x: int, y: int, c: int|
            0 <= x < w && 0 <= y < h && 0 <= c < 4 ==> stitched_all(parts, shots, w, h)[(y * w + x)
                * 4 + c] == #[trigger] stitched(parts, shots, parts.len() as int, x, y, c),
{
    assert(w * h * 4 >= 0) by (nonlinear_arith)
        requires
            w > 0,
            h > 0,
    ;
    assert forall|x: int, y: int, c: int| 0 <= x < w && 0 <= y < h && 0 <= c < 4 implies stitched_all(
        parts,
        shots,
        w,
        h,
    )[(y * w + x) * 4 + c] == #[trigger] stitched(parts, shots, parts.len() as int, x, y, c) by {
        lemma_pixel_inside(x, y, w, h);
        lemma_pixel_of_byte(x, y, c, w);
    }
}

/// A pixel of a capture is the pixel of the monitor that shows it, at the place where the
/// monitor shows it; of several monitors that show it the last one counts.
pub proof fn law_pixels_come_from_monitors(
    r: Region,
    ms: Seq<MonitorInfo>,
    shots: Seq<Bitmap>,
    k: int,
    x: int,
    y: int,
    c: int,
)
    requires
        ms.len() <= usize::MAX,
        shots.len() == parts_on(r, ms, ms.len() as int).len(),
        0 <= k < shots.len(),
        0 <= x < r.w,
        0 <= y < r.h,
        ({
            let parts = parts_on(r, ms, ms.len() as int);
            let m = ms[parts[k].monitor as int];
            &&& shown_on(r, m, x, y)
            &&& r.x + x - m.x < shots[k].width
            &&& r.y + y - m.y < shots[k].height
            &&& forall|j: int|
                k < j < shots.len() ==> !shown_on(
                    r,
                    ms[(#[trigger] parts[j]).monitor as int],
                    x,
                    y,
                )
        }),
    ensures
        ({
            let parts = parts_on(r, ms, ms.len() as int);
            let m = ms[parts[k].monitor as int];
            stitched(parts, shots, parts.len() as int, x, y, c) == shots[k].rgba@[((r.y + y - m.y)
                * shots[k].width + (r.x + x - m.x)) * 4 + c]
        }),
{
    let parts = parts_on(r, ms, ms.len() as int);
    law_parts_cover_the_region(r, ms, ms.len() as int);
    assert(ms.take(ms.len() as int) =~= ms);
    let i = parts[k].monitor as int;
    let m = ms[i];
    assert(some_part_at(parts, i, x, y));
    let j = choose|j: int|
        0 <= j < parts.len() && (#[trigger] parts[j]).monitor == i && lies_at(parts[j], x, y);
    assert(j == k);
    assert(covers(parts[k], shots[k], x, y));
    assert forall|j: int| k < j < parts.len() implies !covers(parts[j], #[trigger] shots[j], x, y) by {
        assert(!shown_on(r, ms[parts[j].monitor as int], x, y));
        assert(is_part_of(r, ms[parts[j].monitor as int], parts[j]));
    }
    law_last_picture_wins(parts, shots, parts.len() as int, k, x, y, c);
}

/// A pixel that no monitor shows is transparent.
pub proof fn law_outside_is_transparent(
    r: Region,
    ms: Seq<MonitorInfo>,
    shots: Seq<Bitmap>,
    x: int,
    y: int,
    c: int,
)
    requires
        ms.len() <= usize::MAX,
        shots.len() == parts_on(r, ms, ms.len() as int).len(),
        forall|i: int| 0 <= i < ms.len() ==> !shown_on(r, #[trigger] ms[i], x, y),
    ensures
        stitched(parts_on(r, ms, ms.len() as int), shots, shots.len() as int, x, y, c) == 0,
{
    let parts = parts_on(r, ms, ms.len() as int);
    law_parts_cover_the_region(r, ms, ms.len() as int);
    assert(ms.take(ms.len() as int) =~= ms);
    assert forall|j: int| 0 <= j < parts.len() implies !covers(parts[j], #[trigger] shots[j], x, y) by {
        assert(is_part_of(r, ms[parts[j].monitor as int], parts[j]));
        assert(!shown_on(r, ms[parts[j].monitor as int], x, y));
    }
    law_uncovered_is_transparent(parts, shots, parts.len() as int, x, y, c);
}

/// A capture fails for want of a monitor only where no picture reaches into the region.
pub proof fn law_painted_where_pictures_reach(parts: Seq<Part>, shots: Seq<Bitmap>, n: int)
    requires
        0 <= n,
        forall|k: int| 0 <= k < n ==> (#[trigger] parts[k]).w > 0 && parts[k].h > 0,
    ensures
        painted(parts, shots, n) <==> exists|k: int|
            0 <= k < n && (#[trigger] parts[k]).sx < shots[k].width && parts[k].sy
                < shots[k].height,
    decreases n,
{
    if n > 0 {
        law_painted_where_pictures_reach(parts, shots, n - 1);
        let p = parts[n - 1];
        if p.sx < shots[n - 1].width && p.sy < shots[n - 1].height {
            assert(paints(p, shots[n - 1]));
        }
    }
}

/// A monitor is listed with the name, the place and the size that it tells; one without a name is
/// called by its number, counted from one.
pub proof fn law_monitor_listed(m: MonitorInfo, raw: RawMonitor, index: int)
    requires
        is_monitor(m, raw, index),
        index >= 0,
    ensures
        m.index == index,
        raw.name matches Some(n) ==> m.name@ == n@,
        raw.name is None ==> m.name@ == "Screen "@ + decimal((index + 1) as nat),
        raw.x matches Some(v) ==> m.x == v,
        raw.y matches Some(v) ==> m.y == v,
        raw.width matches Some(v) ==> m.width == v,
        raw.height matches Some(v) ==> m.height == v,
        raw.x is None ==> m.x == 0,
        raw.y is None ==> m.y == 0,
        raw.width is None ==> m.width == 0,
        raw.height is None ==> m.height == 0,
{
}

/// A region is refused only where it has no area, or a side above 8000; what can be captured is
/// what is not refused.
pub proof fn law_refused_regions(r: &Region, res: Result<(), String>)
    requires
        call_ensures(check_region, (r,), res),
    ensures
        res is Ok <==> 1 <= r.w <= 8000 && 1 <= r.h <= 8000,
        res is Ok <==> capturable(*r),
        res matches Err(e) ==> (r.w * r.h == 0 ==> e@ == "Empty region"@) && (r.w > 0 && r.h > 0
            ==> e@ == "Region too large"@),
{
    if r.w > 0 && r.h > 0 {
        assert(r.w * r.h > 0) by (nonlinear_arith)
            requires
                r.w > 0,
                r.h > 0,
        ;
    }
    if r.w == 0 || r.h == 0 {
        assert(r.w * r.h == 0) by (nonlinear_arith)
            requires
                r.w == 0 || r.h == 0,
        ;
    }
}

/// The region of all monitors reaches over each of them, and no further.
pub proof fn law_whole_region(ms: &Vec<MonitorInfo>, r: Result<Region, String>, i: int)
    requires
        on_screen(ms@),
        call_ensures(whole_region, (ms,), r),
        0 <= i < ms@.len(),
    ensures
        r matches Ok(g) && {
            &&& g.x <= ms@[i].x && ms@[i].x + ms@[i].width <= g.x + g.w
            &&& g.y <= ms@[i].y && ms@[i].y + ms@[i].height <= g.y + g.h
            &&& g.w >= 1 && g.h >= 1
            &&& exists|k: int| 0 <= k < ms@.len() && (#[trigger] ms@[k]).x == g.x
            &&& exists|k: int| 0 <= k < ms@.len() && (#[trigger] ms@[k]).y == g.y
            &&& g.w > 1 ==> exists|k: int|
                0 <= k < ms@.len() && (#[trigger] ms@[k]).x + ms@[k].width == g.x + g.w
            &&& g.h > 1 ==> exists|k: int|
                0 <= k < ms@.len() && (#[trigger] ms@[k]).y + ms@[k].height == g.y + g.h
        },
{
    law_span_holds_all(ms@, ms@.len() as int);
}

/// JPEG goes by two names, in either case; every other name means PNG. The media type is that of
/// the file that is written.
pub proof fn law_formats(
    r: Result<(String, String), String>,
    img: image::DynamicImage,
    format: Seq<char>,
    quality: u8,
)
    requires
        is_written(r, img, format, quality),
    ensures
        ({
            let j = lowercase(format) == "jpg"@ || lowercase(format) == "jpeg"@;
            &&& is_jpeg(format) <==> j
            &&& r matches Ok(p) ==> (j ==> p.1@ == "image/jpeg"@ && jpeg(img, quality) is Ok
                && p.0@ == base64_text(jpeg(img, quality)->Ok_0)) && (!j ==> p.1@ == "image/png"@
                && png(img) is Ok && p.0@ == base64_text(png(img)->Ok_0))
            &&& r is Err <==> (j && jpeg(img, quality) is Err) || (!j && png(img) is Err)
        }),
{
}

/// A name keeps letters, digits, hyphens, underscores and points, and has an underscore for
/// every other character; it is as long as before.
pub proof fn law_cleaned(s: Seq<char>, i: int)
    requires
        0 <= i < s.len(),
    ensures
        cleaned(s).len() == s.len(),
        alphanumeric(s[i]) || s[i] == '-' || s[i] == '_' || s[i] == '.' ==> cleaned(s)[i] == s[i],
        !(alphanumeric(s[i]) || s[i] == '-' || s[i] == '_' || s[i] == '.') ==> cleaned(s)[i] == '_',
{
}

proof fn lemma_no_place(s: Seq<char>, pat: Seq<char>, with: Seq<char>)
    requires
        pat.len() > 1,
        forall|j: int|
            0 <= j && j + pat.len() <= s.len() ==> !(#[trigger] s[j] == pat[0] && s[j + 1] == pat[1]),
    ensures
        substituted(s, pat, with) == s,
{
    law_first_place(s, pat, 0);
    if let Some(i) = place_of(s, pat, 0) {
        assert(s.subrange(i, i + pat.len())[0] == s[i]);
        assert(s.subrange(i, i + pat.len())[1] == s[i + 1]);
        assert(!(s[i] == pat[0] && s[i + 1] == pat[1]));
    }
}

proof fn lemma_one_place(a: Seq<char>, rest: Seq<char>, pat: Seq<char>, with: Seq<char>)
    requires
        pat.len() > 1,
        forall|i: int| 0 <= i < a.len() ==> #[trigger] a[i] != pat[0],
    ensures
        substituted(a + pat + rest, pat, with) == a + with + substituted(rest, pat, with),
{
    let s = a + pat + rest;
    let n = a.len() as int;
    assert(s.subrange(n, n + pat.len()) =~= pat);
    assert forall|j: int| 0 <= j < n implies #[trigger] s.subrange(j, j + pat.len()) != pat by {
        assert(s.subrange(j, j + pat.len())[0] == s[j]);
        assert(s[j] == a[j]);
    }
    law_substituted(s, pat, with, n);
    assert(s.take(n) =~= a);
    assert(s.skip(n + pat.len()) =~= rest);
}

/// A pattern is filled with the date and the time where it names them, and what else is in it
/// stays as it is.
pub proof fn law_filled(
    a: Seq<char>,
    b: Seq<char>,
    c: Seq<char>,
    date: Seq<char>,
    time: Seq<char>,
    format: Seq<char>,
)
    requires
        forall|i: int| 0 <= i < a.len() ==> #[trigger] a[i] != '{',
        forall|i: int| 0 <= i < b.len() ==> #[trigger] b[i] != '{',
        forall|i: int| 0 <= i < c.len() ==> #[trigger] c[i] != '{',
        forall|i: int| 0 <= i < date.len() ==> #[trigger] date[i] != '{',
        forall|i: int| 0 <= i < time.len() ==> #[trigger] time[i] != '{',
    ensures
        filled(a + "{date}"@ + (b + "{time}"@ + c), date, time, format) == a + date + b + time + c,
        filled(a, date, time, format) == a,
        file_name(a, date, time, format) == cleaned(a) + "."@ + format,
{
    reveal_strlit("{date}");
    reveal_strlit("{time}");
    reveal_strlit("{format}");
    let d = "{date}"@;
    let t = "{time}"@;
    let f = "{format}"@;
    assert(d.len() == 6 && d[0] == '{' && d[1] == 'd');
    assert(t.len() == 6 && t[0] == '{' && t[1] == 't');
    assert(t[2] != '{' && t[3] != '{' && t[4] != '{' && t[5] != '{');
    assert(f.len() == 8 && f[0] == '{' && f[1] == 'f');
    let rest = b + t + c;
    lemma_one_place(a, rest, d, date);
    assert forall|j: int| 0 <= j && j + d.len() <= rest.len() implies !(#[trigger] rest[j] == d[0]
        && rest[j + 1] == d[1]) by {
        if j < b.len() {
            assert(rest[j] == b[j]);
        } else if j < b.len() + 6 {
            assert(rest[j] == t[j - b.len()]);
            if j == b.len() {
                assert(rest[j + 1] == t[1]);
            }
        } else {
            assert(rest[j] == c[j - b.len() - 6]);
        }
    }
    lemma_no_place(rest, d, date);
    let one = a + date + rest;
    let front = a + date + b;
    assert(one =~= front + t + c);
    assert forall|i: int| 0 <= i < front.len() implies #[trigger] front[i] != t[0] by {
        if i < a.len() {
            assert(front[i] == a[i]);
        } else if i < a.len() + date.len() {
            assert(front[i] == date[i - a.len()]);
        } else {
            assert(front[i] == b[i - a.len() - date.len()]);
        }
    }
    lemma_one_place(front, c, t, time);
    lemma_no_place(c, t, time);
    let two = front + time + c;
    assert forall|i: int| 0 <= i < two.len() implies #[trigger] two[i] != '{' by {
        if i < front.len() {
            assert(two[i] == front[i]);
        } else if i < front.len() + time.len() {
            assert(two[i] == time[i - front.len()]);
        } else {
            assert(two[i] == c[i - front.len() - time.len()]);
        }
    }
    lemma_no_place(two, f, format);
    lemma_no_place(a, d, date);
    lemma_no_place(a, t, time);
    lemma_no_place(a, f, format);
}

/// A picture that is written in another format without a quality is written with one of 90.
pub proof fn law_usual_quality(
    b64: &str,
    format: &str,
    a: Result<(String, String), String>,
    img: image::DynamicImage,
    file: Seq<u8>,
)
    requires
        call_ensures(convert_image, (b64, format, None::<u8>), a),
        picture_in(b64@) == Ok::<image::DynamicImage, Seq<char>>(img),
        is_jpeg(format@),
        jpeg(img, 90) == Ok::<Seq<u8>, Seq<char>>(file),
    ensures
        a matches Ok(p) && p.0@ == base64_text(file),
{
}

/// White space around a picture in base64 makes no difference, and what is no base64 is told as
/// such.
pub proof fn law_picture_in(b64: Seq<char>, bytes: Seq<u8>, words: Seq<char>)
    ensures
        base64_bytes(trimmed(b64)) == Ok::<Seq<u8>, Seq<char>>(bytes) ==> picture_in(b64) == loaded(
            bytes,
        ),
        base64_bytes(trimmed(b64)) == Err::<Seq<u8>, Seq<char>>(words) ==> picture_in(b64) == Err::<
            image::DynamicImage,
            Seq<char>,
        >(words),
{
}

/// A monitor can be captured if it is one of those that there are.
pub proof fn law_monitor_there(count: usize, index: usize, r: Result<(), String>)
    requires
        call_ensures(check_monitor, (count, index), r),
    ensures
        r is Ok <==> index < count,
{
}

/// The region of a window is where the window is.
pub proof fn law_window_region(info: &ActiveWindowInfo, r: Region)
    requires
        call_ensures(capture_active_window, (info,), r),
    ensures
        (r.x, r.y, r.w, r.h) == (info.x, info.y, info.width, info.height),
{
}

} // verus!
