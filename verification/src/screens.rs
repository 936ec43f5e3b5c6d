//! The monitors, and the rectangle that they span.
use vstd::prelude::*;

verus! {

/// A monitor: its place on the virtual screen, and its size.
pub struct MonitorInfo {
    pub index: usize,
    pub name: String,
    pub x: i32,
    pub y: i32,
    pub width: u32,
    pub height: u32,
}

/// The window that the user works in.
pub struct ActiveWindowInfo {
    pub title: String,
    pub x: i32,
    pub y: i32,
    pub width: u32,
    pub height: u32,
}

/// The column behind the last one of a monitor.
pub open spec fn right(m: MonitorInfo) -> int {
    m.x + m.width
}

/// The row behind the last one of a monitor.
pub open spec fn bottom(m: MonitorInfo) -> int {
    m.y + m.height
}

/// The rectangle that monitors span.
pub struct Bounds {
    pub left: i32,
    pub top: i32,
    pub right: i32,
    pub bottom: i32,
}

/// What [`Bounds`] stand for.
#[verifier::ext_equal]
pub struct Span {
    pub left: int,
    pub top: int,
    pub right: int,
    pub bottom: int,
}

impl View for Bounds {
    type V = Span;

    open spec fn view(&self) -> Span {
        Span {
            left: self.left as int,
            top: self.top as int,
            right: self.right as int,
            bottom: self.bottom as int,
        }
    }
}

/// The smaller of two numbers.
pub open spec fn least(a: int, b: int) -> int {
    if a <= b {
        a
    } else {
        b
    }
}

/// The larger of two numbers.
pub open spec fn most(a: int, b: int) -> int {
    if a >= b {
        a
    } else {
        b
    }
}

/// The rectangle that a monitor covers.
pub open spec fn span_of(m: MonitorInfo) -> Span {
    Span { left: m.x as int, top: m.y as int, right: right(m), bottom: bottom(m) }
}

/// The smallest rectangle that holds the first `n` monitors.
pub open spec fn span(ms: Seq<MonitorInfo>, n: int) -> Span
    decreases n,
{
    if n <= 1 {
        span_of(ms[0])
    } else {
        let a = span(ms, n - 1);
        let b = span_of(ms[n - 1]);
        Span {
            left: least(a.left, b.left),
            top: least(a.top, b.top),
            right: most(a.right, b.right),
            bottom: most(a.bottom, b.bottom),
        }
    }
}

/// Whether the places and sizes of all monitors fit in 32 bits, and the span of
/// all of them too.
pub open spec fn on_screen(ms: Seq<MonitorInfo>) -> bool {
    &&& forall|i: int|
        0 <= i < ms.len() ==> right(#[trigger] ms[i]) <= i32::MAX && bottom(ms[i]) <= i32::MAX
    &&& ms.len() > 0 ==> {
        let s = span(ms, ms.len() as int);
        s.right - s.left <= i32::MAX && s.bottom - s.top <= i32::MAX
    }
}

/// The rectangle that the monitors span.
pub fn bounds(ms: &Vec<MonitorInfo>) -> (r: Bounds)
    requires
        ms.len() > 0,
        forall|i: int|
            0 <= i < ms.len() ==> right(#[trigger] ms@[i]) <= i32::MAX && bottom(ms@[i])
                <= i32::MAX,
    ensures
        r@ == span(ms@, ms@.len() as int),
{
    assert(right(ms@[0]) <= i32::MAX);
    let mut b = Bounds {
        left: ms[0].x,
        top: ms[0].y,
        right: (ms[0].x as i64 + ms[0].width as i64) as i32,
        bottom: (ms[0].y as i64 + ms[0].height as i64) as i32,
    };
    let mut i: usize = 1;
    while i < ms.len()
        invariant
            1 <= i <= ms.len(),
            b@ == span(ms@, i as int),
            forall|k: int|
                0 <= k < ms.len() ==> right(#[trigger] ms@[k]) <= i32::MAX && bottom(ms@[k])
                    <= i32::MAX,
        decreases ms.len() - i,
    {
        let m = &ms[i];
        assert(right(ms@[i as int]) <= i32::MAX);
        let right: i32 = (m.x as i64 + m.width as i64) as i32;
        let bottom: i32 = (m.y as i64 + m.height as i64) as i32;
        b = Bounds {
            left: if m.x < b.left {
                m.x
            } else {
                b.left
            },
            top: if m.y < b.top {
                m.y
            } else {
                b.top
            },
            right: if right > b.right {
                right
            } else {
                b.right
            },
            bottom: if bottom > b.bottom {
                bottom
            } else {
                b.bottom
            },
        };
        i = i + 1;
    }
    b
}

/// Whether the places and sizes of all monitors, and of what they span, fit in
/// 32 bits.
pub fn monitors_fit(ms: &Vec<MonitorInfo>) -> (r: bool)
    ensures
        r == on_screen(ms@),
{
    let mut i: usize = 0;
    while i < ms.len()
        invariant
            i <= ms.len(),
            forall|k: int|
                0 <= k < i ==> right(#[trigger] ms@[k]) <= i32::MAX && bottom(ms@[k]) <= i32::MAX,
        decreases ms.len() - i,
    {
        let m = &ms[i];
        if m.x as i64 + m.width as i64 > i32::MAX as i64 || m.y as i64 + m.height as i64
            > i32::MAX as i64 {
            assert(right(ms@[i as int]) > i32::MAX || bottom(ms@[i as int]) > i32::MAX);
            return false;
        }
        i = i + 1;
    }
    if ms.len() == 0 {
        return true;
    }
    let b = bounds(ms);
    b.right as i64 - b.left as i64 <= i32::MAX as i64 && b.bottom as i64 - b.top as i64
        <= i32::MAX as i64
}

/// What the monitors span holds every one of them, and each of its edges is the
/// edge of one of them.
pub proof fn law_span_holds_all(ms: Seq<MonitorInfo>, n: int)
    requires
        1 <= n <= ms.len(),
    ensures
        ({
            let s = span(ms, n);
            &&& forall|i: int|
                0 <= i < n ==> s.left <= (#[trigger] ms[i]).x && s.top <= ms[i].y && ms[i].x
                    + ms[i].width <= s.right && ms[i].y + ms[i].height <= s.bottom
            &&& exists|i: int| 0 <= i < n && s.left == (#[trigger] ms[i]).x
            &&& exists|i: int| 0 <= i < n && s.top == (#[trigger] ms[i]).y
            &&& exists|i: int| 0 <= i < n && s.right == (#[trigger] ms[i]).x + ms[i].width
            &&& exists|i: int| 0 <= i < n && s.bottom == (#[trigger] ms[i]).y + ms[i].height
        }),
    decreases n,
{
    if n > 1 {
        law_span_holds_all(ms, n - 1);
        let a = span(ms, n - 1);
        let last = ms[n - 1];
        let il = choose|i: int| 0 <= i < n - 1 && a.left == (#[trigger] ms[i]).x;
        let it = choose|i: int| 0 <= i < n - 1 && a.top == (#[trigger] ms[i]).y;
        let ir = choose|i: int| 0 <= i < n - 1 && a.right == (#[trigger] ms[i]).x
            + ms[i].width;
        let ib = choose|i: int| 0 <= i < n - 1 && a.bottom == (#[trigger] ms[i]).y
            + ms[i].height;
        let s = span(ms, n);
        assert(s.left == ms[il].x || s.left == ms[n - 1].x);
        assert(s.top == ms[it].y || s.top == ms[n - 1].y);
        assert(s.right == right(ms[ir]) || s.right == right(ms[n - 1]));
        assert(s.bottom == bottom(ms[ib]) || s.bottom == bottom(ms[n - 1]));
    } else {
        assert(span(ms, n) == span_of(ms[0]));
    }
}

/// The monitors fit if the edges of each of them do, and no two are further apart than 32 bits
/// can tell.
pub proof fn law_fitting_monitors(ms: Seq<MonitorInfo>)
    ensures
        on_screen(ms) <==> (forall|i: int|
            0 <= i < ms.len() ==> (#[trigger] ms[i]).x + ms[i].width <= 0x7fff_ffff && ms[i].y
                + ms[i].height <= 0x7fff_ffff) && (forall|i: int, j: int|
            0 <= i < ms.len() && 0 <= j < ms.len() ==> (#[trigger] ms[j]).x + ms[j].width - (
            #[trigger] ms[i]).x <= 0x7fff_ffff && ms[j].y + ms[j].height - ms[i].y <= 0x7fff_ffff),
{
    if ms.len() > 0 {
        law_span_holds_all(ms, ms.len() as int);
        let n = ms.len() as int;
        let s = span(ms, n);
        let il = choose|i: int| 0 <= i < n && s.left == (#[trigger] ms[i]).x;
        let it = choose|i: int| 0 <= i < n && s.top == (#[trigger] ms[i]).y;
        let ir = choose|i: int| 0 <= i < n && s.right == (#[trigger] ms[i]).x + ms[i].width;
        let ib = choose|i: int| 0 <= i < n && s.bottom == (#[trigger] ms[i]).y + ms[i].height;
        assert(ms[il].x == s.left && ms[it].y == s.top);
        assert(ms[ir].x + ms[ir].width == s.right && ms[ib].y + ms[ib].height == s.bottom);
        if forall|i: int|
            0 <= i < ms.len() ==> (#[trigger] ms[i]).x + ms[i].width <= 0x7fff_ffff && ms[i].y
                + ms[i].height <= 0x7fff_ffff {
            assert forall|i: int| 0 <= i < ms.len() implies right(#[trigger] ms[i]) <= i32::MAX
                && bottom(ms[i]) <= i32::MAX by {}
        }
        if on_screen(ms) {
            assert forall|i: int| 0 <= i < ms.len() implies (#[trigger] ms[i]).x + ms[i].width
                <= 0x7fff_ffff && ms[i].y + ms[i].height <= 0x7fff_ffff by {
                assert(right(ms[i]) <= i32::MAX);
            }
        }
    }
}

} // verus!
