//! The dictation indicator: where it stands and what it shows.
//!
//! The window itself (a layered, topmost, click-through Win32 window drawn by its
//! own thread) belongs to the application; this module decides its place on the
//! screen from the chosen anchor, the mouse pointer, the text caret and the work
//! area of the monitor, and keeps the indicator's settings.
use vstd::prelude::*;
use crate::text::str_eq;

verus! {

/// Where the indicator stands during dictation.
#[derive(Clone, Copy, PartialEq, Eq, Debug, Structural)]
pub enum Anchor {
    /// Next to the mouse pointer (the default).
    Cursor,
    /// Next to the text caret; where there is none, next to the pointer.
    Caret,
    TopLeft,
    TopCenter,
    TopRight,
    LeftCenter,
    RightCenter,
    BottomLeft,
    BottomCenter,
    BottomRight,
}

/// Distance of the indicator from the edge of the screen.
pub const EDGE: i32 = 24;

/// Position of an anchor in the list of all anchors.
pub open spec fn spec_index(a: Anchor) -> u8 {
    match a {
        Anchor::Cursor => 0,
        Anchor::Caret => 1,
        Anchor::TopLeft => 2,
        Anchor::TopCenter => 3,
        Anchor::TopRight => 4,
        Anchor::LeftCenter => 5,
        Anchor::RightCenter => 6,
        Anchor::BottomLeft => 7,
        Anchor::BottomCenter => 8,
        Anchor::BottomRight => 9,
    }
}

/// The anchor at a position of the list; past its end, the pointer.
pub open spec fn spec_from_index(i: u8) -> Anchor {
    if i == 0 {
        Anchor::Cursor
    } else if i == 1 {
        Anchor::Caret
    } else if i == 2 {
        Anchor::TopLeft
    } else if i == 3 {
        Anchor::TopCenter
    } else if i == 4 {
        Anchor::TopRight
    } else if i == 5 {
        Anchor::LeftCenter
    } else if i == 6 {
        Anchor::RightCenter
    } else if i == 7 {
        Anchor::BottomLeft
    } else if i == 8 {
        Anchor::BottomCenter
    } else if i == 9 {
        Anchor::BottomRight
    } else {
        Anchor::Cursor
    }
}

/// Name of an anchor in `config.json`.
pub open spec fn spec_anchor_id(a: Anchor) -> Seq<char> {
    match a {
        Anchor::Cursor => "cursor"@,
        Anchor::Caret => "caret"@,
        Anchor::TopLeft => "top-left"@,
        Anchor::TopCenter => "top-center"@,
        Anchor::TopRight => "top-right"@,
        Anchor::LeftCenter => "left-center"@,
        Anchor::RightCenter => "right-center"@,
        Anchor::BottomLeft => "bottom-left"@,
        Anchor::BottomCenter => "bottom-center"@,
        Anchor::BottomRight => "bottom-right"@,
    }
}

/// Label of an anchor in the settings.
pub open spec fn spec_anchor_label(a: Anchor) -> Seq<char> {
    match a {
        Anchor::Cursor => "У указателя мыши"@,
        Anchor::Caret => "У курсора ввода"@,
        Anchor::TopLeft => "Сверху слева"@,
        Anchor::TopCenter => "Сверху по центру"@,
        Anchor::TopRight => "Сверху справа"@,
        Anchor::LeftCenter => "Слева по центру"@,
        Anchor::RightCenter => "Справа по центру"@,
        Anchor::BottomLeft => "Снизу слева"@,
        Anchor::BottomCenter => "Снизу по центру"@,
        Anchor::BottomRight => "Снизу справа"@,
    }
}

/// The anchor named `s` in `config.json`: the first in list order whose name it
/// is, else the pointer.
pub open spec fn spec_anchor_from_id(s: Seq<char>) -> Anchor {
    first_named(s, 0)
}

pub open spec fn first_named(s: Seq<char>, i: int) -> Anchor
    decreases 10 - i,
{
    if i < 0 || i >= 10 {
        Anchor::Cursor
    } else if spec_anchor_id(spec_from_index(i as u8)) == s {
        spec_from_index(i as u8)
    } else {
        first_named(s, i + 1)
    }
}

impl Anchor {
    pub fn label(self) -> (r: &'static str)
        ensures
            r@ == spec_anchor_label(self),
    {
        match self {
            Anchor::Cursor => "У указателя мыши",
            Anchor::Caret => "У курсора ввода",
            Anchor::TopLeft => "Сверху слева",
            Anchor::TopCenter => "Сверху по центру",
            Anchor::TopRight => "Сверху справа",
            Anchor::LeftCenter => "Слева по центру",
            Anchor::RightCenter => "Справа по центру",
            Anchor::BottomLeft => "Снизу слева",
            Anchor::BottomCenter => "Снизу по центру",
            Anchor::BottomRight => "Снизу справа",
        }
    }

    /// Name for `config.json`, readable so that the file can be edited by hand.
    pub fn id(self) -> (r: &'static str)
        ensures
            r@ == spec_anchor_id(self),
    {
        match self {
            Anchor::Cursor => "cursor",
            Anchor::Caret => "caret",
            Anchor::TopLeft => "top-left",
            Anchor::TopCenter => "top-center",
            Anchor::TopRight => "top-right",
            Anchor::LeftCenter => "left-center",
            Anchor::RightCenter => "right-center",
            Anchor::BottomLeft => "bottom-left",
            Anchor::BottomCenter => "bottom-center",
            Anchor::BottomRight => "bottom-right",
        }
    }

    /// The anchor named `s`; an unknown name means the pointer.
    pub fn from_id(s: &str) -> (r: Anchor)
        ensures
            r == spec_anchor_from_id(s@),
    {
        let mut i: u8 = 0;
        while i < 10
            invariant
                i <= 10,
                first_named(s@, 0) == first_named(s@, i as int),
            decreases 10 - i,
        {
            let a = Anchor::from_index(i);
            if str_eq(a.id(), s) {
                return a;
            }
            i += 1;
        }
        Anchor::Cursor
    }

    /// Position in the list of all anchors.
    pub fn index(self) -> (r: u8)
        ensures
            r == spec_index(self),
    {
        match self {
            Anchor::Cursor => 0,
            Anchor::Caret => 1,
            Anchor::TopLeft => 2,
            Anchor::TopCenter => 3,
            Anchor::TopRight => 4,
            Anchor::LeftCenter => 5,
            Anchor::RightCenter => 6,
            Anchor::BottomLeft => 7,
            Anchor::BottomCenter => 8,
            Anchor::BottomRight => 9,
        }
    }

    /// The anchor at position `i`; past the end of the list, the pointer.
    pub fn from_index(i: u8) -> (r: Anchor)
        ensures
            r == spec_from_index(i),
    {
        if i == 0 {
            Anchor::Cursor
        } else if i == 1 {
            Anchor::Caret
        } else if i == 2 {
            Anchor::TopLeft
        } else if i == 3 {
            Anchor::TopCenter
        } else if i == 4 {
            Anchor::TopRight
        } else if i == 5 {
            Anchor::LeftCenter
        } else if i == 6 {
            Anchor::RightCenter
        } else if i == 7 {
            Anchor::BottomLeft
        } else if i == 8 {
            Anchor::BottomCenter
        } else if i == 9 {
            Anchor::BottomRight
        } else {
            Anchor::Cursor
        }
    }

    /// All anchors, in the order of the settings list.
    pub fn all() -> (r: Vec<Anchor>)
        ensures
            r@.len() == 10,
            forall|i: int| 0 <= i < 10 ==> r@[i] == spec_from_index(i as u8),
    {
        let mut r: Vec<Anchor> = Vec::new();
        let mut i: u8 = 0;
        while i < 10
            invariant
                i <= 10,
                r@.len() == i,
                forall|j: int| 0 <= j < i ==> r@[j] == spec_from_index(j as u8),
            decreases 10 - i,
        {
            r.push(Anchor::from_index(i));
            i += 1;
        }
        r
    }
}

proof fn lemma_first_named(s: Seq<char>, k: int, idx: int)
    requires
        0 <= k <= idx < 10,
        spec_anchor_id(spec_from_index(idx as u8)) == s,
        forall|j: int| k <= j < idx ==> #[trigger] spec_anchor_id(spec_from_index(j as u8)) != s,
    ensures
        first_named(s, k) == spec_from_index(idx as u8),
    decreases idx - k,
{
    if k < idx {
        lemma_first_named(s, k + 1, idx);
    }
}

/// An anchor survives the trip through its position and through its name.
pub proof fn law_anchor_round_trip(a: Anchor)
    ensures
        spec_from_index(spec_index(a)) == a,
        spec_anchor_from_id(spec_anchor_id(a)) == a,
{
    reveal_strlit("cursor");
    reveal_strlit("caret");
    reveal_strlit("top-left");
    reveal_strlit("top-center");
    reveal_strlit("top-right");
    reveal_strlit("left-center");
    reveal_strlit("right-center");
    reveal_strlit("bottom-left");
    reveal_strlit("bottom-center");
    reveal_strlit("bottom-right");
    assert("left-center"@[0] != "bottom-left"@[0]);
    assert("right-center"@[0] != "bottom-right"@[0]);
    let idx = spec_index(a) as int;
    assert forall|j: int| 0 <= j < idx implies #[trigger] spec_anchor_id(spec_from_index(j as u8))
        != spec_anchor_id(a) by {
        if spec_anchor_id(spec_from_index(j as u8)).len() == spec_anchor_id(a).len() {
            assert(spec_anchor_id(spec_from_index(j as u8))[0] != spec_anchor_id(a)[0]);
        }
    }
    lemma_first_named(spec_anchor_id(a), 0, idx);
}

/// The chosen anchor, stored as its position in the list.
pub struct AnchorCell {
    index: u8,
}

impl View for AnchorCell {
    type V = Anchor;

    closed spec fn view(&self) -> Anchor {
        spec_from_index(self.index)
    }
}

impl AnchorCell {
    /// The pointer until set otherwise.
    pub fn new() -> (r: Self)
        ensures
            r@ == Anchor::Cursor,
    {
        AnchorCell { index: 0 }
    }
}

pub fn set_anchor(cell: &mut AnchorCell, a: Anchor)
    ensures
        final(cell)@ == a,
{
    cell.index = a.index();
}

pub fn current_anchor(cell: &AnchorCell) -> (r: Anchor)
    ensures
        r == cell@,
{
    Anchor::from_index(cell.index)
}

/// A point on the screen.
#[derive(Clone, Copy, PartialEq, Eq, Debug, Structural)]
pub struct Point {
    pub x: i32,
    pub y: i32,
}

/// A rectangle on the screen (right and bottom exclusive).
#[derive(Clone, Copy, PartialEq, Eq, Debug, Structural)]
pub struct Rect {
    pub left: i32,
    pub top: i32,
    pub right: i32,
    pub bottom: i32,
}

/// Where a position came from.
#[derive(Clone, Copy, PartialEq, Eq, Debug, Structural)]
pub enum Source {
    /// The mouse pointer.
    Mouse,
    /// A place on the screen.
    Screen,
    /// The text caret.
    Caret,
}

pub open spec fn fits(x: int) -> bool {
    i32::MIN <= x <= i32::MAX
}

/// The arithmetic of placing a `w`×`h` indicator stays within `i32`.
pub open spec fn placement_fits(mode: Anchor, mouse: Point, caret: Option<Point>, area: Rect, w: i32, h: i32) -> bool {
    match mode {
        Anchor::Caret if caret is Some => fits(caret->0.x + 6) && fits(caret->0.y + 4),
        Anchor::Caret | Anchor::Cursor => fits(mouse.x + 14) && fits(mouse.y - h) && fits(mouse.y - h - 2),
        _ => {
            &&& fits(area.left + area.right)
            &&& fits(area.top + area.bottom)
            &&& fits((area.left + area.right) / 2 - w / 2)
            &&& fits((area.top + area.bottom) / 2 - h / 2)
            &&& fits(area.left + EDGE)
            &&& fits(area.top + EDGE)
            &&& fits(area.right - w)
            &&& fits(area.right - w - EDGE)
            &&& fits(area.bottom - h)
            &&& fits(area.bottom - h - EDGE)
        },
    }
}

/// Rust's `/` on integers: the quotient rounded toward zero.
pub open spec fn div_toward_zero(a: int, b: int) -> int
    recommends
        b > 0,
{
    if a >= 0 {
        a / b
    } else {
        -((-a) / b)
    }
}

/// Where the indicator goes, before it is kept on its monitor. Next to the caret:
/// a little below and to the right of the line, so as not to cover the text. Next
/// to the pointer: to its right, above it. At a place of the screen: `EDGE` from
/// the edges of the work area of the monitor under the pointer, or centred.
pub open spec fn spec_place(mode: Anchor, mouse: Point, caret: Option<Point>, area: Rect, w: i32, h: i32) -> (Point, Source) {
    let at_mouse = (Point { x: (mouse.x + 14) as i32, y: (mouse.y - h - 2) as i32 }, Source::Mouse);
    match mode {
        Anchor::Caret => match caret {
            Some(p) => (Point { x: (p.x + 6) as i32, y: (p.y + 4) as i32 }, Source::Caret),
            None => at_mouse,
        },
        Anchor::Cursor => at_mouse,
        _ => {
            let cx = div_toward_zero(area.left + area.right, 2) - div_toward_zero(w as int, 2);
            let cy = div_toward_zero(area.top + area.bottom, 2) - div_toward_zero(h as int, 2);
            let left = area.left + EDGE;
            let right = area.right - w - EDGE;
            let top = area.top + EDGE;
            let bottom = area.bottom - h - EDGE;
            let (x, y) = match mode {
                Anchor::TopLeft => (left, top),
                Anchor::TopCenter => (cx, top),
                Anchor::TopRight => (right, top),
                Anchor::LeftCenter => (left, cy),
                Anchor::RightCenter => (right, cy),
                Anchor::BottomLeft => (left, bottom),
                Anchor::BottomCenter => (cx, bottom),
                _ => (right, bottom),
            };
            (Point { x: x as i32, y: y as i32 }, Source::Screen)
        },
    }
}

/// Where the indicator goes before it is kept on its monitor; `area` is the work
/// area of the monitor under the pointer, `caret` the text caret if it is known.
pub fn place(mode: Anchor, mouse: Point, caret: Option<Point>, area: Rect, w: i32, h: i32) -> (r: (Point, Source))
    requires
        placement_fits(mode, mouse, caret, area, w, h),
    ensures
        r == spec_place(mode, mouse, caret, area, w, h),
{
    match mode {
        Anchor::Caret if caret.is_some() => {
            let p = caret.unwrap();
            (Point { x: p.x + 6, y: p.y + 4 }, Source::Caret)
        },
        Anchor::Caret | Anchor::Cursor => (Point { x: mouse.x + 14, y: mouse.y - h - 2 }, Source::Mouse),
        _ => {
            let cx = (area.left + area.right) / 2 - w / 2;
            let cy = (area.top + area.bottom) / 2 - h / 2;
            let left = area.left + EDGE;
            let right = area.right - w - EDGE;
            let top = area.top + EDGE;
            let bottom = area.bottom - h - EDGE;
            let (x, y) = match mode {
                Anchor::TopLeft => (left, top),
                Anchor::TopCenter => (cx, top),
                Anchor::TopRight => (right, top),
                Anchor::LeftCenter => (left, cy),
                Anchor::RightCenter => (right, cy),
                Anchor::BottomLeft => (left, bottom),
                Anchor::BottomCenter => (cx, bottom),
                _ => (right, bottom),
            };
            (Point { x, y }, Source::Screen)
        },
    }
}

/// The centre of a `w`×`h` indicator at `pos` (the point whose monitor keeps it).
pub fn center(pos: Point, w: i32, h: i32) -> (r: Point)
    requires
        fits(pos.x + div_toward_zero(w as int, 2)),
        fits(pos.y + div_toward_zero(h as int, 2)),
    ensures
        r.x == pos.x + div_toward_zero(w as int, 2),
        r.y == pos.y + div_toward_zero(h as int, 2),
{
    Point { x: pos.x + w / 2, y: pos.y + h / 2 }
}

pub open spec fn clamp(v: int, lo: int, hi: int) -> int {
    if v < lo {
        lo
    } else if v > hi {
        hi
    } else {
        v
    }
}

pub open spec fn max(a: int, b: int) -> int {
    if a >= b {
        a
    } else {
        b
    }
}

/// The position kept whole on the monitor it fell on: clamped into the work area,
/// the top left corner winning where the indicator is larger than the area.
pub open spec fn spec_keep_on(pos: Point, area: Rect, w: i32, h: i32) -> Point {
    Point {
        x: clamp(pos.x as int, area.left as int, max(area.right - w, area.left as int)) as i32,
        y: clamp(pos.y as int, area.top as int, max(area.bottom - h, area.top as int)) as i32,
    }
}

/// Keep the indicator whole on the monitor whose work area is `area`, so that it
/// is not cut in two between monitors at the edge of a screen.
pub fn keep_on(pos: Point, area: Rect, w: i32, h: i32) -> (r: Point)
    requires
        fits(area.right - w),
        fits(area.bottom - h),
    ensures
        r == spec_keep_on(pos, area, w, h),
        area.left <= r.x,
        area.top <= r.y,
        area.right - w >= area.left ==> r.x <= area.right - w,
        area.bottom - h >= area.top ==> r.y <= area.bottom - h,
{
    let xmax = if area.right - w > area.left { area.right - w } else { area.left };
    let ymax = if area.bottom - h > area.top { area.bottom - h } else { area.top };
    let x = if pos.x < area.left { area.left } else if pos.x > xmax { xmax } else { pos.x };
    let y = if pos.y < area.top { area.top } else if pos.y > ymax { ymax } else { pos.y };
    Point { x, y }
}

/// What the indicator window is told: whether it is shown, and the live level
/// counter of the microphone once one is attached (the first attached stays).
pub struct Overlay<L> {
    visible: bool,
    mic: Option<L>,
}

impl<L> Overlay<L> {
    /// Hidden, with no level counter.
    pub fn new() -> (r: Self)
        ensures
            !r.is_visible_spec(),
            r.mic_spec() is None,
    {
        Overlay { visible: false, mic: None }
    }

    pub closed spec fn is_visible_spec(&self) -> bool {
        self.visible
    }

    pub closed spec fn mic_spec(&self) -> Option<L> {
        self.mic
    }

    pub fn set_visible(&mut self, v: bool)
        ensures
            final(self).is_visible_spec() == v,
            final(self).mic_spec() == old(self).mic_spec(),
    {
        self.visible = v;
    }

    pub fn is_visible(&self) -> (r: bool)
        ensures
            r == self.is_visible_spec(),
    {
        self.visible
    }

    /// Attach the level counter of the microphone; one already attached stays.
    pub fn attach_level(&mut self, mic: L)
        ensures
            final(self).mic_spec() == (match old(self).mic_spec() {
                Some(m) => Some(m),
                None => Some(mic),
            }),
            final(self).is_visible_spec() == old(self).is_visible_spec(),
    {
        if self.mic.is_none() {
            self.mic = Some(mic);
        }
    }

    /// The attached level counter, if any.
    pub fn level_source(&self) -> (r: Option<&L>)
        ensures
            r == (match self.mic_spec() {
                Some(m) => Some(&m),
                None => None,
            }),
    {
        match &self.mic {
            Some(m) => Some(m),
            None => None,
        }
    }
}

} // verus!
