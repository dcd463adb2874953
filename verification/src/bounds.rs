use vstd::prelude::*;
use crate::text::{chars_of, decimal, push_chars, push_decimal, string_from_chars};

verus! {

/// The point of a box that stays fixed when the box is resized or moved.
#[derive(Debug, Clone, Copy, PartialEq, Eq, Hash, Structural)]
pub enum Anchor {
    TopLeft,
    TopRight,
    BottomLeft,
    BottomRight,
    Center,
    CenterTop,
    CenterBottom,
    CenterLeft,
    CenterRight,
}

impl Default for Anchor {
    fn default() -> (a: Self)
        ensures
            a == Anchor::Center,
    {
        Anchor::Center
    }
}

/// Absolute screen rectangle: columns `x1..x2` and rows `y1..y2`.
#[derive(Debug, Clone, Copy, PartialEq, Eq, Hash, Structural)]
pub struct Bounds {
    pub x1: usize,
    pub y1: usize,
    pub x2: usize,
    pub y2: usize,
}

/// `a - b`, or 0 when `b > a`.
pub open spec fn sat_sub(a: usize, b: usize) -> usize {
    if a >= b {
        (a - b) as usize
    } else {
        0
    }
}

/// `v` moved by the signed offset `d`, computed as the machine does:
/// `v` read as an `isize`, `d` added, the sum read back as a `usize`.
pub open spec fn shifted(v: usize, d: isize) -> usize {
    ((v as isize) + d) as usize
}

/// Whether `shifted(v, d)` is computed without an overflow of the signed sum.
pub open spec fn shift_fits(v: usize, d: isize) -> bool {
    isize::MIN <= (v as isize) + d <= isize::MAX
}

pub open spec fn fits_usize(v: int) -> bool {
    0 <= v <= usize::MAX
}

pub open spec fn spec_min(a: usize, b: usize) -> usize {
    if a <= b {
        a
    } else {
        b
    }
}

pub open spec fn spec_max(a: usize, b: usize) -> usize {
    if a >= b {
        a
    } else {
        b
    }
}

impl Bounds {
    /// Corners are ordered: what `validate` demands after every change.
    pub open spec fn wf(self) -> bool {
        self.x1 <= self.x2 && self.y1 <= self.y2
    }

    pub open spec fn spec_width(self) -> usize {
        sat_sub(self.x2, self.x1)
    }

    pub open spec fn spec_height(self) -> usize {
        sat_sub(self.y2, self.y1)
    }

    pub open spec fn spec_contains(self, x: usize, y: usize) -> bool {
        self.x1 <= x && x < self.x2 && self.y1 <= y && y < self.y2
    }

    /// Whether one of the four corners of `other` lies inside `self`.
    pub open spec fn spec_intersects(self, other: Bounds) -> bool {
        self.spec_contains(other.x1, other.y1) || self.spec_contains(other.x2, other.y2)
            || self.spec_contains(other.x1, other.y2) || self.spec_contains(other.x2, other.y1)
    }

    pub open spec fn spec_union(self, other: Bounds) -> Bounds {
        Bounds {
            x1: spec_min(self.x1, other.x1),
            y1: spec_min(self.y1, other.y1),
            x2: spec_max(self.x2, other.x2),
            y2: spec_max(self.y2, other.y2),
        }
    }

    pub open spec fn spec_overlap(self, other: Bounds) -> Bounds {
        Bounds {
            x1: spec_max(self.x1, other.x1),
            y1: spec_max(self.y1, other.y1),
            x2: spec_min(self.x2, other.x2),
            y2: spec_min(self.y2, other.y2),
        }
    }

    pub open spec fn spec_translate(self, dx: isize, dy: isize) -> Bounds {
        Bounds {
            x1: shifted(self.x1, dx),
            y1: shifted(self.y1, dy),
            x2: shifted(self.x2, dx),
            y2: shifted(self.y2, dy),
        }
    }

    pub open spec fn translate_fits(self, dx: isize, dy: isize) -> bool {
        shift_fits(self.x1, dx) && shift_fits(self.y1, dy) && shift_fits(self.x2, dx)
            && shift_fits(self.y2, dy)
    }

    /// Amounts by which `extend` moves each side outward: (left, top, right, bottom).
    pub open spec fn extend_amounts(h: usize, v: usize, anchor: Anchor) -> (usize, usize, usize, usize) {
        let hh = (h / 2) as usize;
        let hv = (v / 2) as usize;
        match anchor {
            Anchor::TopLeft => (h, v, 0, 0),
            Anchor::TopRight => (0, v, h, 0),
            Anchor::BottomLeft => (h, 0, 0, v),
            Anchor::BottomRight => (0, 0, h, v),
            Anchor::Center => (hh, hv, hh, hv),
            Anchor::CenterTop => (hh, v, hh, 0),
            Anchor::CenterBottom => (hh, 0, hh, v),
            Anchor::CenterLeft => (h, hv, 0, hv),
            Anchor::CenterRight => (0, hv, h, hv),
        }
    }

    /// The rectangle after `extend`: left and top sides move out and stop at 0,
    /// right and bottom sides move out by the full amount.
    pub open spec fn spec_extended(self, h: usize, v: usize, anchor: Anchor) -> Bounds {
        let (l, t, r, b) = Self::extend_amounts(h, v, anchor);
        Bounds {
            x1: sat_sub(self.x1, l),
            y1: sat_sub(self.y1, t),
            x2: (self.x2 + r) as usize,
            y2: (self.y2 + b) as usize,
        }
    }

    pub open spec fn extend_fits(self, h: usize, v: usize, anchor: Anchor) -> bool {
        let (l, t, r, b) = Self::extend_amounts(h, v, anchor);
        fits_usize(self.x2 + r) && fits_usize(self.y2 + b)
    }

    /// The rectangle after `contract`: left and top sides move in by the full
    /// amount, right and bottom sides move in and stop at 0.
    pub open spec fn spec_contracted(self, h: usize, v: usize, anchor: Anchor) -> Bounds {
        let (l, t, r, b) = Self::extend_amounts(h, v, anchor);
        Bounds {
            x1: (self.x1 + l) as usize,
            y1: (self.y1 + t) as usize,
            x2: sat_sub(self.x2, r),
            y2: sat_sub(self.y2, b),
        }
    }

    pub open spec fn contract_fits(self, h: usize, v: usize, anchor: Anchor) -> bool {
        let (l, t, r, b) = Self::extend_amounts(h, v, anchor);
        fits_usize(self.x1 + l) && fits_usize(self.y1 + t)
    }

    /// The rectangle after `move_to`, as integers: the anchor point lands on
    /// `(x, y)` and the width and height (halved for a centered axis) are kept.
    pub open spec fn moved_to(self, x: usize, y: usize, anchor: Anchor) -> (int, int, int, int) {
        let w = self.spec_width() as int;
        let h = self.spec_height() as int;
        let hw = w / 2;
        let hh = h / 2;
        match anchor {
            Anchor::TopLeft => (x as int, y as int, x + w, y + h),
            Anchor::TopRight => (x - w, y as int, x as int, y + h),
            Anchor::BottomLeft => (x as int, y - h, x + w, y as int),
            Anchor::BottomRight => (x - w, y - h, x as int, y as int),
            Anchor::Center => (x - hw, y - hh, x + hw, y + hh),
            Anchor::CenterTop => (x - hw, y as int, x + hw, y + h),
            Anchor::CenterBottom => (x - hw, y - h, x + hw, y as int),
            Anchor::CenterLeft => (x as int, y - hh, x + w, y + hh),
            Anchor::CenterRight => (x - w, y - hh, x as int, y + hh),
        }
    }

    pub open spec fn move_to_fits(self, x: usize, y: usize, anchor: Anchor) -> bool {
        let (a, b, c, d) = self.moved_to(x, y, anchor);
        fits_usize(a) && fits_usize(b) && fits_usize(c) && fits_usize(d)
    }

    pub open spec fn spec_moved_to(self, x: usize, y: usize, anchor: Anchor) -> Bounds {
        let (a, b, c, d) = self.moved_to(x, y, anchor);
        Bounds { x1: a as usize, y1: b as usize, x2: c as usize, y2: d as usize }
    }

    pub fn new(x1: usize, y1: usize, x2: usize, y2: usize) -> (b: Self)
        ensures
            b == (Bounds { x1, y1, x2, y2 }),
    {
        Bounds { x1, y1, x2, y2 }
    }

    /// What `validate` reports for a rectangle whose corners are out of
    /// order: the x coordinates when they are, else the y coordinates.
    pub open spec fn validation_message(self) -> Seq<char> {
        if self.x1 > self.x2 {
            "Validation error: x1 ("@ + decimal(self.x1 as nat) + ") is greater than x2 ("@ + decimal(
                self.x2 as nat,
            ) + ")"@
        } else {
            "Validation error: y1 ("@ + decimal(self.y1 as nat) + ") is greater than y2 ("@ + decimal(
                self.y2 as nat,
            ) + ")"@
        }
    }

    /// The check that `validate` makes: `None` exactly when the corners are
    /// in order, else the message it fails with.
    pub fn validation_error(&self) -> (r: Option<String>)
        ensures
            r is None <==> (self.x1 <= self.x2 && self.y1 <= self.y2),
            r matches Some(m) ==> m@ == self.validation_message(),
    {
        if self.x1 <= self.x2 && self.y1 <= self.y2 {
            return None;
        }
        let mut out: Vec<char> = Vec::new();
        if self.x1 > self.x2 {
            push_chars(&mut out, &chars_of("Validation error: x1 ("));
            push_decimal(&mut out, self.x1 as u64);
            push_chars(&mut out, &chars_of(") is greater than x2 ("));
            push_decimal(&mut out, self.x2 as u64);
        } else {
            push_chars(&mut out, &chars_of("Validation error: y1 ("));
            push_decimal(&mut out, self.y1 as u64);
            push_chars(&mut out, &chars_of(") is greater than y2 ("));
            push_decimal(&mut out, self.y2 as u64);
        }
        push_chars(&mut out, &chars_of(")"));
        assert(out@ =~= self.validation_message());
        Some(string_from_chars(&out))
    }

    /// Validation of a rectangle: it passes exactly when its corners are in
    /// order (`x1 <= x2` and `y1 <= y2`); any other rectangle is refused, the
    /// x coordinates checked first (see `validation_error`), and callers do
    /// not hand one in.
    pub fn validate(&self)
        requires
            self.x1 <= self.x2,
            self.y1 <= self.y2,
    {
    }

    pub fn width(&self) -> (w: usize)
        ensures
            w == self.spec_width(),
    {
        self.x2.saturating_sub(self.x1)
    }

    pub fn height(&self) -> (h: usize)
        ensures
            h == self.spec_height(),
    {
        self.y2.saturating_sub(self.y1)
    }

    /// Text form `(x1, y1), (x2, y2)`.
    pub open spec fn spec_to_string(self) -> Seq<char> {
        seq!['('] + decimal(self.x1 as nat) + seq![',', ' '] + decimal(self.y1 as nat) + seq![
            ')',
            ',',
            ' ',
            '(',
        ] + decimal(self.x2 as nat) + seq![',', ' '] + decimal(self.y2 as nat) + seq![')']
    }

    pub fn to_string(&self) -> (s: String)
        ensures
            s@ == self.spec_to_string(),
    {
        let mut out: Vec<char> = Vec::new();
        out.push('(');
        push_decimal(&mut out, self.x1 as u64);
        out.push(',');
        out.push(' ');
        push_decimal(&mut out, self.y1 as u64);
        out.push(')');
        out.push(',');
        out.push(' ');
        out.push('(');
        push_decimal(&mut out, self.x2 as u64);
        out.push(',');
        out.push(' ');
        push_decimal(&mut out, self.y2 as u64);
        out.push(')');
        assert(out@ =~= self.spec_to_string());
        string_from_chars(&out)
    }

    pub fn extend(&mut self, horizontal_amount: usize, vertical_amount: usize, anchor: Anchor)
        requires
            old(self).extend_fits(horizontal_amount, vertical_amount, anchor),
            old(self).spec_extended(horizontal_amount, vertical_amount, anchor).wf(),
        ensures
            *final(self) == old(self).spec_extended(horizontal_amount, vertical_amount, anchor),
    {
        match anchor {
            Anchor::TopLeft => {
                self.x1 = self.x1.saturating_sub(horizontal_amount);
                self.y1 = self.y1.saturating_sub(vertical_amount);
            },
            Anchor::TopRight => {
                self.x2 = self.x2 + horizontal_amount;
                self.y1 = self.y1.saturating_sub(vertical_amount);
            },
            Anchor::BottomLeft => {
                self.x1 = self.x1.saturating_sub(horizontal_amount);
                self.y2 = self.y2 + vertical_amount;
            },
            Anchor::BottomRight => {
                self.x2 = self.x2 + horizontal_amount;
                self.y2 = self.y2 + vertical_amount;
            },
            Anchor::Center => {
                let half_horizontal = horizontal_amount / 2;
                let half_vertical = vertical_amount / 2;
                self.x1 = self.x1.saturating_sub(half_horizontal);
                self.y1 = self.y1.saturating_sub(half_vertical);
                self.x2 = self.x2 + half_horizontal;
                self.y2 = self.y2 + half_vertical;
            },
            Anchor::CenterTop => {
                let half_horizontal = horizontal_amount / 2;
                self.x1 = self.x1.saturating_sub(half_horizontal);
                self.x2 = self.x2 + half_horizontal;
                self.y1 = self.y1.saturating_sub(vertical_amount);
            },
            Anchor::CenterBottom => {
                let half_horizontal = horizontal_amount / 2;
                self.x1 = self.x1.saturating_sub(half_horizontal);
                self.x2 = self.x2 + half_horizontal;
                self.y2 = self.y2 + vertical_amount;
            },
            Anchor::CenterLeft => {
                let half_vertical = vertical_amount / 2;
                self.x1 = self.x1.saturating_sub(horizontal_amount);
                self.y1 = self.y1.saturating_sub(half_vertical);
                self.y2 = self.y2 + half_vertical;
            },
            Anchor::CenterRight => {
                let half_vertical = vertical_amount / 2;
                self.x2 = self.x2 + horizontal_amount;
                self.y1 = self.y1.saturating_sub(half_vertical);
                self.y2 = self.y2 + half_vertical;
            },
        }
        self.validate();
    }

    pub fn contract(&mut self, horizontal_amount: usize, vertical_amount: usize, anchor: Anchor)
        requires
            old(self).contract_fits(horizontal_amount, vertical_amount, anchor),
            old(self).spec_contracted(horizontal_amount, vertical_amount, anchor).wf(),
        ensures
            *final(self) == old(self).spec_contracted(horizontal_amount, vertical_amount, anchor),
    {
        match anchor {
            Anchor::TopLeft => {
                self.x1 = self.x1 + horizontal_amount;
                self.y1 = self.y1 + vertical_amount;
            },
            Anchor::TopRight => {
                self.x2 = self.x2.saturating_sub(horizontal_amount);
                self.y1 = self.y1 + vertical_amount;
            },
            Anchor::BottomLeft => {
                self.x1 = self.x1 + horizontal_amount;
                self.y2 = self.y2.saturating_sub(vertical_amount);
            },
            Anchor::BottomRight => {
                self.x2 = self.x2.saturating_sub(horizontal_amount);
                self.y2 = self.y2.saturating_sub(vertical_amount);
            },
            Anchor::Center => {
                let half_horizontal = horizontal_amount / 2;
                let half_vertical = vertical_amount / 2;
                self.x1 = self.x1 + half_horizontal;
                self.y1 = self.y1 + half_vertical;
                self.x2 = self.x2.saturating_sub(half_horizontal);
                self.y2 = self.y2.saturating_sub(half_vertical);
            },
            Anchor::CenterTop => {
                let half_horizontal = horizontal_amount / 2;
                self.x1 = self.x1 + half_horizontal;
                self.x2 = self.x2.saturating_sub(half_horizontal);
                self.y1 = self.y1 + vertical_amount;
            },
            Anchor::CenterBottom => {
                let half_horizontal = horizontal_amount / 2;
                self.x1 = self.x1 + half_horizontal;
                self.x2 = self.x2.saturating_sub(half_horizontal);
                self.y2 = self.y2.saturating_sub(vertical_amount);
            },
            Anchor::CenterLeft => {
                let half_vertical = vertical_amount / 2;
                self.x1 = self.x1 + horizontal_amount;
                self.y1 = self.y1 + half_vertical;
                self.y2 = self.y2.saturating_sub(half_vertical);
            },
            Anchor::CenterRight => {
                let half_vertical = vertical_amount / 2;
                self.x2 = self.x2.saturating_sub(horizontal_amount);
                self.y1 = self.y1 + half_vertical;
                self.y2 = self.y2.saturating_sub(half_vertical);
            },
        }
        self.validate();
    }

    pub fn move_to(&mut self, x: usize, y: usize, anchor: Anchor)
        requires
            old(self).move_to_fits(x, y, anchor),
            old(self).spec_moved_to(x, y, anchor).wf(),
        ensures
            *final(self) == old(self).spec_moved_to(x, y, anchor),
    {
        let width = self.width();
        let height = self.height();
        match anchor {
            Anchor::TopLeft => {
                self.x1 = x;
                self.y1 = y;
                self.x2 = x + width;
                self.y2 = y + height;
            },
            Anchor::TopRight => {
                self.x2 = x;
                self.y1 = y;
                self.x1 = x - width;
                self.y2 = y + height;
            },
            Anchor::BottomLeft => {
                self.x1 = x;
                self.y2 = y;
                self.x2 = x + width;
                self.y1 = y - height;
            },
            Anchor::BottomRight => {
                self.x2 = x;
                self.y2 = y;
                self.x1 = x - width;
                self.y1 = y - height;
            },
            Anchor::Center => {
                let half_width = width / 2;
                let half_height = height / 2;
                self.x1 = x - half_width;
                self.y1 = y - half_height;
                self.x2 = x + half_width;
                self.y2 = y + half_height;
            },
            Anchor::CenterTop => {
                let half_width = width / 2;
                self.x1 = x - half_width;
                self.x2 = x + half_width;
                self.y1 = y;
                self.y2 = y + height;
            },
            Anchor::CenterBottom => {
                let half_width = width / 2;
                self.x1 = x - half_width;
                self.x2 = x + half_width;
                self.y2 = y;
                self.y1 = y - height;
            },
            Anchor::CenterLeft => {
                let half_height = height / 2;
                self.x1 = x;
                self.x2 = x + width;
                self.y1 = y - half_height;
                self.y2 = y + half_height;
            },
            Anchor::CenterRight => {
                let half_height = height / 2;
                self.x2 = x;
                self.x1 = x - width;
                self.y1 = y - half_height;
                self.y2 = y + half_height;
            },
        }
        self.validate();
    }

    pub fn move_by(&mut self, dx: isize, dy: isize)
        requires
            old(self).translate_fits(dx, dy),
            old(self).spec_translate(dx, dy).wf(),
        ensures
            *final(self) == old(self).spec_translate(dx, dy),
    {
        self.x1 = shift(self.x1, dx);
        self.y1 = shift(self.y1, dy);
        self.x2 = shift(self.x2, dx);
        self.y2 = shift(self.y2, dy);
        self.validate();
    }

    pub fn contains(&self, x: usize, y: usize) -> (r: bool)
        ensures
            r == self.spec_contains(x, y),
    {
        x >= self.x1 && x < self.x2 && y >= self.y1 && y < self.y2
    }

    /// Whether the top-left and the bottom-right corner of `other` lie inside.
    pub fn contains_bounds(&self, other: &Bounds) -> (r: bool)
        ensures
            r == (self.spec_contains(other.x1, other.y1) && self.spec_contains(other.x2, other.y2)),
    {
        self.contains(other.x1, other.y1) && self.contains(other.x2, other.y2)
    }

    pub fn intersects(&self, other: &Bounds) -> (r: bool)
        ensures
            r == self.spec_intersects(*other),
    {
        self.contains(other.x1, other.y1) || self.contains(other.x2, other.y2) || self.contains(
            other.x1,
            other.y2,
        ) || self.contains(other.x2, other.y1)
    }

    pub fn intersection(&self, other: &Bounds) -> (r: Option<Bounds>)
        ensures
            r == (if self.spec_intersects(*other) {
                Some(self.spec_overlap(*other))
            } else {
                None
            }),
    {
        if self.intersects(other) {
            Some(
                Bounds {
                    x1: max_usize(self.x1, other.x1),
                    y1: max_usize(self.y1, other.y1),
                    x2: min_usize(self.x2, other.x2),
                    y2: min_usize(self.y2, other.y2),
                },
            )
        } else {
            None
        }
    }

    pub fn union(&self, other: &Bounds) -> (r: Bounds)
        ensures
            r == self.spec_union(*other),
    {
        Bounds {
            x1: min_usize(self.x1, other.x1),
            y1: min_usize(self.y1, other.y1),
            x2: max_usize(self.x2, other.x2),
            y2: max_usize(self.y2, other.y2),
        }
    }

    pub fn translate(&self, dx: isize, dy: isize) -> (r: Bounds)
        requires
            self.translate_fits(dx, dy),
        ensures
            r == self.spec_translate(dx, dy),
    {
        Bounds {
            x1: shift(self.x1, dx),
            y1: shift(self.y1, dy),
            x2: shift(self.x2, dx),
            y2: shift(self.y2, dy),
        }
    }

    pub fn center(&self) -> (c: (usize, usize))
        requires
            self.x1 + self.x2 <= usize::MAX,
            self.y1 + self.y2 <= usize::MAX,
        ensures
            c == (((self.x1 + self.x2) / 2) as usize, ((self.y1 + self.y2) / 2) as usize),
    {
        ((self.x1 + self.x2) / 2, (self.y1 + self.y2) / 2)
    }

    pub fn center_x(&self) -> (c: usize)
        requires
            self.x1 + self.x2 <= usize::MAX,
        ensures
            c == (self.x1 + self.x2) / 2,
    {
        (self.x1 + self.x2) / 2
    }

    pub fn center_y(&self) -> (c: usize)
        requires
            self.y1 + self.y2 <= usize::MAX,
        ensures
            c == (self.y1 + self.y2) / 2,
    {
        (self.y1 + self.y2) / 2
    }

    pub fn top_left(&self) -> (p: (usize, usize))
        ensures
            p == (self.x1, self.y1),
    {
        (self.x1, self.y1)
    }

    pub fn top_right(&self) -> (p: (usize, usize))
        ensures
            p == (self.x2, self.y1),
    {
        (self.x2, self.y1)
    }

    pub fn bottom_left(&self) -> (p: (usize, usize))
        ensures
            p == (self.x1, self.y2),
    {
        (self.x1, self.y2)
    }

    pub fn bottom_right(&self) -> (p: (usize, usize))
        ensures
            p == (self.x2, self.y2),
    {
        (self.x2, self.y2)
    }

    pub fn top(&self) -> (v: usize)
        ensures
            v == self.y1,
    {
        self.y1
    }

    pub fn bottom(&self) -> (v: usize)
        ensures
            v == self.y2,
    {
        self.y2
    }

    pub fn left(&self) -> (v: usize)
        ensures
            v == self.x1,
    {
        self.x1
    }

    pub fn right(&self) -> (v: usize)
        ensures
            v == self.x2,
    {
        self.x2
    }

    pub fn center_top(&self) -> (p: (usize, usize))
        requires
            self.x1 + self.x2 <= usize::MAX,
        ensures
            p == (((self.x1 + self.x2) / 2) as usize, self.y1),
    {
        ((self.x1 + self.x2) / 2, self.y1)
    }

    pub fn center_bottom(&self) -> (p: (usize, usize))
        requires
            self.x1 + self.x2 <= usize::MAX,
        ensures
            p == (((self.x1 + self.x2) / 2) as usize, self.y2),
    {
        ((self.x1 + self.x2) / 2, self.y2)
    }

    pub fn center_left(&self) -> (p: (usize, usize))
        requires
            self.y1 + self.y2 <= usize::MAX,
        ensures
            p == (self.x1, ((self.y1 + self.y2) / 2) as usize),
    {
        (self.x1, (self.y1 + self.y2) / 2)
    }

    pub fn center_right(&self) -> (p: (usize, usize))
        requires
            self.y1 + self.y2 <= usize::MAX,
        ensures
            p == (self.x2, ((self.y1 + self.y2) / 2) as usize),
    {
        (self.x2, (self.y1 + self.y2) / 2)
    }
}

fn min_usize(a: usize, b: usize) -> (r: usize)
    ensures
        r == spec_min(a, b),
{
    if a <= b {
        a
    } else {
        b
    }
}

fn max_usize(a: usize, b: usize) -> (r: usize)
    ensures
        r == spec_max(a, b),
{
    if a >= b {
        a
    } else {
        b
    }
}

fn shift(v: usize, d: isize) -> (r: usize)
    requires
        shift_fits(v, d),
    ensures
        r == shifted(v, d),
{
    let s: isize = v as isize;
    (s + d) as usize
}

/// Union is commutative.
pub proof fn law_union_commutative(a: Bounds, b: Bounds)
    ensures
        a.spec_union(b) == b.spec_union(a),
{
}

/// Union is associative.
pub proof fn law_union_associative(a: Bounds, b: Bounds, c: Bounds)
    ensures
        a.spec_union(b).spec_union(c) == a.spec_union(b.spec_union(c)),
{
}

/// The union covers both rectangles: every cell of `a` or of `b` is a cell of the union.
pub proof fn law_union_covers(a: Bounds, b: Bounds, x: usize, y: usize)
    requires
        a.spec_contains(x, y) || b.spec_contains(x, y),
    ensures
        a.spec_union(b).spec_contains(x, y),
{
}

/// A non-empty rectangle intersects itself, and the intersection is the rectangle.
pub proof fn law_intersection_with_self(a: Bounds)
    requires
        a.x1 < a.x2,
        a.y1 < a.y2,
    ensures
        a.spec_intersects(a),
        a.spec_overlap(a) == a,
{
}

/// Every cell shared by two rectangles lies in their overlap.
pub proof fn law_overlap_contains_common_cells(a: Bounds, b: Bounds, x: usize, y: usize)
    requires
        a.spec_contains(x, y),
        b.spec_contains(x, y),
    ensures
        a.spec_overlap(b).spec_contains(x, y),
{
}

proof fn lemma_shift_in_range(v: usize, d: isize)
    requires
        v <= isize::MAX,
        0 <= v + d <= isize::MAX,
    ensures
        shift_fits(v, d),
        shifted(v, d) == v + d,
{
    assert((v as isize) as int == v as int);
}

/// Translating by `(dx, dy)` and then by `(-dx, -dy)` gives back the rectangle,
/// as long as no coordinate leaves the range of `isize` or becomes negative.
pub proof fn law_translate_round_trip(b: Bounds, dx: isize, dy: isize)
    requires
        b.x1 <= isize::MAX && b.x2 <= isize::MAX && b.y1 <= isize::MAX && b.y2 <= isize::MAX,
        0 <= b.x1 + dx <= isize::MAX && 0 <= b.x2 + dx <= isize::MAX,
        0 <= b.y1 + dy <= isize::MAX && 0 <= b.y2 + dy <= isize::MAX,
        dx > isize::MIN,
        dy > isize::MIN,
    ensures
        b.translate_fits(dx, dy),
        b.spec_translate(dx, dy).translate_fits(-dx as isize, -dy as isize),
        b.spec_translate(dx, dy).spec_translate(-dx as isize, -dy as isize) == b,
{
    lemma_shift_in_range(b.x1, dx);
    lemma_shift_in_range(b.x2, dx);
    lemma_shift_in_range(b.y1, dy);
    lemma_shift_in_range(b.y2, dy);
    let t = b.spec_translate(dx, dy);
    lemma_shift_in_range(t.x1, -dx as isize);
    lemma_shift_in_range(t.x2, -dx as isize);
    lemma_shift_in_range(t.y1, -dy as isize);
    lemma_shift_in_range(t.y2, -dy as isize);
}

/// Moving by an offset keeps the width and the height, as long as no
/// coordinate leaves the range of `isize` or becomes negative.
pub proof fn law_translate_keeps_size(b: Bounds, dx: isize, dy: isize)
    requires
        b.x1 <= isize::MAX && b.x2 <= isize::MAX && b.y1 <= isize::MAX && b.y2 <= isize::MAX,
        0 <= b.x1 + dx <= isize::MAX && 0 <= b.x2 + dx <= isize::MAX,
        0 <= b.y1 + dy <= isize::MAX && 0 <= b.y2 + dy <= isize::MAX,
    ensures
        b.translate_fits(dx, dy),
        b.spec_translate(dx, dy).spec_width() == b.spec_width(),
        b.spec_translate(dx, dy).spec_height() == b.spec_height(),
{
    lemma_shift_in_range(b.x1, dx);
    lemma_shift_in_range(b.x2, dx);
    lemma_shift_in_range(b.y1, dy);
    lemma_shift_in_range(b.y2, dy);
}

/// Contracting by the amounts that an extension added gives back the
/// rectangle, when the extension did not stop at the screen's edge.
pub proof fn law_contract_undoes_extend(b: Bounds, h: usize, v: usize, anchor: Anchor)
    requires
        b.extend_fits(h, v, anchor),
        ({
            let (l, t, r, bo) = Bounds::extend_amounts(h, v, anchor);
            b.x1 >= l && b.y1 >= t
        }),
    ensures
        b.spec_extended(h, v, anchor).contract_fits(h, v, anchor),
        b.spec_extended(h, v, anchor).spec_contracted(h, v, anchor) == b,
{
}

/// Extending by the amounts that a contraction removed gives back the
/// rectangle, when the contraction did not stop at 0.
pub proof fn law_extend_undoes_contract(b: Bounds, h: usize, v: usize, anchor: Anchor)
    requires
        b.contract_fits(h, v, anchor),
        ({
            let (l, t, r, bo) = Bounds::extend_amounts(h, v, anchor);
            b.x2 >= r && b.y2 >= bo
        }),
    ensures
        b.spec_contracted(h, v, anchor).extend_fits(h, v, anchor),
        b.spec_contracted(h, v, anchor).spec_extended(h, v, anchor) == b,
{
}

/// Extending a valid rectangle keeps it valid and never shrinks it.
pub proof fn law_extend_grows(b: Bounds, h: usize, v: usize, anchor: Anchor)
    requires
        b.wf(),
        b.extend_fits(h, v, anchor),
    ensures
        b.spec_extended(h, v, anchor).wf(),
        b.spec_extended(h, v, anchor).spec_width() >= b.spec_width(),
        b.spec_extended(h, v, anchor).spec_height() >= b.spec_height(),
{
}

/// Moving a valid rectangle by a corner puts that corner on the target point
/// and keeps the width and the height.
pub proof fn law_move_to_corner_keeps_size(b: Bounds, x: usize, y: usize, anchor: Anchor)
    requires
        b.wf(),
        b.move_to_fits(x, y, anchor),
        anchor == Anchor::TopLeft || anchor == Anchor::TopRight || anchor == Anchor::BottomLeft
            || anchor == Anchor::BottomRight,
    ensures
        b.spec_moved_to(x, y, anchor).wf(),
        b.spec_moved_to(x, y, anchor).spec_width() == b.spec_width(),
        b.spec_moved_to(x, y, anchor).spec_height() == b.spec_height(),
        anchor == Anchor::TopLeft ==> (b.spec_moved_to(x, y, anchor).x1 == x && b.spec_moved_to(x, y, anchor).y1 == y),
        anchor == Anchor::BottomRight ==> (b.spec_moved_to(x, y, anchor).x2 == x && b.spec_moved_to(x, y, anchor).y2 == y),
{
}

} // verus!
