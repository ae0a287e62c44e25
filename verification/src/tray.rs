//! The system tray: its menu, its tooltip, and the badge that marks a
//! pending update on the icon.
use crate::text::{owned, push_str};
use vstd::prelude::*;

verus! {

/// An icon as the tray protocol carries it: ARGB32 pixels, row by row, four
/// bytes each.
#[derive(Debug, Clone, PartialEq, Eq)]
pub struct Icon {
    pub width: i32,
    pub height: i32,
    pub data: Vec<u8>,
}

/// `n` clamped into `i32`, as `i32::saturating_*` leaves a result.
pub open spec fn sat32(n: int) -> int {
    if n < i32::MIN {
        i32::MIN as int
    } else if n > i32::MAX {
        i32::MAX as int
    } else {
        n
    }
}

/// The badge's radius: a fifth of the shorter side, at least 2.
pub open spec fn badge_radius(w: int, h: int) -> int {
    let m = if w < h {
        w
    } else {
        h
    };
    if m / 5 < 2 {
        2
    } else {
        m / 5
    }
}

/// The radius of the badge's fill: three quarters of the badge, at least 1.
pub open spec fn fill_radius(r: int) -> int {
    if r * 3 / 4 < 1 {
        1
    } else {
        r * 3 / 4
    }
}

/// The squared distance of pixel `(x, y)` from the badge centre, in the
/// saturating `i32` arithmetic the badge is drawn with.
pub open spec fn badge_distance2(w: int, h: int, x: int, y: int) -> int {
    let r = badge_radius(w, h);
    let dx = x - (w - r - 1);
    let dy = y - (h - r - 1);
    sat32(sat32(dx * dx) + sat32(dy * dy))
}

/// Byte `k` of pixel `(x, y)` once badged: the green fill inside the inner
/// circle, the white ring up to the outer one, and the pixel as it was
/// outside both.
pub open spec fn badged_byte(w: int, h: int, x: int, y: int, k: int, old: u8) -> u8 {
    let r = badge_radius(w, h);
    let d2 = badge_distance2(w, h, x, y);
    let inner = fill_radius(r);
    if d2 <= sat32(r * r) {
        if d2 <= sat32(inner * inner) {
            if k == 0 {
                255
            } else if k == 1 {
                46
            } else if k == 2 {
                204
            } else {
                113
            }
        } else {
            255
        }
    } else {
        old
    }
}

proof fn lemma_row_bound(w: int, h: int, x: int, y: int)
    requires
        0 <= x < w,
        0 <= y < h,
    ensures
        0 <= y * w + x < w * h,
        y * w + x + 1 <= w * h,
{
    assert(0 <= y * w + x < w * h) by (nonlinear_arith)
        requires
            0 <= x < w,
            0 <= y < h,
    {
        assert(y * w <= (h - 1) * w);
        assert((h - 1) * w + w == h * w);
    }
}

/// Draws the pending-update badge in the icon's bottom-right corner, for
/// tray hosts that only show the pixmap. An icon with no pixels is returned
/// as it is.
pub fn with_update_badge(icon: Icon) -> (r: Icon)
    requires
        icon.width <= 0 || icon.height <= 0 || icon.data@.len() >= 4 * icon.width * icon.height,
    ensures
        r.width == icon.width,
        r.height == icon.height,
        r.data@.len() == icon.data@.len(),
        icon.width <= 0 || icon.height <= 0 ==> r.data@ == icon.data@,
        icon.width > 0 && icon.height > 0 ==> {
            &&& forall|x: int, y: int, k: int|
                0 <= x < icon.width && 0 <= y < icon.height && 0 <= k < 4 ==> #[trigger] r.data@[4
                    * (y * icon.width + x) + k] == badged_byte(
                    icon.width as int,
                    icon.height as int,
                    x,
                    y,
                    k,
                    icon.data@[4 * (y * icon.width + x) + k],
                )
            &&& forall|i: int|
                4 * icon.width * icon.height <= i < icon.data@.len() ==> #[trigger] r.data@[i]
                    == icon.data@[i]
        },
{
    let w = icon.width;
    let h = icon.height;
    if w <= 0 || h <= 0 {
        return icon;
    }
    let ghost old_data = icon.data@;
    let mut data = icon.data;
    let m = if w < h {
        w
    } else {
        h
    };
    let r: i32 = if m / 5 < 2 {
        2
    } else {
        m / 5
    };
    let cx: i32 = w - r - 1;
    let cy: i32 = h - r - 1;
    proof {
        assert(0 < r <= 2147483647);
        assert((r as i64) * (r as i64) <= 4611686018427387904) by (nonlinear_arith)
            requires
                0 < r <= 2147483647,
        ;
    }
    let rr: i64 = r as i64 * r as i64;
    let outer2: i32 = if rr > 2147483647 {
        2147483647
    } else {
        rr as i32
    };
    let inner: i32 = if r * 3 / 4 < 1 {
        1
    } else {
        r * 3 / 4
    };
    proof {
        assert(0 < inner <= 2147483647);
        assert((inner as i64) * (inner as i64) <= 4611686018427387904) by (nonlinear_arith)
            requires
                0 < inner <= 2147483647,
        ;
    }
    let ii: i64 = inner as i64 * inner as i64;
    let inner2: i32 = if ii > 2147483647 {
        2147483647
    } else {
        ii as i32
    };
    proof {
        assert(r as int == badge_radius(w as int, h as int));
        assert(inner as int == fill_radius(r as int));
        assert(r * r >= 0) by (nonlinear_arith);
        assert(inner * inner >= 0) by (nonlinear_arith);
        assert(outer2 as int == sat32(r * r));
        assert(inner2 as int == sat32(inner * inner));
        assert(4 * w * h == 4 * (w * h)) by (nonlinear_arith);
    }
    let ghost total = 4 * (w as int) * (h as int);
    let mut y: i32 = 0;
    while y < h
        invariant
            0 < w,
            0 < h,
            0 <= y <= h,
            total == 4 * (w as int) * (h as int),
            total == 4 * (w * h),
            old_data.len() >= total,
            data@.len() == old_data.len(),
            r as int == badge_radius(w as int, h as int),
            cx == w - r - 1,
            cy == h - r - 1,
            outer2 as int == sat32(r * r),
            inner2 as int == sat32(fill_radius(r as int) * fill_radius(r as int)),
            forall|px: int, py: int, k: int|
                0 <= px < w && 0 <= py < y && 0 <= k < 4 ==> #[trigger] data@[4 * (py * w + px) + k]
                    == badged_byte(w as int, h as int, px, py, k, old_data[4 * (py * w + px) + k]),
            forall|i: int| 4 * (y * w) <= i < data@.len() ==> #[trigger] data@[i] == old_data[i],
        decreases h - y,
    {
        let mut x: i32 = 0;
        while x < w
            invariant
                0 < w,
                0 < h,
                0 <= y < h,
                0 <= x <= w,
                total == 4 * (w * h),
                old_data.len() >= total,
                data@.len() == old_data.len(),
                r as int == badge_radius(w as int, h as int),
                cx == w - r - 1,
                cy == h - r - 1,
                outer2 as int == sat32(r * r),
                inner2 as int == sat32(fill_radius(r as int) * fill_radius(r as int)),
                forall|px: int, py: int, k: int|
                    0 <= px < w && 0 <= py < y && 0 <= k < 4 ==> #[trigger] data@[4 * (py * w + px)
                        + k] == badged_byte(w as int, h as int, px, py, k, old_data[4 * (py * w + px) + k]),
                forall|px: int, k: int|
                    0 <= px < x && 0 <= k < 4 ==> #[trigger] data@[4 * (y * w + px) + k] == badged_byte(
                        w as int,
                        h as int,
                        px,
                        y as int,
                        k,
                        old_data[4 * (y * w + px) + k],
                    ),
                forall|i: int| 4 * (y * w + x) <= i < data@.len() ==> #[trigger] data@[i] == old_data[i],
            decreases w - x,
        {
            proof {
                lemma_row_bound(w as int, h as int, x as int, y as int);
                assert(4 * (y * w + x) + 4 <= total) by (nonlinear_arith)
                    requires
                        y * w + x + 1 <= w * h,
                        total == 4 * (w * h),
                ;
            }
            let dx: i64 = x as i64 - cx as i64;
            let dy: i64 = y as i64 - cy as i64;
            proof {
                assert(-2147483648 <= dx <= 2147483647);
                assert(-2147483648 <= dy <= 2147483647);
                assert(dx * dx >= 0) by (nonlinear_arith);
                assert(dy * dy >= 0) by (nonlinear_arith);
                assert(dx * dx <= 4611686018427387904) by (nonlinear_arith)
                    requires
                        -2147483648 <= dx <= 2147483647,
                ;
                assert(dy * dy <= 4611686018427387904) by (nonlinear_arith)
                    requires
                        -2147483648 <= dy <= 2147483647,
                ;
            }
            let xx: i64 = dx * dx;
            let yy: i64 = dy * dy;
            let xs: i64 = if xx > 2147483647 {
                2147483647
            } else {
                xx
            };
            let ys: i64 = if yy > 2147483647 {
                2147483647
            } else {
                yy
            };
            let d: i64 = xs + ys;
            let d2: i32 = if d > 2147483647 {
                2147483647
            } else {
                d as i32
            };
            proof {
                assert(d2 as int == badge_distance2(w as int, h as int, x as int, y as int));
            }
            let ghost before = data@;
            let n = data.len();
            proof {
                assert(4 * (y * w + x) + 4 <= n);
                assert(0 <= y * w) by (nonlinear_arith)
                    requires
                        0 <= y,
                        0 < w,
                ;
            }
            let yw: usize = y as usize * w as usize;
            let base: usize = (yw + x as usize) * 4;
            if d2 <= outer2 {
                let fill = d2 <= inner2;
                let b0: u8 = 255;
                let b1: u8 = if fill {
                    46
                } else {
                    255
                };
                let b2: u8 = if fill {
                    204
                } else {
                    255
                };
                let b3: u8 = if fill {
                    113
                } else {
                    255
                };
                data.set(base, b0);
                data.set(base + 1, b1);
                data.set(base + 2, b2);
                data.set(base + 3, b3);
            }
            proof {
                let p = y * w + x;
                assert(base == 4 * p);
                assert forall|k: int| 0 <= k < 4 implies #[trigger] data@[4 * (y * w + x) + k]
                    == badged_byte(w as int, h as int, x as int, y as int, k, old_data[4 * (y * w + x)
                    + k]) by {
                    assert(before[4 * p + k] == old_data[4 * p + k]);
                }
                assert forall|i: int| 0 <= i < data@.len() && (i < 4 * p || i >= 4 * p + 4) implies data@[i]
                    == before[i] by {}
                assert forall|px: int, py: int, k: int|
                    0 <= px < w && 0 <= py < y && 0 <= k < 4 implies #[trigger] data@[4 * (py * w + px)
                    + k] == badged_byte(w as int, h as int, px, py, k, old_data[4 * (py * w + px) + k]) by {
                    lemma_row_bound(w as int, h as int, px, py);
                    assert(py * w + px < y * w + x) by (nonlinear_arith)
                        requires
                            0 <= px < w,
                            0 <= py < y,
                            0 <= x,
                    {
                        assert(py * w + w <= y * w) by {
                            assert((py + 1) * w <= y * w);
                        }
                    }
                }
                assert forall|px: int, k: int| 0 <= px < x + 1 && 0 <= k < 4 implies #[trigger] data@[4
                    * (y * w + px) + k] == badged_byte(
                    w as int,
                    h as int,
                    px,
                    y as int,
                    k,
                    old_data[4 * (y * w + px) + k],
                ) by {
                    if px < x {
                    }
                }
            }
            x = x + 1;
        }
        proof {
            assert(4 * ((y + 1) * w) == 4 * (y * w + w)) by (nonlinear_arith);
        }
        y = y + 1;
    }
    proof {
        assert(4 * (h * w) == total) by (nonlinear_arith)
            requires
                total == 4 * (w * h),
        ;
    }
    Icon { width: w, height: h, data }
}

/// The tray's model: which update, if any, waits to be installed.
#[derive(Debug, Clone, PartialEq, Eq)]
pub struct CastTray {
    pub pending_version: Option<String>,
}

/// An entry of the tray menu.
#[derive(Debug, Clone, PartialEq, Eq)]
pub enum MenuEntry {
    /// Install the pending update.
    Install { label: String },
    Separator,
    Quit { label: String },
}

impl CastTray {
    pub fn new() -> (t: CastTray)
        ensures
            t.pending_version is None,
    {
        CastTray { pending_version: None }
    }

    pub fn set_pending(&mut self, version: String)
        ensures
            final(self).pending_version == Some(version),
    {
        self.pending_version = Some(version);
    }

    /// The menu: with an update pending, `Install update (vX)` and a
    /// separator before `Quit`; else only `Quit`.
    pub fn menu(&self) -> (r: Vec<MenuEntry>)
        ensures
            match self.pending_version {
                Some(v) => r@.len() == 3 && (r@[0] matches MenuEntry::Install { label }
                    && label@ == "Install update (v"@ + v@ + ")"@) && r@[1] == MenuEntry::Separator
                    && (r@[2] matches MenuEntry::Quit { label } && label@ == "Quit"@),
                None => r@.len() == 1 && (r@[0] matches MenuEntry::Quit { label } && label@
                    == "Quit"@),
            },
    {
        let mut items: Vec<MenuEntry> = Vec::new();
        match &self.pending_version {
            Some(v) => {
                let mut label = owned("Install update (v");
                push_str(&mut label, v.as_str());
                push_str(&mut label, ")");
                items.push(MenuEntry::Install { label });
                items.push(MenuEntry::Separator);
            },
            None => {},
        }
        items.push(MenuEntry::Quit { label: owned("Quit") });
        items
    }

    /// The tooltip's description, when there is something to say: the
    /// pending update's version.
    pub fn tool_tip(&self) -> (r: Option<String>)
        ensures
            match self.pending_version {
                Some(v) => r matches Some(d) && d@ == "Update available (v"@ + v@ + ")"@,
                None => r is None,
            },
    {
        match &self.pending_version {
            Some(v) => {
                let mut d = owned("Update available (v");
                push_str(&mut d, v.as_str());
                push_str(&mut d, ")");
                Some(d)
            },
            None => None,
        }
    }

    /// Whether the icon carries the update badge.
    pub fn badged(&self) -> (r: bool)
        ensures
            r == self.pending_version is Some,
    {
        self.pending_version.is_some()
    }
}

} // verus!
