//! The tray icon: a small battery gauge drawn into a square RGBA canvas,
//! and the tray tooltip.
use vstd::prelude::*;
use vstd::arithmetic::div_mod::{
    lemma_div_is_ordered, lemma_fundamental_div_mod, lemma_fundamental_div_mod_converse,
};
use crate::snapshot::{BatterySnapshot, SnapshotModel};
use crate::text::{decimal, push_decimal, push_str, string_from_chars};

verus! {

/// Width and height, in pixels, of the tray icon.
pub const TRAY_ICON_SIZE: u32 = 32;

// ---------------------------------------------------------------------------
// Rectangles on a canvas
// ---------------------------------------------------------------------------

/// The end (exclusive) of a span starting at `start` of length `len`,
/// cut at the canvas edge.
pub open spec fn span_end(start: u32, len: u32, canvas: u32) -> int {
    if start + len < canvas {
        start + len
    } else {
        canvas as int
    }
}

/// Byte `i` of an RGBA canvas `canvas` pixels wide lies in the pixel at
/// row `row` and column `col`.
pub open spec fn byte_row(i: int, canvas: u32) -> int {
    (i / 4) / (canvas as int)
}

/// The column of the pixel that byte `i` belongs to.
pub open spec fn byte_col(i: int, canvas: u32) -> int {
    (i / 4) % (canvas as int)
}

/// Byte `i` belongs to a pixel of the rectangle at `(x, y)` of size
/// `width` x `height`, cut at the canvas edge.
pub open spec fn in_rect(i: int, canvas: u32, x: u32, y: u32, width: u32, height: u32) -> bool {
    &&& canvas > 0
    &&& 0 <= i
    &&& y <= byte_row(i, canvas) < span_end(y, height, canvas)
    &&& x <= byte_col(i, canvas) < span_end(x, width, canvas)
}

/// The canvas `pixels` with the rectangle painted in `color` (one RGBA
/// quadruple).
pub open spec fn paint_rect(
    pixels: Seq<u8>,
    canvas: u32,
    x: u32,
    y: u32,
    width: u32,
    height: u32,
    color: Seq<u8>,
) -> Seq<u8> {
    Seq::new(
        pixels.len(),
        |i: int|
            if in_rect(i, canvas, x, y, width, height) {
                color[i % 4]
            } else {
                pixels[i]
            },
    )
}

/// Painting the rectangle stays inside a buffer of `len` bytes and inside
/// the `u32` arithmetic of the offsets.
pub open spec fn rect_fits(len: nat, canvas: u32, x: u32, y: u32, width: u32, height: u32) -> bool {
    &&& x + width <= u32::MAX
    &&& y + height <= u32::MAX
    &&& (x < span_end(x, width, canvas) && y < span_end(y, height, canvas)) ==> {
        let last = (span_end(y, height, canvas) - 1) * canvas + (span_end(x, width, canvas) - 1);
        &&& last * 4 + 4 <= len
        &&& last * 4 <= u32::MAX
    }
}

proof fn lemma_pixel_bytes(i: int, canvas: u32, row: int, col: int)
    requires
        canvas > 0,
        0 <= col < canvas,
        0 <= row,
        0 <= i,
    ensures
        (byte_row(i, canvas) == row && byte_col(i, canvas) == col) <==> ((row * canvas + col) * 4
            <= i < (row * canvas + col) * 4 + 4),
{
    let c = canvas as int;
    let p = row * c + col;
    lemma_fundamental_div_mod(i, 4);
    lemma_fundamental_div_mod(i / 4, c);
    if byte_row(i, canvas) == row && byte_col(i, canvas) == col {
        assert(i / 4 == c * row + col);
        assert(c * row == row * c) by (nonlinear_arith);
    }
    if p * 4 <= i < p * 4 + 4 {
        assert(p >= 0) by (nonlinear_arith)
            requires
                row >= 0,
                c > 0,
                col >= 0,
                p == row * c + col,
        ;
        lemma_fundamental_div_mod_converse(i, 4, p, i - p * 4);
        lemma_fundamental_div_mod_converse(p, c, row, col);
    }
}

proof fn lemma_offset_bound(row: int, col: int, last_row: int, last_col: int, c: int)
    requires
        0 <= row <= last_row,
        0 <= col <= last_col,
        c > 0,
    ensures
        row * c + col <= last_row * c + last_col,
{
    assert(row * c <= last_row * c) by (nonlinear_arith)
        requires
            row <= last_row,
            c > 0,
    ;
}

/// Paints the rectangle at `(x, y)` of size `width` x `height` in `color`
/// on the RGBA canvas `rgba`, `canvas_size` pixels wide; the parts beyond
/// the right and bottom edges are left out.
pub fn fill_rect(
    rgba: &mut [u8],
    canvas_size: u32,
    x: u32,
    y: u32,
    width: u32,
    height: u32,
    color: [u8; 4],
)
    requires
        rect_fits(old(rgba)@.len(), canvas_size, x, y, width, height),
    ensures
        final(rgba)@ == paint_rect(old(rgba)@, canvas_size, x, y, width, height, color@),
{
    let max_x = if x + width < canvas_size {
        x + width
    } else {
        canvas_size
    };
    let max_y = if y + height < canvas_size {
        y + height
    } else {
        canvas_size
    };
    let ghost start = rgba@;
    let ghost target = paint_rect(start, canvas_size, x, y, width, height, color@);
    let mut current_y = y;
    while current_y < max_y
        invariant
            max_x == span_end(x, width, canvas_size),
            max_y == span_end(y, height, canvas_size),
            rect_fits(start.len(), canvas_size, x, y, width, height),
            rgba@.len() == start.len(),
            y <= current_y,
            forall|i: int|
                0 <= i < start.len() ==> #[trigger] rgba@[i] == (if in_rect(
                    i,
                    canvas_size,
                    x,
                    y,
                    width,
                    height,
                ) && byte_row(i, canvas_size) < current_y {
                    color@[i % 4]
                } else {
                    start[i]
                }),
        decreases max_y - current_y,
    {
        let mut current_x = x;
        while current_x < max_x
            invariant
                max_x == span_end(x, width, canvas_size),
                max_y == span_end(y, height, canvas_size),
                rect_fits(start.len(), canvas_size, x, y, width, height),
                rgba@.len() == start.len(),
                y <= current_y < max_y,
                x <= current_x,
                forall|i: int|
                    0 <= i < start.len() ==> #[trigger] rgba@[i] == (if in_rect(
                        i,
                        canvas_size,
                        x,
                        y,
                        width,
                        height,
                    ) && (byte_row(i, canvas_size) < current_y || (byte_row(i, canvas_size)
                        == current_y && byte_col(i, canvas_size) < current_x)) {
                        color@[i % 4]
                    } else {
                        start[i]
                    }),
            decreases max_x - current_x,
        {
            proof {
                lemma_offset_bound(
                    current_y as int,
                    current_x as int,
                    max_y - 1,
                    max_x - 1,
                    canvas_size as int,
                );
                assert(current_y * canvas_size + current_x <= u32::MAX) by (nonlinear_arith)
                    requires
                        current_y * canvas_size + current_x <= (max_y - 1) * canvas_size + (max_x
                            - 1),
                        ((max_y - 1) * canvas_size + (max_x - 1)) * 4 <= u32::MAX,
                        current_y >= 0,
                        current_x >= 0,
                        canvas_size >= 0,
                ;
            }
            let pixel = current_y * canvas_size + current_x;
            let offset = (pixel * 4) as usize;
            let ghost before = rgba@;
            rgba[offset] = color[0];
            rgba[offset + 1] = color[1];
            rgba[offset + 2] = color[2];
            rgba[offset + 3] = color[3];
            proof {
                assert forall|i: int| 0 <= i < start.len() implies #[trigger] rgba@[i] == (if in_rect(
                    i,
                    canvas_size,
                    x,
                    y,
                    width,
                    height,
                ) && (byte_row(i, canvas_size) < current_y || (byte_row(i, canvas_size)
                    == current_y && byte_col(i, canvas_size) < current_x + 1)) {
                    color@[i % 4]
                } else {
                    start[i]
                }) by {
                    lemma_pixel_bytes(i, canvas_size, current_y as int, current_x as int);
                    if offset <= i < offset + 4 {
                        assert(i % 4 == i - offset) by {
                            lemma_fundamental_div_mod_converse(i, 4, pixel as int, i - offset);
                        }
                    } else {
                        assert(rgba@[i] == before[i]);
                    }
                }
            }
            current_x = current_x + 1;
        }
        current_y = current_y + 1;
    }
    assert(rgba@ =~= target);
}

/// The canvas `pixels` with the outline of the rectangle painted in
/// `color`: the top and bottom rows and the left and right columns.
pub open spec fn stroke_rect_pixels(
    pixels: Seq<u8>,
    canvas: u32,
    x: u32,
    y: u32,
    width: u32,
    height: u32,
    color: Seq<u8>,
) -> Seq<u8> {
    if width == 0 || height == 0 {
        pixels
    } else {
        Seq::new(
            pixels.len(),
            |i: int|
                if in_rect(i, canvas, x, y, width, 1) || in_rect(
                    i,
                    canvas,
                    x,
                    (y + height - 1) as u32,
                    width,
                    1,
                ) || in_rect(i, canvas, x, y, 1, height) || in_rect(
                    i,
                    canvas,
                    (x + width - 1) as u32,
                    y,
                    1,
                    height,
                ) {
                    color[i % 4]
                } else {
                    pixels[i]
                },
        )
    }
}

/// The four sides of the outline fit the buffer.
pub open spec fn stroke_fits(len: nat, canvas: u32, x: u32, y: u32, width: u32, height: u32) -> bool {
    (width > 0 && height > 0) ==> {
        &&& rect_fits(len, canvas, x, y, width, 1)
        &&& rect_fits(len, canvas, x, (y + height - 1) as u32, width, 1)
        &&& rect_fits(len, canvas, x, y, 1, height)
        &&& rect_fits(len, canvas, (x + width - 1) as u32, y, 1, height)
    }
}

/// Paints the one-pixel outline of the rectangle at `(x, y)` of size
/// `width` x `height` in `color`; nothing for an empty rectangle.
pub fn stroke_rect(
    rgba: &mut [u8],
    canvas_size: u32,
    x: u32,
    y: u32,
    width: u32,
    height: u32,
    color: [u8; 4],
)
    requires
        stroke_fits(old(rgba)@.len(), canvas_size, x, y, width, height),
    ensures
        final(rgba)@ == stroke_rect_pixels(
            old(rgba)@,
            canvas_size,
            x,
            y,
            width,
            height,
            color@,
        ),
{
    if width == 0 || height == 0 {
        return;
    }
    let ghost start = rgba@;
    fill_rect(rgba, canvas_size, x, y, width, 1, color);
    fill_rect(rgba, canvas_size, x, y + height.saturating_sub(1), width, 1, color);
    fill_rect(rgba, canvas_size, x, y, 1, height, color);
    fill_rect(rgba, canvas_size, x + width.saturating_sub(1), y, 1, height, color);
    assert(rgba@ =~= stroke_rect_pixels(start, canvas_size, x, y, width, height, color@));
}

// ---------------------------------------------------------------------------
// The battery icon
// ---------------------------------------------------------------------------

/// Outline color: light when connected, grey otherwise.
pub open spec fn border_color(connected: bool) -> Seq<u8> {
    if connected {
        seq![236, 240, 241, 255]
    } else {
        seq![148, 163, 184, 255]
    }
}

/// Color of the empty part of the gauge.
pub open spec fn track_color(connected: bool) -> Seq<u8> {
    if connected {
        seq![255, 255, 255, 28]
    } else {
        seq![148, 163, 184, 20]
    }
}

/// Color of the filled part: grey when disconnected, blue when charging,
/// red up to 20 %, yellow up to 50 %, green above.
pub open spec fn fill_color(connected: bool, is_charging: bool, level: u8) -> Seq<u8> {
    if !connected {
        seq![100, 116, 139, 180]
    } else if is_charging {
        seq![56, 189, 248, 255]
    } else if level <= 20 {
        seq![248, 113, 113, 255]
    } else if level <= 50 {
        seq![250, 204, 21, 255]
    } else {
        seq![74, 222, 128, 255]
    }
}

/// Color of the charging bolt.
pub open spec fn bolt_color() -> Seq<u8> {
    seq![255, 255, 255, 220]
}

/// Width in pixels of the filled part of the 14-pixel gauge: the level
/// rounded up to fourteenths, none when disconnected.
pub open spec fn gauge_fill_width(connected: bool, level: u8) -> u32 {
    if connected {
        ((level * 14 + 99) / 100) as u32
    } else {
        0
    }
}

/// The gauge grows with the level: it is empty only at 0 %, full (14
/// pixels) at 100 %, and never shrinks when the level rises.
pub proof fn lemma_gauge_fill_width(lower: u8, higher: u8)
    requires
        lower <= higher <= 100,
    ensures
        gauge_fill_width(true, lower) <= gauge_fill_width(true, higher) <= 14,
        (gauge_fill_width(true, lower) == 0) == (lower == 0),
        higher == 100 ==> gauge_fill_width(true, higher) == 14,
        gauge_fill_width(false, higher) == 0,
{
    lemma_div_is_ordered(lower * 14 + 99, higher * 14 + 99, 100);
    lemma_div_is_ordered(higher * 14 + 99, 1499, 100);
    if lower > 0 {
        lemma_div_is_ordered(113, lower * 14 + 99, 100);
    }
}

/// The icon for a device state: a battery outline with its tip, the gauge
/// track, the filled part, and a bolt while charging.
pub open spec fn battery_icon_pixels(connected: bool, level: u8, is_charging: bool) -> Seq<u8> {
    let blank = Seq::new(4096, |i: int| 0u8);
    let border = border_color(connected);
    let outlined = stroke_rect_pixels(blank, 32, 6, 8, 18, 14, border);
    let tipped = paint_rect(outlined, 32, 24, 12, 2, 6, border);
    let with_track = paint_rect(tipped, 32, 8, 10, 14, 10, track_color(connected));
    let width = gauge_fill_width(connected, level);
    let filled = if width > 0 {
        paint_rect(with_track, 32, 8, 10, width, 10, fill_color(connected, is_charging, level))
    } else {
        with_track
    };
    if is_charging && connected {
        let b1 = paint_rect(filled, 32, 13, 10, 3, 4, bolt_color());
        let b2 = paint_rect(b1, 32, 12, 14, 3, 3, bolt_color());
        paint_rect(b2, 32, 15, 14, 2, 6, bolt_color())
    } else {
        filled
    }
}

/// Connection state shown by the icon: that of the snapshot, disconnected
/// without one.
pub open spec fn icon_connected(snapshot: Option<SnapshotModel>) -> bool {
    match snapshot {
        Some(s) => s.connected,
        None => false,
    }
}

/// Level shown by the icon: that of the snapshot capped at 100, 0 without
/// one.
pub open spec fn icon_level(snapshot: Option<SnapshotModel>) -> u8 {
    match snapshot {
        Some(s) => if s.level <= 100 {
            s.level
        } else {
            100
        },
        None => 0,
    }
}

/// Charging state shown by the icon.
pub open spec fn icon_charging(snapshot: Option<SnapshotModel>) -> bool {
    match snapshot {
        Some(s) => s.is_charging,
        None => false,
    }
}

/// The model of an optional snapshot reference.
pub open spec fn snapshot_model(snapshot: Option<&BatterySnapshot>) -> Option<SnapshotModel> {
    match snapshot {
        Some(s) => Some(s@),
        None => None,
    }
}

/// The tray icon for a snapshot, or for no reading yet.
pub open spec fn tray_icon_pixels(snapshot: Option<SnapshotModel>) -> Seq<u8> {
    battery_icon_pixels(icon_connected(snapshot), icon_level(snapshot), icon_charging(snapshot))
}

/// An offline mouse shows the same icon as no reading at all: a
/// disconnected snapshot's level and charging state do not show.
pub proof fn lemma_disconnected_icon(s: SnapshotModel)
    requires
        !s.connected,
    ensures
        tray_icon_pixels(Some(s)) == tray_icon_pixels(None),
{
}

/// The outline tells the connection: the top-left outline pixel (6, 8) is
/// light (236, 240, 241) for a connected snapshot and grey (148, 163, 184)
/// otherwise, fully opaque either way.
pub proof fn lemma_icon_outline_shows_connection(snapshot: Option<SnapshotModel>)
    ensures
        ({
            let px = tray_icon_pixels(snapshot);
            let offset: int = 1048;
            &&& px.len() == 4096
            &&& px[offset + 3] == 255
            &&& (snapshot matches Some(s) && s.connected) ==> {
                &&& px[offset] == 236
                &&& px[offset + 1] == 240
                &&& px[offset + 2] == 241
            }
            &&& !(snapshot matches Some(s) && s.connected) ==> {
                &&& px[offset] == 148
                &&& px[offset + 1] == 163
                &&& px[offset + 2] == 184
            }
        }),
{
    let offset: int = 1048;
    assert forall|k: int| offset <= k < offset + 4 implies byte_row(k, 32) == 8 && byte_col(k, 32)
        == 6 && k % 4 == k - offset by {
        lemma_pixel_bytes(k, 32, 8, 6);
        lemma_fundamental_div_mod_converse(k, 4, 262, k - offset);
    }
}

/// Draws the 32 x 32 RGBA tray icon for a snapshot (or for no reading yet).
pub fn render_tray_battery_icon(snapshot: Option<&BatterySnapshot>) -> (r: Vec<u8>)
    ensures
        r@ == tray_icon_pixels(snapshot_model(snapshot)),
{
    let mut rgba: Vec<u8> = vec![0u8; 4096];
    let connected = match snapshot {
        Some(s) => s.connected,
        None => false,
    };
    let level = match snapshot {
        Some(s) => if s.level <= 100 {
            s.level
        } else {
            100
        },
        None => 0,
    };
    let is_charging = match snapshot {
        Some(s) => s.is_charging,
        None => false,
    };
    let border: [u8; 4] = if connected {
        [236, 240, 241, 255]
    } else {
        [148, 163, 184, 255]
    };
    let track: [u8; 4] = if connected {
        [255, 255, 255, 28]
    } else {
        [148, 163, 184, 20]
    };
    let fill: [u8; 4] = if !connected {
        [100, 116, 139, 180]
    } else if is_charging {
        [56, 189, 248, 255]
    } else if level <= 20 {
        [248, 113, 113, 255]
    } else if level <= 50 {
        [250, 204, 21, 255]
    } else {
        [74, 222, 128, 255]
    };
    assert(border@ =~= border_color(connected));
    assert(track@ =~= track_color(connected));
    assert(fill@ =~= fill_color(connected, is_charging, level));
    assert(rgba@ =~= Seq::new(4096, |i: int| 0u8));
    stroke_rect(rgba.as_mut_slice(), TRAY_ICON_SIZE, 6, 8, 18, 14, border);
    fill_rect(rgba.as_mut_slice(), TRAY_ICON_SIZE, 24, 12, 2, 6, border);
    fill_rect(rgba.as_mut_slice(), TRAY_ICON_SIZE, 8, 10, 14, 10, track);
    let fill_width: u32 = if connected {
        ((level as u32 * 14) + 99) / 100
    } else {
        0
    };
    if fill_width > 0 {
        assert(fill_width <= 14);
        fill_rect(rgba.as_mut_slice(), TRAY_ICON_SIZE, 8, 10, fill_width, 10, fill);
    }
    if is_charging && connected {
        let bolt: [u8; 4] = [255, 255, 255, 220];
        assert(bolt@ =~= bolt_color());
        fill_rect(rgba.as_mut_slice(), TRAY_ICON_SIZE, 13, 10, 3, 4, bolt);
        fill_rect(rgba.as_mut_slice(), TRAY_ICON_SIZE, 12, 14, 3, 3, bolt);
        fill_rect(rgba.as_mut_slice(), TRAY_ICON_SIZE, 15, 14, 2, 6, bolt);
    }
    rgba
}

// ---------------------------------------------------------------------------
// Tooltip
// ---------------------------------------------------------------------------

/// The tray tooltip: the level when connected, "unavailable" otherwise.
pub open spec fn tooltip_text(s: SnapshotModel) -> Seq<char> {
    if s.connected {
        "ATK Tray Monitor "@ + decimal(s.level as nat) + "%"@
    } else {
        "ATK Tray Monitor indisponible"@
    }
}

/// The tooltip of the tray icon for a snapshot.
pub fn tray_tooltip(snapshot: &BatterySnapshot) -> (r: String)
    ensures
        r@ == tooltip_text(snapshot@),
{
    if snapshot.connected {
        let mut out: Vec<char> = Vec::new();
        push_str(&mut out, "ATK Tray Monitor ");
        push_decimal(&mut out, snapshot.level as u64);
        push_str(&mut out, "%");
        string_from_chars(&out)
    } else {
        String::from_str("ATK Tray Monitor indisponible")
    }
}

} // verus!
