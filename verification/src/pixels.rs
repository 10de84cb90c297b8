//! Drawing into a frame of pixels: four bytes for each pixel, red, green,
//! blue and opacity, row after row.

use vstd::prelude::*;
use crate::event::LuaRGBA;

verus! {

/// The four bytes of a colour.
pub open spec fn colour_bytes(rgba: LuaRGBA) -> Seq<u8> {
    seq![rgba.r, rgba.g, rgba.b, rgba.a]
}

/// Whether a frame holds the whole of the pixel with this number.
pub open spec fn holds_pixel(frame: Seq<u8>, pixel: int) -> bool {
    0 <= pixel && 4 * pixel + 4 <= frame.len()
}

/// The frame with one pixel set to a colour. A pixel that the frame does
/// not hold changes nothing.
pub open spec fn paint(frame: Seq<u8>, pixel: int, rgba: LuaRGBA) -> Seq<u8> {
    if holds_pixel(frame, pixel) {
        frame.subrange(0, 4 * pixel) + colour_bytes(rgba) + frame.subrange(
            4 * pixel + 4,
            frame.len() as int,
        )
    } else {
        frame
    }
}

/// Sets the pixel with the given number to a colour, if the frame holds it.
pub fn set_pixel(frame: &mut [u8], pixel: usize, rgba: LuaRGBA)
    ensures
        final(frame)@ == paint(old(frame)@, pixel as int, rgba),
{
    let n = frame.len();
    if n >= 4 && pixel <= (n - 4) / 4 {
        let at = pixel * 4;
        frame[at] = rgba.r;
        frame[at + 1] = rgba.g;
        frame[at + 2] = rgba.b;
        frame[at + 3] = rgba.a;
        assert(frame@ =~= paint(old(frame)@, pixel as int, rgba));
    }
}

/// The frame after the pixels of a sequence were set to a colour, one
/// after another.
pub open spec fn paint_all(frame: Seq<u8>, pixels: Seq<int>, rgba: LuaRGBA) -> Seq<u8>
    decreases pixels.len(),
{
    if pixels.len() == 0 {
        frame
    } else {
        paint(paint_all(frame, pixels.drop_last(), rgba), pixels.last(), rgba)
    }
}

/// Painting keeps the length of a frame.
pub proof fn lemma_paint_all_len(frame: Seq<u8>, pixels: Seq<int>, rgba: LuaRGBA)
    ensures
        paint_all(frame, pixels, rgba).len() == frame.len(),
    decreases pixels.len(),
{
    if pixels.len() > 0 {
        lemma_paint_all_len(frame, pixels.drop_last(), rgba);
    }
}

/// The frame after the pixel in column `x` of row `y` was set to a colour,
/// in a frame whose rows are `width` pixels wide. A column that the rows do
/// not have, and a pixel that the frame does not hold, change nothing.
pub open spec fn pixel_drawn(frame: Seq<u8>, width: int, x: int, y: int, rgba: LuaRGBA) -> Seq<u8> {
    if 0 <= x < width {
        paint(frame, y * width + x, rgba)
    } else {
        frame
    }
}

/// Sets the pixel in column `x` of row `y` to a colour.
pub fn draw_pixel(frame: &mut [u8], width: usize, x: usize, y: usize, rgba: LuaRGBA)
    ensures
        final(frame)@ == pixel_drawn(old(frame)@, width as int, x as int, y as int, rgba),
{
    let n = frame.len() / 4;
    if x >= width {
        return ;
    }
    if x >= n || y > n / width {
        proof {
            let w = width as int;
            let q = (n / width) as int;
            if y > n / width {
                assert(q * w + (n as int) % w == n) by (nonlinear_arith)
                    requires
                        w > 0,
                        q == (n as int) / w,
                ;
                assert((y as int) * w >= (q + 1) * w) by (nonlinear_arith)
                    requires
                        y >= q + 1,
                        w > 0,
                ;
                assert((q + 1) * w == q * w + w) by (nonlinear_arith);
            } else {
                assert((y as int) * w >= 0) by (nonlinear_arith)
                    requires
                        y >= 0,
                        w > 0,
                ;
            }
            assert(!holds_pixel(frame@, y * width + x));
        }
        return ;
    }
    proof {
        let w = width as int;
        let q = (n / width) as int;
        assert(q * w <= n) by (nonlinear_arith)
            requires
                w > 0,
                n >= 0,
                q == (n as int) / w,
        ;
        assert((y as int) * w <= q * w) by (nonlinear_arith)
            requires
                0 <= y <= q,
                w > 0,
        ;
    }
    let pixel = y * width + x;
    set_pixel(frame, pixel, rgba);
}

/// The distance between two numbers.
pub open spec fn distance(from: int, to: int) -> int {
    if from < to {
        to - from
    } else {
        from - to
    }
}

/// The number `steps` away from `from` in the direction of `to`.
pub open spec fn towards(from: int, to: int, steps: int) -> int {
    if from < to {
        from + steps
    } else {
        from - steps
    }
}

/// The error term of a line that spans `dx` columns and `dy` rows, after
/// `a` steps along the columns and `b` steps along the rows.
pub open spec fn error_at(a: int, b: int, dx: int, dy: int) -> int {
    (b + 1) * dx - (a + 1) * dy
}

/// Whether the line takes a step along the columns next.
pub open spec fn steps_x(a: int, b: int, dx: int, dy: int) -> bool {
    2 * error_at(a, b, dx, dy) >= -dy
}

/// Whether the line takes a step along the rows next.
pub open spec fn steps_y(a: int, b: int, dx: int, dy: int) -> bool {
    2 * error_at(a, b, dx, dy) <= dx
}

/// The steps along the columns after the next move.
pub open spec fn next_a(a: int, b: int, dx: int, dy: int) -> int {
    if steps_x(a, b, dx, dy) {
        a + 1
    } else {
        a
    }
}

/// The steps along the rows after the next move.
pub open spec fn next_b(a: int, b: int, dx: int, dy: int) -> int {
    if steps_y(a, b, dx, dy) {
        b + 1
    } else {
        b
    }
}

/// The points of a line that spans `dx` columns and `dy` rows, from the
/// point `a` columns and `b` rows away from its start to its end, each
/// point given by its distance from the start.
pub open spec fn line_from(a: int, b: int, dx: int, dy: int) -> Seq<(int, int)>
    decreases (dx - a) + (dy - b),
    when 0 <= a <= dx && 0 <= b <= dy
    via line_from_decreases
{
    if a == dx && b == dy {
        seq![(a, b)]
    } else {
        seq![(a, b)] + line_from(next_a(a, b, dx, dy), next_b(a, b, dx, dy), dx, dy)
    }
}

#[via_fn]
proof fn line_from_decreases(a: int, b: int, dx: int, dy: int) {
    if !(a == dx && b == dy) {
        lemma_line_moves(a, b, dx, dy);
    }
}

/// Before its end a line always moves, and it never moves past its end
/// in either direction.
pub proof fn lemma_line_moves(a: int, b: int, dx: int, dy: int)
    requires
        0 <= a <= dx,
        0 <= b <= dy,
        !(a == dx && b == dy),
    ensures
        steps_x(a, b, dx, dy) || steps_y(a, b, dx, dy),
        a == dx ==> !steps_x(a, b, dx, dy),
        b == dy ==> !steps_y(a, b, dx, dy),
        0 <= next_a(a, b, dx, dy) <= dx,
        0 <= next_b(a, b, dx, dy) <= dy,
{
    let e = error_at(a, b, dx, dy);
    if a == dx {
        assert(2 * ((b + 1) * dx - (dx + 1) * dy) < -dy) by (nonlinear_arith)
            requires
                0 <= b < dy,
                0 <= dx,
        ;
    }
    if b == dy {
        assert(2 * ((dy + 1) * dx - (a + 1) * dy) > dx) by (nonlinear_arith)
            requires
                0 <= a < dx,
                0 <= dy,
        ;
    }
}

/// The columns and rows of the points of the line from one point to
/// another, in the order in which the line passes them.
pub open spec fn line_points(x1: int, y1: int, x2: int, y2: int) -> Seq<(int, int)> {
    line_from(0, 0, distance(x1, x2), distance(y1, y2)).map_values(
        |p: (int, int)| (towards(x1, x2, p.0), towards(y1, y2, p.1)),
    )
}

/// The numbers of the pixels of a sequence of points in a frame whose rows
/// are `width` pixels wide.
pub open spec fn pixels_of(points: Seq<(int, int)>, width: int) -> Seq<int> {
    points.map_values(|p: (int, int)| p.1 * width + p.0)
}

/// The frame after the line from one point to another was drawn. Each
/// point of the line stands for the pixel `row * width + column`; a point
/// whose pixel the frame does not hold is left out.
pub open spec fn line_drawn(
    frame: Seq<u8>,
    width: int,
    x1: int,
    y1: int,
    x2: int,
    y2: int,
    rgba: LuaRGBA,
) -> Seq<u8> {
    paint_all(frame, pixels_of(line_points(x1, y1, x2, y2), width), rgba)
}

/// A line starts at its first point, ends at its second, and stays between
/// the columns and the rows of the two.
pub proof fn lemma_line_shape(a: int, b: int, dx: int, dy: int)
    requires
        0 <= a <= dx,
        0 <= b <= dy,
    ensures
        line_from(a, b, dx, dy).len() >= 1,
        line_from(a, b, dx, dy).first() == (a, b),
        line_from(a, b, dx, dy).last() == (dx, dy),
        forall|i: int|
            0 <= i < line_from(a, b, dx, dy).len() ==> a <= (#[trigger] line_from(
                a,
                b,
                dx,
                dy,
            )[i]).0 <= dx && b <= line_from(a, b, dx, dy)[i].1 <= dy,
    decreases (dx - a) + (dy - b),
{
    if !(a == dx && b == dy) {
        lemma_line_moves(a, b, dx, dy);
        let na = next_a(a, b, dx, dy);
        let nb = next_b(a, b, dx, dy);
        lemma_line_shape(na, nb, dx, dy);
        let rest = line_from(na, nb, dx, dy);
        let whole = line_from(a, b, dx, dy);
        assert(whole == seq![(a, b)] + rest);
        assert forall|i: int| 0 <= i < whole.len() implies a <= (#[trigger] whole[i]).0 <= dx && b
            <= whole[i].1 <= dy by {
            if i > 0 {
                assert(whole[i] == rest[i - 1]);
            }
        }
    }
}

/// Draws the line from the point in column `x1` of row `y1` to the point in
/// column `x2` of row `y2`.
pub fn draw_line(frame: &mut [u8], width: i32, x1: i32, y1: i32, x2: i32, y2: i32, rgba: LuaRGBA)
    ensures
        final(frame)@ == line_drawn(
            old(frame)@,
            width as int,
            x1 as int,
            y1 as int,
            x2 as int,
            y2 as int,
            rgba,
        ),
{
    let len: usize = frame.len();
    let n: usize = len / 4;
    let w: i64 = width as i64;
    let dx: i64 = if x1 < x2 {
        x2 as i64 - x1 as i64
    } else {
        x1 as i64 - x2 as i64
    };
    let dy: i64 = if y1 < y2 {
        y2 as i64 - y1 as i64
    } else {
        y1 as i64 - y2 as i64
    };
    let sx: i64 = if x1 < x2 {
        1
    } else {
        -1
    };
    let sy: i64 = if y1 < y2 {
        1
    } else {
        -1
    };
    let mut x: i64 = x1 as i64;
    let mut y: i64 = y1 as i64;
    let mut err: i64 = dx - dy;
    let ghost mut a: int = 0;
    let ghost mut b: int = 0;
    let ghost mut done: Seq<(int, int)> = Seq::empty();
    let ghost whole = line_from(0, 0, dx as int, dy as int);
    let ghost place = |p: (int, int)| (towards(x1 as int, x2 as int, p.0), towards(y1 as int, y2 as int, p.1));
    proof {
        assert(error_at(0, 0, dx as int, dy as int) == dx - dy) by (nonlinear_arith);
        assert(done + line_from(a, b, dx as int, dy as int) =~= whole);
        assert(pixels_of(done.map_values(place), width as int) =~= Seq::<int>::empty());
    }
    loop
        invariant_except_break
            0 <= a <= dx,
            0 <= b <= dy,
            done + line_from(a, b, dx as int, dy as int) == whole,
            frame@ == paint_all(
                old(frame)@,
                pixels_of(done.map_values(place), width as int),
                rgba,
            ),
        invariant
            len == old(frame)@.len(),
            n == len / 4,
            frame@.len() == len,
            w == width,
            dx == distance(x1 as int, x2 as int),
            dy == distance(y1 as int, y2 as int),
            sx == (if x1 < x2 { 1int } else { -1int }),
            sy == (if y1 < y2 { 1int } else { -1int }),
            whole == line_from(0, 0, dx as int, dy as int),
            place == |p: (int, int)| (towards(x1 as int, x2 as int, p.0), towards(y1 as int, y2 as int, p.1)),
            x == towards(x1 as int, x2 as int, a),
            y == towards(y1 as int, y2 as int, b),
            0 <= a <= dx,
            0 <= b <= dy,
            err == error_at(a, b, dx as int, dy as int),
            -2 * (dx + dy) <= err <= 2 * (dx + dy),
        ensures
            frame@ == paint_all(
                old(frame)@,
                pixels_of(whole.map_values(place), width as int),
                rgba,
            ),
        decreases (dx - a) + (dy - b),
    {
        assert(-0x4000_0000_0000_0000 <= y * w <= 0x4000_0000_0000_0000) by (nonlinear_arith)
            requires
                -0x8000_0000 <= y <= 0x8000_0000,
                -0x8000_0000 <= w <= 0x8000_0000,
        ;
        let pixel: i64 = y * w + x;
        let ghost point = (a, b);
        let ghost before = frame@;
        let ghost pixels_before = pixels_of(done.map_values(place), width as int);
        if pixel >= 0 && n >= 1 && pixel <= (n - 1) as i64 {
            set_pixel(frame, pixel as usize, rgba);
        } else {
            assert(!holds_pixel(frame@, pixel as int));
        }
        proof {
            let more = done.push(point);
            assert(place(point) == (x as int, y as int));
            assert(pixels_of(more.map_values(place), width as int) =~= pixels_before.push(
                pixel as int,
            ));
            assert(pixels_before.push(pixel as int).drop_last() =~= pixels_before);
            assert(frame@ == paint_all(
                old(frame)@,
                pixels_of(more.map_values(place), width as int),
                rgba,
            ));
        }
        if x == x2 as i64 && y == y2 as i64 {
            proof {
                assert(a == dx && b == dy);
                assert(line_from(a, b, dx as int, dy as int) =~= seq![point]);
                assert(done.push(point) =~= done + seq![point]);
            }
            break ;
        }
        proof {
            assert(!(a == dx && b == dy));
            lemma_line_moves(a, b, dx as int, dy as int);
            lemma_error_steps(a, b, dx as int, dy as int);
            let na = next_a(a, b, dx as int, dy as int);
            let nb = next_b(a, b, dx as int, dy as int);
            assert(done.push(point) + line_from(na, nb, dx as int, dy as int) =~= done + line_from(
                a,
                b,
                dx as int,
                dy as int,
            ));
        }
        let e2: i64 = 2 * err;
        if e2 >= -dy {
            err = err - dy;
            x = x + sx;
        }
        if e2 <= dx {
            err = err + dx;
            y = y + sy;
        }
        proof {
            let na = next_a(a, b, dx as int, dy as int);
            let nb = next_b(a, b, dx as int, dy as int);
            done = done.push(point);
            a = na;
            b = nb;
        }
    }
}

/// How the error term changes with each step.
proof fn lemma_error_steps(a: int, b: int, dx: int, dy: int)
    ensures
        error_at(a + 1, b, dx, dy) == error_at(a, b, dx, dy) - dy,
        error_at(a, b + 1, dx, dy) == error_at(a, b, dx, dy) + dx,
        error_at(a + 1, b + 1, dx, dy) == error_at(a, b, dx, dy) - dy + dx,
{
    assert((a + 2) * dy == (a + 1) * dy + dy) by (nonlinear_arith);
    assert((b + 2) * dx == (b + 1) * dx + dx) by (nonlinear_arith);
}

/// The frame with the bytes of one pixel replaced, where the frame holds
/// the pixel and the bytes are four.
pub open spec fn pixel_replaced(frame: Seq<u8>, pixel: int, bytes: Seq<u8>) -> Seq<u8> {
    if holds_pixel(frame, pixel) && bytes.len() == 4 {
        frame.subrange(0, 4 * pixel) + bytes + frame.subrange(4 * pixel + 4, frame.len() as int)
    } else {
        frame
    }
}

/// Puts four bytes in place of a pixel. Answers whether it did: it does
/// not when the frame does not hold the pixel or the bytes are not four.
pub fn replace_pixel(frame: &mut [u8], pixel: usize, bytes: &[u8]) -> (replaced: bool)
    ensures
        replaced == (holds_pixel(old(frame)@, pixel as int) && bytes@.len() == 4),
        final(frame)@ == pixel_replaced(old(frame)@, pixel as int, bytes@),
{
    let n = frame.len();
    if bytes.len() == 4 && n >= 4 && pixel <= (n - 4) / 4 {
        let at = pixel * 4;
        frame[at] = bytes[0];
        frame[at + 1] = bytes[1];
        frame[at + 2] = bytes[2];
        frame[at + 3] = bytes[3];
        assert(frame@ =~= pixel_replaced(old(frame)@, pixel as int, bytes@));
        true
    } else {
        false
    }
}

/// Puts the bytes of `source` in place of the whole frame. Answers whether
/// it did: it does not when the two differ in length.
pub fn replace_frame(frame: &mut [u8], source: &[u8]) -> (replaced: bool)
    ensures
        replaced == (old(frame)@.len() == source@.len()),
        final(frame)@ == (if replaced {
            source@
        } else {
            old(frame)@
        }),
{
    let n = frame.len();
    if source.len() != n {
        return false;
    }
    let mut i: usize = 0;
    while i < n
        invariant
            i <= n,
            n == frame@.len(),
            n == source@.len(),
            forall|k: int| 0 <= k < i ==> frame@[k] == source@[k],
        decreases n - i,
    {
        frame[i] = source[i];
        i += 1;
    }
    assert(frame@ =~= source@);
    true
}

} // verus!
