use vstd::prelude::*;
use crate::theme::{byte_of, Color};

verus! {

/// Packs three channels into an `0x00RRGGBB` pixel: `(r << 16) | (g << 8) | b`.
pub open spec fn pack_rgb(r: u32, g: u32, b: u32) -> u32 {
    (r << 16u32) | (g << 8u32) | b
}

/// The `0x00RRGGBB` pixel of a color; its alpha is not kept.
pub open spec fn spec_color_to_pixel(c: Color) -> u32 {
    (c.r as int * 65536 + c.g as int * 256 + c.b as int) as u32
}

/// The screen pixel of a color (alpha is dropped).
pub fn color_to_pixel(color: Color) -> (p: u32)
    ensures
        p == spec_color_to_pixel(color),
{
    let r = color.r as u32;
    let g = color.g as u32;
    let b = color.b as u32;
    assert((r << 16u32) | (g << 8u32) | b == r * 65536 + g * 256 + b) by (bit_vector)
        requires
            r < 256,
            g < 256,
            b < 256,
    ;
    (r << 16u32) | (g << 8u32) | b
}

/// One channel of a source-over blend: the premultiplied source channel plus the
/// destination channel scaled by the source's transparency.
pub open spec fn blend_channel(src: u8, alpha: u8, dst: u8) -> u32 {
    (src as int + (dst as int * (255 - alpha as int)) / 255) as u32
}

/// Source-over blend of a premultiplied RGBA source pixel onto an `0x00RRGGBB`
/// pixel; a fully transparent source leaves the destination as it was.
pub open spec fn spec_blend_pixel(src: Seq<u8>, dst: u32) -> u32 {
    if src[3] == 0 {
        dst
    } else {
        pack_rgb(
            blend_channel(src[0], src[3], byte_of(dst, 2)),
            blend_channel(src[1], src[3], byte_of(dst, 1)),
            blend_channel(src[2], src[3], byte_of(dst, 0)),
        )
    }
}

/// Blends a premultiplied RGBA source pixel onto a screen pixel.
pub fn blend_pixel(src: [u8; 4], dst: u32) -> (p: u32)
    ensures
        p == spec_blend_pixel(src@, dst),
{
    let a = src[3] as u32;
    if a == 0 {
        return dst;
    }
    let src_r = src[0] as u32;
    let src_g = src[1] as u32;
    let src_b = src[2] as u32;
    let dst_r = (dst >> 16u32) & 0xffu32;
    let dst_g = (dst >> 8u32) & 0xffu32;
    let dst_b = dst & 0xffu32;
    assert(dst_r == byte_of(dst, 2) && dst_g == byte_of(dst, 1) && dst_b == byte_of(dst, 0)) by {
        assert((dst >> 16u32) & 0xffu32 == (dst / 65536) % 256) by (bit_vector);
        assert((dst >> 8u32) & 0xffu32 == (dst / 256) % 256) by (bit_vector);
        assert(dst & 0xffu32 == dst % 256) by (bit_vector);
    }
    let inv_a = 255 - a;
    assert(dst_r * inv_a <= 255 * 255) by (nonlinear_arith)
        requires
            dst_r <= 255,
            inv_a <= 255,
    ;
    assert(dst_g * inv_a <= 255 * 255) by (nonlinear_arith)
        requires
            dst_g <= 255,
            inv_a <= 255,
    ;
    assert(dst_b * inv_a <= 255 * 255) by (nonlinear_arith)
        requires
            dst_b <= 255,
            inv_a <= 255,
    ;
    let out_r = src_r + (dst_r * inv_a) / 255;
    let out_g = src_g + (dst_g * inv_a) / 255;
    let out_b = src_b + (dst_b * inv_a) / 255;
    (out_r << 16u32) | (out_g << 8u32) | out_b
}

/// Blending never lets a channel pass 255 when the source is premultiplied
/// (each color channel at most its alpha): the result is then a proper
/// `0x00RRGGBB` pixel whose channels are the blended channels. A fully
/// transparent source keeps the destination, a fully opaque one replaces it.
pub proof fn lemma_blend_premultiplied(src: Seq<u8>, dst: u32)
    requires
        src.len() == 4,
        src[0] <= src[3],
        src[1] <= src[3],
        src[2] <= src[3],
    ensures
        src[3] == 0 ==> spec_blend_pixel(src, dst) == dst,
        src[3] == 255 ==> spec_blend_pixel(src, dst) as int == src[0] as int * 65536 + src[1] as int * 256 + src[2] as int,
        src[3] != 0 ==> spec_blend_pixel(src, dst) as int
            == blend_channel(src[0], src[3], byte_of(dst, 2)) as int * 65536
            + blend_channel(src[1], src[3], byte_of(dst, 1)) as int * 256
            + blend_channel(src[2], src[3], byte_of(dst, 0)) as int,
        src[3] != 0 ==> blend_channel(src[0], src[3], byte_of(dst, 2)) <= 255,
        src[3] != 0 ==> blend_channel(src[1], src[3], byte_of(dst, 1)) <= 255,
        src[3] != 0 ==> blend_channel(src[2], src[3], byte_of(dst, 0)) <= 255,
{
    if src[3] != 0 {
        lemma_blend_channel_bound(src[0], src[3], byte_of(dst, 2));
        lemma_blend_channel_bound(src[1], src[3], byte_of(dst, 1));
        lemma_blend_channel_bound(src[2], src[3], byte_of(dst, 0));
        let r = blend_channel(src[0], src[3], byte_of(dst, 2));
        let g = blend_channel(src[1], src[3], byte_of(dst, 1));
        let b = blend_channel(src[2], src[3], byte_of(dst, 0));
        assert((r << 16u32) | (g << 8u32) | b == r * 65536 + g * 256 + b) by (bit_vector)
            requires
                r < 256,
                g < 256,
                b < 256,
        ;
    }
}

proof fn lemma_blend_channel_bound(s: u8, a: u8, d: u8)
    requires
        s <= a,
    ensures
        blend_channel(s, a, d) <= 255,
        a == 255 ==> blend_channel(s, a, d) == s,
{
    assert((d as int * (255 - a as int)) / 255 <= 255 - a as int) by (nonlinear_arith)
        requires
            0 <= d <= 255,
            0 <= a <= 255,
    ;
}


/// Where the pixel at column `x` of row `y` lives in a row-major buffer `width` pixels wide.
pub open spec fn pixel_index(width: int, x: int, y: int) -> int {
    y * width + x
}

/// The premultiplied RGBA bytes of pixel `(x, y)` of a source image `src_w` pixels wide.
pub open spec fn src_pixel(src: Seq<u8>, src_w: int, x: int, y: int) -> Seq<u8> {
    src.subrange(4 * pixel_index(src_w, x, y), 4 * pixel_index(src_w, x, y) + 4)
}

/// What a screen pixel holds after an image `src_w` x `src_h` was drawn with its
/// top-left corner at `(dst_x, dst_y)`: inside the image the image's pixel blended
/// onto the old one, elsewhere the old one.
pub open spec fn blitted_pixel(
    old: Seq<u32>,
    window_width: int,
    src: Seq<u8>,
    src_w: int,
    src_h: int,
    dst_x: int,
    dst_y: int,
    x: int,
    y: int,
) -> u32 {
    if dst_x <= x < dst_x + src_w && dst_y <= y < dst_y + src_h {
        spec_blend_pixel(src_pixel(src, src_w, x - dst_x, y - dst_y), old[pixel_index(window_width, x, y)])
    } else {
        old[pixel_index(window_width, x, y)]
    }
}

proof fn lemma_index_in_bounds(w: int, h: int, x: int, y: int)
    requires
        0 <= x < w,
        0 <= y < h,
    ensures
        0 <= pixel_index(w, x, y) < w * h,
        pixel_index(w, x, y) <= pixel_index(w, w - 1, h - 1),
{
    assert(0 <= y * w + x < w * h) by (nonlinear_arith)
        requires
            0 <= x < w,
            0 <= y < h,
    ;
    assert(y * w + x <= (h - 1) * w + (w - 1)) by (nonlinear_arith)
        requires
            0 <= x < w,
            0 <= y < h,
    ;
}

proof fn lemma_index_injective(w: int, x1: int, y1: int, x2: int, y2: int)
    requires
        0 <= x1 < w,
        0 <= x2 < w,
        0 <= y1,
        0 <= y2,
        (x1 != x2 || y1 != y2),
    ensures
        pixel_index(w, x1, y1) != pixel_index(w, x2, y2),
{
    if y1 == y2 {
    } else if y1 < y2 {
        assert(y1 * w + x1 < y2 * w + x2) by (nonlinear_arith)
            requires
                0 <= x1 < w,
                0 <= x2,
                y1 < y2,
        ;
    } else {
        assert(y2 * w + x2 < y1 * w + x1) by (nonlinear_arith)
            requires
                0 <= x2 < w,
                0 <= x1,
                y2 < y1,
        ;
    }
}

/// Draws an image (premultiplied RGBA bytes, `src_w` x `src_h`) onto a row-major
/// screen buffer of `window_width` x `window_height` pixels with its top-left corner
/// at `(dst_x, dst_y)`, clipped to the window.
pub fn blit_pixmap(
    buffer: &mut [u32],
    window_width: u32,
    window_height: u32,
    src: &[u8],
    src_w: u32,
    src_h: u32,
    dst_x: u32,
    dst_y: u32,
)
    requires
        window_width as int * window_height as int <= old(buffer)@.len(),
        window_width as int * window_height as int <= u32::MAX,
        src@.len() == 4 * (src_w as int * src_h as int),
        src@.len() <= u32::MAX,
    ensures
        final(buffer)@.len() == old(buffer)@.len(),
        forall|x: int, y: int|
            0 <= x < window_width && 0 <= y < window_height ==> #[trigger] final(buffer)@[pixel_index(window_width as int, x, y)]
                == blitted_pixel(old(buffer)@, window_width as int, src@, src_w as int, src_h as int, dst_x as int, dst_y as int, x, y),
        forall|i: int| window_width as int * window_height as int <= i < old(buffer)@.len() ==> #[trigger] final(buffer)@[i] == old(buffer)@[i],
{
    let ghost old_buf = buffer@;
    let ghost ww = window_width as int;
    let ghost wh = window_height as int;
    let ghost sw = src_w as int;
    let ghost sh = src_h as int;
    let ghost dx = dst_x as int;
    let ghost dy = dst_y as int;
    let mut row: u32 = 0;
    while row < src_h
        invariant
            row <= src_h,
            buffer@.len() == old_buf.len(),
            ww * wh <= old_buf.len(),
            ww * wh <= u32::MAX,
            src@.len() == 4 * (sw * sh),
            src@.len() <= u32::MAX,
            ww == window_width,
            wh == window_height,
            sw == src_w,
            sh == src_h,
            dx == dst_x,
            dy == dst_y,
            forall|x: int, y: int|
                0 <= x < ww && 0 <= y < wh ==> #[trigger] buffer@[pixel_index(ww, x, y)]
                    == (if y < dy + row { blitted_pixel(old_buf, ww, src@, sw, sh, dx, dy, x, y) } else { old_buf[pixel_index(ww, x, y)] }),
            forall|i: int| ww * wh <= i < old_buf.len() ==> #[trigger] buffer@[i] == old_buf[i],
        ensures
            buffer@.len() == old_buf.len(),
            forall|x: int, y: int|
                0 <= x < ww && 0 <= y < wh ==> #[trigger] buffer@[pixel_index(ww, x, y)]
                    == blitted_pixel(old_buf, ww, src@, sw, sh, dx, dy, x, y),
            forall|i: int| ww * wh <= i < old_buf.len() ==> #[trigger] buffer@[i] == old_buf[i],
        decreases src_h - row,
    {
        if dst_y >= window_height || row >= window_height - dst_y {
            break;
        }
        let screen_y = dst_y + row;
        let mut col: u32 = 0;
        while col < src_w
            invariant
                row < src_h,
                col <= src_w,
                screen_y == dst_y + row,
                screen_y < window_height,
                buffer@.len() == old_buf.len(),
                ww * wh <= old_buf.len(),
                ww * wh <= u32::MAX,
                src@.len() == 4 * (sw * sh),
                src@.len() <= u32::MAX,
                ww == window_width,
                wh == window_height,
                sw == src_w,
                sh == src_h,
                dx == dst_x,
                dy == dst_y,
                forall|x: int, y: int|
                    0 <= x < ww && 0 <= y < wh ==> #[trigger] buffer@[pixel_index(ww, x, y)]
                        == (if y < dy + row || (y == dy + row && x < dx + col) {
                            blitted_pixel(old_buf, ww, src@, sw, sh, dx, dy, x, y)
                        } else {
                            old_buf[pixel_index(ww, x, y)]
                        }),
                    forall|i: int| ww * wh <= i < old_buf.len() ==> #[trigger] buffer@[i] == old_buf[i],
            ensures
                buffer@.len() == old_buf.len(),
                forall|x: int, y: int|
                    0 <= x < ww && 0 <= y < wh ==> #[trigger] buffer@[pixel_index(ww, x, y)]
                        == (if y < dy + row + 1 { blitted_pixel(old_buf, ww, src@, sw, sh, dx, dy, x, y) } else { old_buf[pixel_index(ww, x, y)] }),
                forall|i: int| ww * wh <= i < old_buf.len() ==> #[trigger] buffer@[i] == old_buf[i],
            decreases src_w - col,
        {
            if dst_x >= window_width || col >= window_width - dst_x {
                break;
            }
            let screen_x = dst_x + col;
            proof {
                lemma_index_in_bounds(sw, sh, col as int, row as int);
                lemma_index_in_bounds(ww, wh, screen_x as int, screen_y as int);
            }
            let src_i = ((row * src_w + col) * 4) as usize;
            let dst_i = (screen_y * window_width + screen_x) as usize;
            assert(dst_i == pixel_index(ww, screen_x as int, screen_y as int));
            let px = [src[src_i], src[src_i + 1], src[src_i + 2], src[src_i + 3]];
            assert(px@ =~= src_pixel(src@, sw, col as int, row as int));
            let old_px = buffer[dst_i];
            assert(old_px == old_buf[dst_i as int]);
            let new_px = blend_pixel(px, old_px);
            let ghost prev = buffer@;
            buffer[dst_i] = new_px;
            proof {
                assert forall|x: int, y: int| 0 <= x < ww && 0 <= y < wh implies #[trigger] buffer@[pixel_index(ww, x, y)]
                    == (if y < dy + row || (y == dy + row && x < dx + col + 1) {
                        blitted_pixel(old_buf, ww, src@, sw, sh, dx, dy, x, y)
                    } else {
                        old_buf[pixel_index(ww, x, y)]
                    }) by {
                    if x != screen_x || y != screen_y {
                        lemma_index_injective(ww, x, y, screen_x as int, screen_y as int);
                        lemma_index_in_bounds(ww, wh, x, y);
                        assert(buffer@[pixel_index(ww, x, y)] == prev[pixel_index(ww, x, y)]);
                    }
                }
                assert forall|i: int| ww * wh <= i < old_buf.len() implies #[trigger] buffer@[i] == old_buf[i] by {
                }
            }
            col += 1;
        }
        row += 1;
    }
}


/// `v` as four bytes, least significant first.
pub open spec fn le_bytes(v: u32) -> Seq<u8> {
    seq![byte_of(v, 0), byte_of(v, 1), byte_of(v, 2), byte_of(v, 3)]
}

/// `v` as four bytes, most significant first.
pub open spec fn be_bytes(v: u32) -> Seq<u8> {
    seq![byte_of(v, 3), byte_of(v, 2), byte_of(v, 1), byte_of(v, 0)]
}

/// `u32::to_ne_bytes`: the bytes of `v` in the machine's byte order, which is
/// little- or big-endian. Which of the two it is depends on the machine and is
/// not stated.
#[verifier::external_body]
fn ne_bytes(v: u32) -> (b: [u8; 4])
    ensures
        b@ == le_bytes(v) || b@ == be_bytes(v),
{
    v.to_ne_bytes()
}

/// Where row `y` of a mapped frame buffer starts.
pub open spec fn row_start(pitch: int, y: int) -> int {
    y * pitch
}

/// The four bytes of `m` at `at` encode `v`, least significant first when
/// `little`, most significant first otherwise.
pub open spec fn holds_pixel(m: Seq<u8>, at: int, v: u32, little: bool) -> bool {
    let b = if little { le_bytes(v) } else { be_bytes(v) };
    m[at] == b[0] && m[at + 1] == b[1] && m[at + 2] == b[2] && m[at + 3] == b[3]
}

/// Pixel `(x, y)` of the frame sits in the mapping at row `y`, byte `4 x`, in
/// the byte order that `little` names.
pub open spec fn pixel_copied(m: Seq<u8>, frame: Seq<u32>, width: int, pitch: int, x: int, y: int, little: bool) -> bool {
    holds_pixel(m, row_start(pitch, y) + 4 * x, frame[pixel_index(width, x, y)], little)
}

/// The frame's pixels are in the mapping in one byte order: every pixel that
/// no later row overwrote, and every pixel when rows are at least a row of
/// pixels apart.
pub open spec fn frame_copied(m: Seq<u8>, frame: Seq<u32>, width: int, height: int, pitch: int, little: bool) -> bool {
    &&& forall|x: int, y: int|
        0 <= x < width && 0 <= y < height && !hit_by_rows(row_start(pitch, y) + 4 * x, pitch, width, y + 1, height)
            ==> #[trigger] pixel_copied(m, frame, width, pitch, x, y, little)
    &&& 4 * width <= pitch ==> forall|x: int, y: int|
        0 <= x < width && 0 <= y < height ==> #[trigger] pixel_copied(m, frame, width, pitch, x, y, little)
}

/// The bytes of `v` in the order that `little` names.
fn pixel_bytes(v: u32, little: bool) -> (b: [u8; 4])
    ensures
        b@ == if little { le_bytes(v) } else { be_bytes(v) },
{
    let b0 = (v % 256) as u8;
    let b1 = ((v / 256) % 256) as u8;
    let b2 = ((v / 65536) % 256) as u8;
    let b3 = ((v / 16777216) % 256) as u8;
    let b = if little { [b0, b1, b2, b3] } else { [b3, b2, b1, b0] };
    assert(b@ =~= if little { le_bytes(v) } else { be_bytes(v) });
    b
}

/// Byte `i` lies in none of the first `rows` rows' pixel bytes.
pub open spec fn outside_rows(i: int, pitch: int, width: int, rows: int) -> bool {
    forall|y: int| 0 <= y < rows ==> i < #[trigger] row_start(pitch, y) || i >= row_start(pitch, y) + 4 * width
}

/// The four bytes from `at` meet the pixel bytes of some row from `lo` up to `hi`
/// (rows overlap when the pitch is shorter than a row of pixels).
pub open spec fn hit_by_rows(at: int, pitch: int, width: int, lo: int, hi: int) -> bool {
    exists|r: int| lo <= r < hi && at + 4 > #[trigger] row_start(pitch, r) && at < row_start(pitch, r) + 4 * width
}

/// With rows at least a row of pixels apart, no later row meets a pixel.
pub proof fn lemma_rows_apart(pitch: int, width: int, height: int, x: int, y: int)
    requires
        4 * width <= pitch,
        0 <= x < width,
        0 <= y,
    ensures
        !hit_by_rows(row_start(pitch, y) + 4 * x, pitch, width, y + 1, height),
{
    assert forall|r: int| y + 1 <= r < height implies !(row_start(pitch, y) + 4 * x + 4 > #[trigger] row_start(pitch, r)) by {
        assert(r * pitch >= (y + 1) * pitch) by (nonlinear_arith)
            requires
                r >= y + 1,
                pitch >= 0,
        ;
        assert((y + 1) * pitch == y * pitch + pitch) by (nonlinear_arith);
    }
}

/// Copies a row-major frame of `width` x `height` pixels into a mapped buffer whose
/// rows are `pitch` bytes apart, each pixel as four bytes, least significant
/// first when `little` and most significant first otherwise, row after row. A
/// pixel ends up in place unless a later row's pixels overwrote its bytes,
/// which happens only when the pitch is shorter than a row; bytes outside the
/// rows' pixels stay as they were.
pub fn copy_frame_in_order(frame: &[u32], mapping: &mut [u8], width: usize, height: usize, pitch: usize, little: bool)
    requires
        width as int * height as int <= frame@.len(),
        height > 0 ==> (height - 1) as int * pitch as int + 4 * width as int <= old(mapping)@.len(),
    ensures
        final(mapping)@.len() == old(mapping)@.len(),
        frame_copied(final(mapping)@, frame@, width as int, height as int, pitch as int, little),
        forall|i: int|
            0 <= i < old(mapping)@.len() && outside_rows(i, pitch as int, width as int, height as int)
                ==> #[trigger] final(mapping)@[i] == old(mapping)@[i],
{
    let ghost old_m = mapping@;
    let mapping_len = mapping.len();
    let frame_len = frame.len();
    let ghost w = width as int;
    let ghost p = pitch as int;
    let mut y: usize = 0;
    while y < height
        invariant
            y <= height,
            w == width,
            p == pitch,
            width as int * height as int <= frame@.len(),
            height > 0 ==> (height - 1) as int * pitch as int + 4 * width as int <= old_m.len(),
            mapping@.len() == old_m.len(),
            mapping_len == old_m.len(),
            frame_len == frame@.len(),
            forall|xx: int, yy: int|
                0 <= xx < w && 0 <= yy < y && !hit_by_rows(row_start(p, yy) + 4 * xx, p, w, yy + 1, y as int)
                    ==> #[trigger] pixel_copied(mapping@, frame@, w, p, xx, yy, little),
            forall|i: int| 0 <= i < old_m.len() && outside_rows(i, p, w, y as int) ==> #[trigger] mapping@[i] == old_m[i],
        decreases height - y,
    {
        let mut x: usize = 0;
        proof {
            assert(y as int * pitch as int <= (height - 1) as int * pitch as int) by (nonlinear_arith)
                requires
                    y < height,
            ;
        }
        let row = y * pitch;
        while x < width
            invariant
                x <= width,
                y < height,
                w == width,
                p == pitch,
                row == row_start(p, y as int),
                row + 4 * width <= old_m.len(),
                width as int * height as int <= frame@.len(),
                mapping@.len() == old_m.len(),
                mapping_len == old_m.len(),
                frame_len == frame@.len(),
                forall|xx: int, yy: int|
                    0 <= xx < w && 0 <= yy < y && !hit_by_rows(row_start(p, yy) + 4 * xx, p, w, yy + 1, y as int)
                        && (row_start(p, yy) + 4 * xx + 4 <= row || row_start(p, yy) + 4 * xx >= row + 4 * x)
                        ==> #[trigger] pixel_copied(mapping@, frame@, w, p, xx, yy, little),
                forall|xx: int| 0 <= xx < x ==> #[trigger] pixel_copied(mapping@, frame@, w, p, xx, y as int, little),
                forall|i: int|
                    0 <= i < old_m.len() && outside_rows(i, p, w, y as int) && (i < row || i >= row + 4 * x)
                        ==> #[trigger] mapping@[i] == old_m[i],
            decreases width - x,
        {
            proof {
                lemma_index_in_bounds(w, height as int, x as int, y as int);
            }
            let v = frame[y * width + x];
            let b = pixel_bytes(v, little);
            let at = row + 4 * x;
            let ghost prev = mapping@;
            mapping[at] = b[0];
            mapping[at + 1] = b[1];
            mapping[at + 2] = b[2];
            mapping[at + 3] = b[3];
            proof {
                assert(pixel_copied(mapping@, frame@, w, p, x as int, y as int, little));
                assert forall|xx: int, yy: int|
                    0 <= xx < w && 0 <= yy < y && !hit_by_rows(row_start(p, yy) + 4 * xx, p, w, yy + 1, y as int)
                        && (row_start(p, yy) + 4 * xx + 4 <= row || row_start(p, yy) + 4 * xx >= row + 4 * (x + 1))
                    implies #[trigger] pixel_copied(mapping@, frame@, w, p, xx, yy, little) by {
                    assert(pixel_copied(prev, frame@, w, p, xx, yy, little));
                    let a = row_start(p, yy) + 4 * xx;
                    assert(yy * p <= y * p) by (nonlinear_arith)
                        requires
                            yy < y,
                            p >= 0,
                    ;
                    assert(0 <= a && a + 4 <= mapping@.len());
                    assert(a + 4 <= at || a >= at + 4);
                    assert(mapping@[a] == prev[a]);
                    assert(mapping@[a + 1] == prev[a + 1]);
                    assert(mapping@[a + 2] == prev[a + 2]);
                    assert(mapping@[a + 3] == prev[a + 3]);
                }
                assert forall|xx: int| 0 <= xx < x + 1 implies #[trigger] pixel_copied(mapping@, frame@, w, p, xx, y as int, little) by {
                    if xx < x {
                        assert(pixel_copied(prev, frame@, w, p, xx, y as int, little));
                    }
                }
            }
            x += 1;
        }
        proof {
            assert forall|i: int| 0 <= i < old_m.len() && outside_rows(i, p, w, y + 1) implies #[trigger] mapping@[i] == old_m[i] by {
                assert(i < row_start(p, y as int) || i >= row_start(p, y as int) + 4 * w);
                assert(outside_rows(i, p, w, y as int));
            }
            assert forall|xx: int, yy: int|
                0 <= xx < w && 0 <= yy < y + 1 && !hit_by_rows(row_start(p, yy) + 4 * xx, p, w, yy + 1, y + 1)
                implies #[trigger] pixel_copied(mapping@, frame@, w, p, xx, yy, little) by {
                if yy < y {
                    let a = row_start(p, yy) + 4 * xx;
                    if hit_by_rows(a, p, w, yy + 1, y as int) {
                        let r = choose|r: int| yy + 1 <= r < y && a + 4 > #[trigger] row_start(p, r) && a < row_start(p, r) + 4 * w;
                        assert(hit_by_rows(a, p, w, yy + 1, y + 1));
                    }
                    if !(a + 4 <= row || a >= row + 4 * w) {
                        assert(a + 4 > row_start(p, y as int) && a < row_start(p, y as int) + 4 * w);
                        assert(hit_by_rows(a, p, w, yy + 1, y + 1));
                    }
                    assert(!hit_by_rows(a, p, w, yy + 1, y as int));
                    assert(a + 4 <= row || a >= row + 4 * x);
                }
            }
        }
        y += 1;
    }
    proof {
        if 4 * width <= pitch {
            assert forall|x: int, y: int| 0 <= x < width && 0 <= y < height
                implies #[trigger] pixel_copied(mapping@, frame@, w, p, x, y, little) by {
                lemma_rows_apart(p, w, height as int, x, y);
            }
        }
        assert(frame_copied(mapping@, frame@, w, height as int, p, little));
    }
}

/// Copies a frame into a mapped buffer as `copy_frame_in_order` does, in the
/// machine's byte order: the order is read once, from the bytes of the number 1,
/// and used for every pixel.
pub fn copy_frame_to_dumb_buffer(frame: &[u32], mapping: &mut [u8], width: usize, height: usize, pitch: usize)
    requires
        width as int * height as int <= frame@.len(),
        height > 0 ==> (height - 1) as int * pitch as int + 4 * width as int <= old(mapping)@.len(),
    ensures
        final(mapping)@.len() == old(mapping)@.len(),
        exists|little: bool| #[trigger] frame_copied(final(mapping)@, frame@, width as int, height as int, pitch as int, little),
        forall|i: int|
            0 <= i < old(mapping)@.len() && outside_rows(i, pitch as int, width as int, height as int)
                ==> #[trigger] final(mapping)@[i] == old(mapping)@[i],
{
    let probe = ne_bytes(1);
    let little = probe[0] == 1;
    proof {
        assert(le_bytes(1)[0] == 1 && be_bytes(1)[0] == 0);
        assert(little <==> probe@ == le_bytes(1));
    }
    copy_frame_in_order(frame, mapping, width, height, pitch, little);
}

/// Fills a frame with one color: every pixel becomes `color_to_pixel(color)`.
pub fn fill_frame(buffer: &mut [u32], color: Color)
    ensures
        final(buffer)@.len() == old(buffer)@.len(),
        forall|i: int| 0 <= i < final(buffer)@.len() ==> #[trigger] final(buffer)@[i] == spec_color_to_pixel(color),
{
    let px = color_to_pixel(color);
    let mut i: usize = 0;
    let n = buffer.len();
    while i < n
        invariant
            i <= n,
            n == buffer@.len(),
            buffer@.len() == old(buffer)@.len(),
            px == spec_color_to_pixel(color),
            forall|j: int| 0 <= j < i ==> #[trigger] buffer@[j] == px,
        decreases n - i,
    {
        buffer[i] = px;
        i += 1;
    }
}

} // verus!
