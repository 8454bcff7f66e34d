//! The picture processing unit: the LCD modes and line counter, STAT and
//! V-Blank interrupts, and the drawing of each line (background, window and
//! sprites) into a framebuffer of color ids.

use crate::cpu::alu16::signed;
use crate::memory::{is_cart_ram_address, MemState, Memory};
use vstd::prelude::*;

verus! {

/// Width of the screen in pixels.
pub const SCREEN_WIDTH: usize = 160;

/// Height of the screen in pixels.
pub const SCREEN_HEIGHT: usize = 144;

/// The picture processing unit.  `ticks` counts machine cycles within the
/// current line; `pixels` holds one color id (0..=3, after the palette) per
/// pixel, row after row.
pub struct Ppu {
    ticks: u32,
    pixels: [u8; 23040],
    bg_color_id: [u8; 160],
    window_line: u8,
}

/// The abstract state of the [`Ppu`].
#[verifier::ext_equal]
pub struct PpuState {
    pub ticks: u32,
    pub pixels: Seq<u8>,
    pub bg_color_id: Seq<u8>,
    pub window_line: u8,
}

/// The address of row `y_in_tile` of a tile: with LCDC bit 4 set the index
/// counts from 0x8000, otherwise it is signed and counts from 0x9000.
pub open spec fn tile_data_address(lcdc: u8, tile_index: u8, y_in_tile: u8) -> int {
    if lcdc & 0x10 != 0 {
        0x8000 + tile_index * 16 + y_in_tile * 2
    } else {
        0x9000 + signed(tile_index) * 16 + y_in_tile * 2
    }
}

/// The color id of pixel `i` (0 is the leftmost) of a tile row given by its
/// two bytes: bit 7 - i of the second byte is the high bit, of the first
/// byte the low bit.
pub open spec fn tile_pixel(lo: u8, hi: u8, i: int) -> u8 {
    (((hi >> ((7 - i) as u8)) & 1) * 2 + ((lo >> ((7 - i) as u8)) & 1)) as u8
}

/// The shade that a palette register gives a color id: bits 2c+1..2c.
pub open spec fn shade(palette: u8, color_id: u8) -> u8 {
    (palette >> (color_id * 2) as u8) & 0x03
}

/// Whether an address is outside the cartridge RAM window, so that a read
/// leaves the memory unchanged.
pub open spec fn plain_read(address: int) -> bool {
    0 <= address < 0x10000 && !is_cart_ram_address(address as u16)
}

/// The color id of the background at pixel `px` of line `ly`: 0 with the
/// background off (LCDC bit 0), else the pixel of the 256x256 map (LCDC bit 3
/// selects 0x9800 or 0x9C00) scrolled by SCX and SCY.
pub open spec fn bg_color(m: MemState, ly: u8, px: int) -> u8 {
    let lcdc = m.bus[0xFF40];
    if lcdc & 0x01 == 0 {
        0
    } else {
        let y = (ly + m.bus[0xFF42]) % 256;
        let x = (px + m.bus[0xFF43]) % 256;
        let base: int = if lcdc & 0x08 == 0 { 0x9800 } else { 0x9C00 };
        let tile_index = m.read_value((base + (y / 8) * 32 + x / 8) as u16);
        let addr = tile_data_address(lcdc, tile_index, (y % 8) as u8);
        tile_pixel(m.read_value(addr as u16), m.read_value((addr + 1) as u16), x % 8)
    }
}

/// Replaces the pixels of line `ly` for which `f` gives a shade.
pub open spec fn paint_line(pixels: Seq<u8>, ly: u8, f: spec_fn(int) -> Option<u8>) -> Seq<u8> {
    Seq::new(
        pixels.len(),
        |i: int|
            if ly * 160 <= i < ly * 160 + 160 {
                match f(i - ly * 160) {
                    Some(v) => v,
                    None => pixels[i],
                }
            } else {
                pixels[i]
            },
    )
}

/// The background line: its color ids, and the framebuffer with the line
/// drawn through the palette BGP.
pub open spec fn draw_background(pixels: Seq<u8>, m: MemState, ly: u8) -> (Seq<u8>, Seq<u8>) {
    let ids = Seq::new(160, |px: int| bg_color(m, ly, px));
    (ids, paint_line(pixels, ly, |px: int| Some(shade(m.bus[0xFF47], ids[px]))))
}

/// Whether the window shows on line `ly`: LCDC bit 5 set and `ly` at or
/// below WY.
pub open spec fn window_visible(m: MemState, ly: u8) -> bool {
    m.bus[0xFF40] & 0x20 != 0 && ly >= m.bus[0xFF4A]
}

/// The color id of the window at column `x` (relative to its left edge) of
/// its line `window_line`; LCDC bit 6 selects the tile map.
pub open spec fn window_color(m: MemState, window_line: u8, x: int) -> u8 {
    let lcdc = m.bus[0xFF40];
    let base: int = if lcdc & 0x40 == 0 { 0x9800 } else { 0x9C00 };
    let tile_index = m.read_value((base + (window_line / 8) * 32 + x / 8) as u16);
    let addr = tile_data_address(lcdc, tile_index, window_line % 8);
    tile_pixel(m.read_value(addr as u16), m.read_value((addr + 1) as u16), x % 8)
}

/// The window over line `ly`, from screen column WX - 7 on, and the
/// window's own line counter, which advances on every line it shows.
pub open spec fn draw_window(pixels: Seq<u8>, m: MemState, ly: u8, window_line: u8) -> (Seq<u8>, u8) {
    if !window_visible(m, ly) {
        (pixels, window_line)
    } else {
        let wx = m.bus[0xFF4B] - 7;
        (
            paint_line(
                pixels,
                ly,
                |px: int|
                    if px - wx >= 0 {
                        Some(shade(m.bus[0xFF47], window_color(m, window_line, px - wx)))
                    } else {
                        None
                    },
            ),
            window_line.wrapping_add(1),
        )
    }
}

/// The height of sprites: 8, or 16 with LCDC bit 2 set.
pub open spec fn sprite_rows(m: MemState) -> int {
    if m.bus[0xFF40] & 0x04 == 0 {
        8
    } else {
        16
    }
}

/// Sprite `i` (OAM bytes Y, X, tile, attributes at 0xFE00 + 4i) over line
/// `ly`.  Its top row is Y - 16 and its left column X - 8; attribute bit 6
/// flips it vertically, bit 5 horizontally, bit 4 selects OBP1 over OBP0 and
/// bit 7 puts it behind background colors 1-3.  Color 0 is transparent.
/// Sprite tiles always count from 0x8000.
pub open spec fn draw_sprite(pixels: Seq<u8>, bg: Seq<u8>, m: MemState, ly: u8, i: int) -> Seq<u8> {
    let oam = 0xFE00 + i * 4;
    let sprite_y = m.read_value(oam as u16) as int;
    let sprite_x = m.read_value((oam + 1) as u16) as int;
    let tile_index = m.read_value((oam + 2) as u16);
    let attributes = m.read_value((oam + 3) as u16);
    let height = sprite_rows(m);
    let top = sprite_y - 16;
    if ly < top || ly >= top + height {
        pixels
    } else {
        let row = if attributes & 0x40 != 0 {
            height - 1 - (ly - top)
        } else {
            ly - top
        };
        let addr = 0x8000 + tile_index * 16 + row * 2;
        let lo = m.read_value(addr as u16);
        let hi = m.read_value((addr + 1) as u16);
        let palette = if attributes & 0x10 != 0 {
            m.bus[0xFF49]
        } else {
            m.bus[0xFF48]
        };
        paint_line(
            pixels,
            ly,
            |px: int|
                {
                    let k = px - (sprite_x - 8);
                    if 0 <= k < 8 {
                        let c = tile_pixel(lo, hi, if attributes & 0x20 != 0 { 7 - k } else { k });
                        if c == 0 || (attributes & 0x80 != 0 && bg[px] != 0) {
                            None
                        } else {
                            Some(shade(palette, c))
                        }
                    } else {
                        None
                    }
                },
        )
    }
}

/// The sprites 39, 38, ..., 40 - n drawn in that order, so that a lower
/// OAM index ends up on top.
pub open spec fn draw_sprites(pixels: Seq<u8>, bg: Seq<u8>, m: MemState, ly: u8, n: nat) -> Seq<u8>
    decreases n,
{
    if n == 0 {
        pixels
    } else {
        draw_sprite(draw_sprites(pixels, bg, m, ly, (n - 1) as nat), bg, m, ly, 40 - n)
    }
}

/// All sprites over line `ly`, when LCDC bit 1 enables them.
pub open spec fn draw_all_sprites(pixels: Seq<u8>, bg: Seq<u8>, m: MemState, ly: u8) -> Seq<u8> {
    if m.bus[0xFF40] & 0x02 == 0 {
        pixels
    } else {
        draw_sprites(pixels, bg, m, ly, 40)
    }
}

/// A whole line drawn when the PPU enters H-Blank: background, window, then
/// sprites (which see the background's color ids).
pub open spec fn render_line(p: PpuState, m: MemState, ly: u8) -> PpuState {
    let (bg, pixels1) = draw_background(p.pixels, m, ly);
    let (pixels2, window_line) = draw_window(pixels1, m, ly, p.window_line);
    PpuState {
        pixels: draw_all_sprites(pixels2, bg, m, ly),
        bg_color_id: bg,
        window_line,
        ..p
    }
}

/// The mode of the PPU: V-Blank (1) on lines 144..=153; otherwise within the
/// 114 machine cycles of a line, OAM search (2) for cycles 0..20, pixel
/// transfer (3) for 20..63 and H-Blank (0) after.
pub open spec fn mode_for(ly: u8, ticks: u32) -> u8 {
    if ly >= 144 {
        1
    } else if ticks < 20 {
        2
    } else if ticks < 63 {
        3
    } else {
        0
    }
}

/// `m_cycles` machine cycles of the PPU.  With the LCD off (LCDC bit 7) LY,
/// the line timer, the window line and the framebuffer are cleared and the
/// mode is H-Blank.  Otherwise a completed line (114 cycles) advances LY,
/// wrapping after 153 (which also restarts the window line) and requesting
/// the V-Blank interrupt on reaching 144; STAT gets the mode and the LY=LYC
/// flag (bit 2); entering H-Blank draws the line; and the STAT interrupt (bit
/// 1 of IF) is requested on entering a mode enabled in STAT bits 3-5, or when
/// LY becomes equal to LYC with STAT bit 6 set.
pub open spec fn ppu_step(p: PpuState, m: MemState, m_cycles: u16) -> (PpuState, MemState) {
    let ticks = (p.ticks + m_cycles) as u32;
    if m.bus[0xFF40] & 0x80 == 0 {
        let m1 = m.set_bus(0xFF44, 0);
        (
            PpuState { ticks: 0, pixels: Seq::new(23040, |i: int| 0u8), window_line: 0, ..p },
            MemState { ppu_mode: 0, ..m1.set_bus(0xFF41, m1.bus[0xFF41] & 0xFC) },
        )
    } else {
        let old_stat = m.bus[0xFF41];
        let old_mode = old_stat & 0x03;
        let old_ly = m.bus[0xFF44];
        let new_line = ticks >= 114;
        let ticks2: u32 = if new_line { (ticks - 114) as u32 } else { ticks };
        let next = old_ly.wrapping_add(1);
        let ly: u8 = if !new_line { old_ly } else if next > 153 { 0 } else { next };
        let window_line: u8 = if new_line && next > 153 { 0 } else { p.window_line };
        let m1 = if new_line {
            let ma = if ly == 144 { m.set_bus(0xFF0F, m.bus[0xFF0F] | 0x01) } else { m };
            ma.set_bus(0xFF44, ly)
        } else {
            m
        };
        let mode = mode_for(ly, ticks2);
        let coincidence = ly == m1.bus[0xFF45];
        let stat = (((old_stat & 0xFC) | mode) & !0x04u8) | (if coincidence { 0x04u8 } else { 0u8 });
        let m2 = MemState { ppu_mode: mode, ..m1.set_bus(0xFF41, stat) };
        let p2 = PpuState { ticks: ticks2, window_line, ..p };
        let mode_edge = mode != old_mode;
        let p3 = if mode_edge && mode == 0 { render_line(p2, m2, ly) } else { p2 };
        let mode_int = mode_edge && (if mode == 0 {
            stat & 0x08 != 0
        } else if mode == 1 {
            stat & 0x10 != 0
        } else if mode == 2 {
            stat & 0x20 != 0
        } else {
            false
        });
        let lyc_int = stat & 0x40 != 0 && coincidence && old_ly != m1.bus[0xFF45];
        let m3 = if mode_int || lyc_int {
            m2.after_read(0xFF0F).write(0xFF0F, m2.read_value(0xFF0F) | 0x02)
        } else {
            m2
        };
        (p3, m3)
    }
}

/// A PPU step shorter than a line keeps LY within 0..=153 and the line
/// timer within a line.  With the LCD on, the mode in STAT bits 0-1 and the
/// mode the memory locks follow are both the mode of the new LY and timer;
/// with the LCD off, LY is 0 and the mode is H-Blank.
pub proof fn law_ppu_timing(p: PpuState, m: MemState, m_cycles: u16)
    requires
        m.inv(),
        m.bus[0xFF44] <= 153,
        p.ticks < 114,
        m_cycles < 114,
    ensures
        ({
            let (p2, m2) = ppu_step(p, m, m_cycles);
            &&& m2.bus[0xFF44] <= 153
            &&& p2.ticks < 114
            &&& m.bus[0xFF40] & 0x80 != 0 ==> m2.bus[0xFF41] & 0x03 == m2.ppu_mode
                && m2.ppu_mode == mode_for(m2.bus[0xFF44], p2.ticks)
            &&& m.bus[0xFF40] & 0x80 == 0 ==> m2.bus[0xFF44] == 0 && m2.ppu_mode == 0
        }),
{
    let ticks = (p.ticks + m_cycles) as u32;
    if m.bus[0xFF40] & 0x80 != 0 {
        let old_stat = m.bus[0xFF41];
        let new_line = ticks >= 114;
        let ticks2: u32 = if new_line { (ticks - 114) as u32 } else { ticks };
        let old_ly = m.bus[0xFF44];
        let next = old_ly.wrapping_add(1);
        let ly: u8 = if !new_line { old_ly } else if next > 153 { 0 } else { next };
        let mode = mode_for(ly, ticks2);
        let c = ly == m.bus[0xFF45];
        assert(mode < 4);
        let stat = (((old_stat & 0xFC) | mode) & !0x04u8) | (if c { 0x04u8 } else { 0u8 });
        assert(stat & 0x03 == mode) by (bit_vector)
            requires
                mode < 4,
                stat == (((old_stat & 0xFC) | mode) & !0x04u8) | (if c { 0x04u8 } else { 0u8 }),
        ;
    }
}

/// Whether a framebuffer holds one color id (0..=3) per pixel of the screen.
pub open spec fn is_color_ids(pixels: Seq<u8>) -> bool {
    &&& pixels.len() == 23040
    &&& forall|i: int| 0 <= i < pixels.len() ==> #[trigger] pixels[i] <= 3
}

/// A palette gives a color id.
proof fn lemma_shades_are_color_ids()
    ensures
        forall|palette: u8, color_id: u8| #[trigger] shade(palette, color_id) <= 3,
{
    assert forall|palette: u8, color_id: u8| #[trigger] shade(palette, color_id) <= 3 by {
        let shift = (color_id * 2) as u8;
        assert((palette >> shift) & 0x03 <= 3) by (bit_vector);
    }
}

/// Drawing the sprites keeps a framebuffer of color ids.
proof fn lemma_sprites_keep_color_ids(pixels: Seq<u8>, bg: Seq<u8>, m: MemState, ly: u8, n: nat)
    requires
        is_color_ids(pixels),
    ensures
        is_color_ids(draw_sprites(pixels, bg, m, ly, n)),
    decreases n,
{
    lemma_shades_are_color_ids();
    if n > 0 {
        lemma_sprites_keep_color_ids(pixels, bg, m, ly, (n - 1) as nat);
        let before = draw_sprites(pixels, bg, m, ly, (n - 1) as nat);
        let after = draw_sprite(before, bg, m, ly, 40 - n);
        assert forall|i: int| 0 <= i < after.len() implies #[trigger] after[i] <= 3 by {
            assert(before[i] <= 3);
        }
    }
}

/// Drawing a line keeps a framebuffer of color ids.
proof fn lemma_render_keeps_color_ids(p: PpuState, m: MemState, ly: u8)
    requires
        is_color_ids(p.pixels),
    ensures
        is_color_ids(render_line(p, m, ly).pixels),
{
    lemma_shades_are_color_ids();
    let (bg, pixels1) = draw_background(p.pixels, m, ly);
    assert forall|i: int| 0 <= i < pixels1.len() implies #[trigger] pixels1[i] <= 3 by {
        assert(p.pixels[i] <= 3);
    }
    let (pixels2, window_line) = draw_window(pixels1, m, ly, p.window_line);
    assert forall|i: int| 0 <= i < pixels2.len() implies #[trigger] pixels2[i] <= 3 by {
        assert(pixels1[i] <= 3);
    }
    lemma_sprites_keep_color_ids(pixels2, bg, m, ly, 40);
}

/// The framebuffer always holds one color id (0..=3) per pixel: it does
/// after [`Ppu::new`], and every PPU step keeps it so.
pub proof fn law_pixels_are_color_ids(p: PpuState, m: MemState, m_cycles: u16)
    requires
        is_color_ids(p.pixels),
    ensures
        is_color_ids(ppu_step(p, m, m_cycles).0.pixels),
{
    let ticks = (p.ticks + m_cycles) as u32;
    if m.bus[0xFF40] & 0x80 != 0 {
        let new_line = ticks >= 114;
        let ticks2: u32 = if new_line { (ticks - 114) as u32 } else { ticks };
        let old_ly = m.bus[0xFF44];
        let next = old_ly.wrapping_add(1);
        let ly: u8 = if !new_line { old_ly } else if next > 153 { 0 } else { next };
        let window_line: u8 = if new_line && next > 153 { 0 } else { p.window_line };
        let m1 = if new_line {
            let ma = if ly == 144 { m.set_bus(0xFF0F, m.bus[0xFF0F] | 0x01) } else { m };
            ma.set_bus(0xFF44, ly)
        } else {
            m
        };
        let mode = mode_for(ly, ticks2);
        let coincidence = ly == m1.bus[0xFF45];
        let stat = (((m.bus[0xFF41] & 0xFC) | mode) & !0x04u8) | (if coincidence { 0x04u8 } else { 0u8 });
        let m2 = MemState { ppu_mode: mode, ..m1.set_bus(0xFF41, stat) };
        let p2 = PpuState { ticks: ticks2, window_line, ..p };
        lemma_render_keeps_color_ids(p2, m2, ly);
    }
}

/// The PPU after a sequence of steps, step `k` with the memory `steps[k].0`
/// and `steps[k].1` machine cycles (the memory may change between steps).
pub open spec fn ppu_run(p: PpuState, steps: Seq<(MemState, u16)>) -> PpuState
    decreases steps.len(),
{
    if steps.len() == 0 {
        p
    } else {
        ppu_run(ppu_step(p, steps[0].0, steps[0].1).0, steps.drop_first())
    }
}

/// However the PPU steps, a framebuffer of color ids stays one.
proof fn lemma_run_keeps_color_ids(p: PpuState, steps: Seq<(MemState, u16)>)
    requires
        is_color_ids(p.pixels),
    ensures
        is_color_ids(ppu_run(p, steps).pixels),
    decreases steps.len(),
{
    if steps.len() > 0 {
        law_pixels_are_color_ids(p, steps[0].0, steps[0].1);
        lemma_run_keeps_color_ids(ppu_step(p, steps[0].0, steps[0].1).0, steps.drop_first());
    }
}

/// After [`Ppu::new`] and any sequence of steps, the framebuffer holds one
/// color id (0..=3) for each of the 160 x 144 pixels.
pub proof fn law_pixels_stay_color_ids(steps: Seq<(MemState, u16)>)
    ensures
        ppu_run(Ppu::new_state(), steps).pixels.len() == 160 * 144,
        forall|i: int|
            0 <= i < 160 * 144 ==> #[trigger] ppu_run(Ppu::new_state(), steps).pixels[i] <= 3,
{
    lemma_run_keeps_color_ids(Ppu::new_state(), steps);
}

/// What a sprite draws on a pixel it covers.  Sprite `i` has OAM bytes Y, X,
/// tile and attributes at 0xFE00 + 4i and covers the pixels from column
/// X - 8 to X - 1 on the lines from Y - 16 on, 8 or 16 of them (LCDC bit
/// 2).  On a covered pixel its color id is taken from the tile row (flipped
/// vertically by attribute bit 6) at the column (flipped horizontally by
/// bit 5), the high bit from the second byte of the row and the low bit from
/// the first.  Color 0 is transparent, and so is any color over a nonzero
/// background color when bit 7 puts the sprite behind the background; any
/// other color c is shown through OBP0 (0xFF48) when bit 4 is clear and OBP1
/// (0xFF49) when it is set, as the two bits 2c+1..2c of that palette.
pub proof fn law_sprite_pixel(pixels: Seq<u8>, bg: Seq<u8>, m: MemState, ly: u8, i: int, px: int)
    requires
        0 <= i < 40,
        ly < 144,
        0 <= px < 160,
        pixels.len() == 23040,
        ({
            let oam = 0xFE00 + 4 * i;
            let y = m.read_value(oam as u16) as int;
            let x = m.read_value((oam + 1) as u16) as int;
            let height: int = if m.bus[0xFF40] & 0x04 != 0 { 16 } else { 8 };
            y - 16 <= ly < y - 16 + height && x - 8 <= px < x
        }),
    ensures
        ({
            let oam = 0xFE00 + 4 * i;
            let y = m.read_value(oam as u16) as int;
            let x = m.read_value((oam + 1) as u16) as int;
            let tile = m.read_value((oam + 2) as u16);
            let attributes = m.read_value((oam + 3) as u16);
            let height: int = if m.bus[0xFF40] & 0x04 != 0 { 16 } else { 8 };
            let line = ly - (y - 16);
            let row = if attributes & 0x40 != 0 { height - 1 - line } else { line };
            let column = px - (x - 8);
            let bit = if attributes & 0x20 != 0 { column } else { 7 - column };
            let address = 0x8000 + tile * 16 + row * 2;
            let lo = m.read_value(address as u16);
            let hi = m.read_value((address + 1) as u16);
            let color: int = ((hi >> (bit as u8)) & 1) * 2 + ((lo >> (bit as u8)) & 1);
            let palette = if attributes & 0x10 != 0 { m.bus[0xFF49] } else { m.bus[0xFF48] };
            let out = draw_sprite(pixels, bg, m, ly, i)[ly * 160 + px];
            if color == 0 || (attributes & 0x80 != 0 && bg[px] != 0) {
                out == pixels[ly * 160 + px]
            } else {
                out == (palette >> ((2 * color) as u8)) & 0x03
            }
        }),
{
    let oam = 0xFE00 + 4 * i;
    let y = m.read_value(oam as u16) as int;
    let x = m.read_value((oam + 1) as u16) as int;
    let tile = m.read_value((oam + 2) as u16);
    let attributes = m.read_value((oam + 3) as u16);
    let height: int = if m.bus[0xFF40] & 0x04 != 0 { 16 } else { 8 };
    assert(height == sprite_rows(m));
    let line = ly - (y - 16);
    let row = if attributes & 0x40 != 0 { height - 1 - line } else { line };
    let column = px - (x - 8);
    let k = if attributes & 0x20 != 0 { 7 - column } else { column };
    let address = 0x8000 + tile * 16 + row * 2;
    let lo = m.read_value(address as u16);
    let hi = m.read_value((address + 1) as u16);
    lemma_tile_pixel_small(lo, hi, k);
    let bit = if attributes & 0x20 != 0 { column } else { 7 - column };
    assert((7 - k) as u8 == bit as u8);
    let c = tile_pixel(lo, hi, k);
    let color: int = ((hi >> (bit as u8)) & 1) * 2 + ((lo >> (bit as u8)) & 1);
    assert(c as int == color);
    let palette = if attributes & 0x10 != 0 { m.bus[0xFF49] } else { m.bus[0xFF48] };
    assert(shade(palette, c) == (palette >> ((2 * color) as u8)) & 0x03);
    assert(ly * 160 <= ly * 160 + px < ly * 160 + 160);
    assert(ly * 160 + 160 <= 23040);
    let out = draw_sprite(pixels, bg, m, ly, i);
    assert(out == paint_line(
        pixels,
        ly,
        |p: int|
            {
                let kk = p - (x - 8);
                if 0 <= kk < 8 {
                    let cc = tile_pixel(lo, hi, if attributes & 0x20 != 0 { 7 - kk } else { kk });
                    if cc == 0 || (attributes & 0x80 != 0 && bg[p] != 0) {
                        None
                    } else {
                        Some(shade(palette, cc))
                    }
                } else {
                    None
                }
            },
    ));
}

/// Color ids are 2-bit values.
pub proof fn lemma_tile_pixel_small(lo: u8, hi: u8, i: int)
    ensures
        tile_pixel(lo, hi, i) < 4,
        tile_pixel(lo, hi, i) as int == ((hi >> ((7 - i) as u8)) & 1) * 2 + ((lo >> ((7 - i) as u8))
            & 1),
{
    let b = (7 - i) as u8;
    assert((hi >> b) & 1 <= 1 && (lo >> b) & 1 <= 1) by (bit_vector);
}

/// Background color ids are 2-bit values.
pub proof fn lemma_bg_color_small(m: MemState, ly: u8)
    ensures
        forall|px: int| #![auto] bg_color(m, ly, px) < 4,
{
    assert forall|px: int| #![auto] bg_color(m, ly, px) < 4 by {
        let lcdc = m.bus[0xFF40];
        if lcdc & 0x01 != 0 {
            let y = (ly + m.bus[0xFF42]) % 256;
            let x = (px + m.bus[0xFF43]) % 256;
            let base: int = if lcdc & 0x08 == 0 { 0x9800 } else { 0x9C00 };
            let tile_index = m.read_value((base + (y / 8) * 32 + x / 8) as u16);
            let addr = tile_data_address(lcdc, tile_index, (y % 8) as u8);
            lemma_tile_pixel_small(m.read_value(addr as u16), m.read_value((addr + 1) as u16), x % 8);
        }
    }
}

/// Row addresses of tiles lie in video RAM.
pub proof fn lemma_tile_address(lcdc: u8, tile_index: u8, y_in_tile: u8)
    requires
        y_in_tile < 8,
    ensures
        0x8000 <= tile_data_address(lcdc, tile_index, y_in_tile) < 0x9800,
{
}

impl View for Ppu {
    type V = PpuState;

    closed spec fn view(&self) -> PpuState {
        PpuState {
            ticks: self.ticks,
            pixels: self.pixels@,
            bg_color_id: self.bg_color_id@,
            window_line: self.window_line,
        }
    }
}

/// The address of row `y_in_tile` of a tile for the addressing mode of LCDC.
fn get_tile_data_address(lcdc: u8, tile_index: u8, y_in_tile: u8) -> (address: u16)
    requires
        y_in_tile < 8,
    ensures
        address == tile_data_address(lcdc, tile_index, y_in_tile),
{
    if lcdc & 0x10 != 0 {
        return 0x8000u16 + (tile_index as u16) * 16 + (y_in_tile as u16) * 2;
    }
    proof {
        crate::cpu::alu16::lemma_sign_extend(tile_index);
    }
    let base = 0x9000i32 + ((tile_index as i8) as i32) * 16;
    base as u16 + (y_in_tile as u16) * 2
}

/// Reads the two bytes of a tile row and returns its 8 color ids, left to
/// right.
fn read_tile_row(memory: &mut Memory, address: u16) -> (row: [u8; 8])
    requires
        old(memory).inv(),
        plain_read(address as int),
        plain_read(address + 1),
    ensures
        forall|i: int|
            0 <= i < 8 ==> row@[i] == tile_pixel(
                old(memory)@.read_value(address),
                old(memory)@.read_value((address + 1) as u16),
                i,
            ),
        final(memory)@ == old(memory)@,
        final(memory).inv(),
{
    let lo = memory.read_byte(address);
    let hi = memory.read_byte(address + 1);
    let mut row = [0u8; 8];
    let mut i: usize = 0;
    while i < 8
        invariant
            i <= 8,
            forall|k: int| 0 <= k < i ==> row@[k] == tile_pixel(lo, hi, k),
        decreases 8 - i,
    {
        // Bit 7 is the leftmost pixel.
        let bit = (7 - i) as u8;
        let v = ((hi >> bit) & 1) << 1 | ((lo >> bit) & 1);
        assert(v == (((hi >> bit) & 1) * 2 + ((lo >> bit) & 1)) as u8) by (bit_vector)
            requires
                v == ((hi >> bit) & 1) << 1 | ((lo >> bit) & 1),
        ;
        row[i] = v;
        i += 1;
    }
    row
}

impl Ppu {
    /// The PPU at power-on: at the start of a line, with a blank framebuffer.
    pub open spec fn new_state() -> PpuState {
        PpuState {
            ticks: 0,
            pixels: Seq::new(23040, |i: int| 0u8),
            bg_color_id: Seq::new(160, |i: int| 0u8),
            window_line: 0,
        }
    }

    /// A PPU at the start of a line with a blank framebuffer.
    pub fn new() -> (ppu: Self)
        ensures
            ppu@ == Ppu::new_state(),
            is_color_ids(ppu@.pixels),
    {
        let pixels = [0u8; 23040];
        let bg = [0u8; 160];
        assert(pixels@ =~= Seq::new(23040, |i: int| 0u8));
        assert(bg@ =~= Seq::new(160, |i: int| 0u8));
        Ppu { ticks: 0, pixels, bg_color_id: bg, window_line: 0 }
    }

    /// The framebuffer as color ids (0..=3), one byte per pixel.
    pub fn get_pixels(&self) -> (pixels: &[u8])
        ensures
            pixels@ == self@.pixels,
    {
        self.pixels.as_slice()
    }

    /// Draws line `ly` of the background.
    fn render_background(&mut self, ly: u8, memory: &mut Memory)
        requires
            old(memory).inv(),
            ly < 144,
        ensures
            (final(self)@.bg_color_id, final(self)@.pixels) == draw_background(
                old(self)@.pixels,
                old(memory)@,
                ly,
            ),
            final(self)@.ticks == old(self)@.ticks,
            final(self)@.window_line == old(self)@.window_line,
            final(memory)@ == old(memory)@,
            final(memory).inv(),
    {
        let ghost m = memory@;
        let lcdc = memory.address_bus[0xFF40];
        let bgp = memory.address_bus[0xFF47];
        if lcdc & 0x01 == 0 {
            let mut px: usize = 0;
            while px < SCREEN_WIDTH
                invariant
                    px <= 160,
                    lcdc == m.bus[0xFF40],
                    lcdc & 0x01 == 0,
                    forall|k: int| 0 <= k < px ==> self.bg_color_id@[k] == bg_color(m, ly, k),
                    self.pixels@ == old(self).pixels@,
                    self.ticks == old(self).ticks,
                    self.window_line == old(self).window_line,
                decreases 160 - px,
            {
                self.bg_color_id[px] = 0;
                px += 1;
            }
        } else {
            let scx = memory.address_bus[0xFF43] as usize;
            let scy = memory.address_bus[0xFF42] as usize;
            // LCDC bit 3 selects the tile map.
            let tilemap_base: u16 = if lcdc & 0x08 == 0 {
                0x9800
            } else {
                0x9C00
            };
            let sum_y = ly as usize + scy;
            let y = sum_y & 0xFF;
            assert(y == sum_y % 256) by (bit_vector)
                requires
                    y == sum_y & 0xFF,
            ;
            let tile_row = y / 8;
            let y_in_tile = (y % 8) as u8;
            let mut px: usize = 0;
            while px < SCREEN_WIDTH
                invariant
                    px <= 160,
                    memory@ == m,
                    memory.inv(),
                    lcdc == m.bus[0xFF40],
                    lcdc & 0x01 != 0,
                    scx == m.bus[0xFF43],
                    scy == m.bus[0xFF42],
                    y == (ly + scy) % 256,
                    tile_row == y / 8,
                    y_in_tile == y % 8,
                    tilemap_base == (if lcdc & 0x08 == 0 { 0x9800int } else { 0x9C00int }),
                    forall|k: int| 0 <= k < px ==> self.bg_color_id@[k] == bg_color(m, ly, k),
                    self.pixels@ == old(self).pixels@,
                    self.ticks == old(self).ticks,
                    self.window_line == old(self).window_line,
                decreases 160 - px,
            {
                let sum_x = px + scx;
                let x = sum_x & 0xFF;
                assert(x == sum_x % 256) by (bit_vector)
                    requires
                        x == sum_x & 0xFF,
                ;
                let tile_col = x / 8;
                let x_in_tile = x % 8;
                let map_address = tilemap_base + (tile_row * 32 + tile_col) as u16;
                let tile_index = memory.read_byte(map_address);
                let tile_addr = get_tile_data_address(lcdc, tile_index, y_in_tile);
                proof {
                    lemma_tile_address(lcdc, tile_index, y_in_tile);
                }
                let row = read_tile_row(memory, tile_addr);
                self.bg_color_id[px] = row[x_in_tile];
                px += 1;
            }
        }
        let line = ly as usize * SCREEN_WIDTH;
        let ghost ids = self.bg_color_id@;
        assert(ids =~= draw_background(old(self)@.pixels, m, ly).0);
        proof {
            lemma_bg_color_small(m, ly);
        }
        let mut px: usize = 0;
        while px < SCREEN_WIDTH
            invariant
                px <= 160,
                line == ly * 160,
                ly < 144,
                bgp == m.bus[0xFF47],
                self.bg_color_id@ == ids,
                ids == draw_background(old(self)@.pixels, m, ly).0,
                forall|k: int| 0 <= k < 160 ==> #[trigger] ids[k] < 4,
                forall|i: int|
                    0 <= i < 23040 ==> self.pixels@[i] == (if line <= i < line + px {
                        shade(bgp, ids[i - line])
                    } else {
                        old(self).pixels@[i]
                    }),
                self.ticks == old(self).ticks,
                self.window_line == old(self).window_line,
            decreases 160 - px,
        {
            let color_id = self.bg_color_id[px];
            self.pixels[line + px] = (bgp >> (color_id * 2)) & 0x03;
            px += 1;
        }
        assert(self.pixels@ =~= draw_background(old(self)@.pixels, m, ly).1);
    }

    /// Draws the window over line `ly`.
    fn render_window(&mut self, ly: u8, memory: &mut Memory)
        requires
            old(memory).inv(),
            ly < 144,
        ensures
            (final(self)@.pixels, final(self)@.window_line) == draw_window(
                old(self)@.pixels,
                old(memory)@,
                ly,
                old(self)@.window_line,
            ),
            final(self)@.ticks == old(self)@.ticks,
            final(self)@.bg_color_id == old(self)@.bg_color_id,
            final(memory)@ == old(memory)@,
            final(memory).inv(),
    {
        let ghost m = memory@;
        let lcdc = memory.address_bus[0xFF40];
        if lcdc & 0x20 == 0 {
            return;
        }
        let wy = memory.address_bus[0xFF4A] as usize;
        if (ly as usize) < wy {
            return;
        }
        let bgp = memory.address_bus[0xFF47];
        // WX holds the left edge of the window plus 7.
        let wx = memory.address_bus[0xFF4B] as i32 - 7;
        let tilemap_base: u16 = if lcdc & 0x40 == 0 {
            0x9800
        } else {
            0x9C00
        };
        let window_y = self.window_line as usize;
        let tile_row = window_y / 8;
        let y_in_tile = (window_y % 8) as u8;
        let line = ly as usize * SCREEN_WIDTH;
        let ghost wl = self.window_line;
        let ghost f = |px: int|
            if px - wx >= 0 {
                Some(shade(m.bus[0xFF47], window_color(m, wl, px - wx)))
            } else {
                None::<u8>
            };
        let mut px: usize = 0;
        while px < SCREEN_WIDTH
            invariant
                px <= 160,
                memory@ == m,
                memory.inv(),
                ly < 144,
                line == ly * 160,
                lcdc == m.bus[0xFF40],
                bgp == m.bus[0xFF47],
                wx == m.bus[0xFF4B] - 7,
                window_y == wl,
                tile_row == wl / 8,
                y_in_tile == wl % 8,
                tilemap_base == (if lcdc & 0x40 == 0 { 0x9800int } else { 0x9C00int }),
                self.window_line == wl,
                f == (|px: int|
                    if px - wx >= 0 {
                        Some(shade(m.bus[0xFF47], window_color(m, wl, px - wx)))
                    } else {
                        None::<u8>
                    }),
                forall|i: int|
                    0 <= i < 23040 ==> self.pixels@[i] == (if line <= i < line + px {
                        match f(i - line) {
                            Some(v) => v,
                            None => old(self).pixels@[i],
                        }
                    } else {
                        old(self).pixels@[i]
                    }),
                self.ticks == old(self).ticks,
                self.bg_color_id == old(self).bg_color_id,
            decreases 160 - px,
        {
            let x = px as i32 - wx;
            if x >= 0 {
                let x = x as usize;
                let tile_col = x / 8;
                let x_in_tile = x % 8;
                let map_address = tilemap_base + (tile_row * 32 + tile_col) as u16;
                let tile_index = memory.read_byte(map_address);
                let tile_addr = get_tile_data_address(lcdc, tile_index, y_in_tile);
                proof {
                    lemma_tile_address(lcdc, tile_index, y_in_tile);
                }
                let row = read_tile_row(memory, tile_addr);
                let color_id = row[x_in_tile];
                proof {
                    lemma_tile_pixel_small(
                        m.read_value(tile_addr),
                        m.read_value((tile_addr + 1) as u16),
                        x_in_tile as int,
                    );
                }
                self.pixels[line + px] = (bgp >> (color_id * 2)) & 0x03;
            }
            px += 1;
        }
        self.window_line = self.window_line.wrapping_add(1);
        assert(self.pixels@ =~= draw_window(old(self)@.pixels, m, ly, wl).0);
    }

    /// Draws the sprites over line `ly`.  OAM is walked from the last entry
    /// to the first, so that the entry with the lowest index, which has
    /// priority, is drawn last.
    fn render_sprites(&mut self, ly: u8, memory: &mut Memory)
        requires
            old(memory).inv(),
            ly < 144,
        ensures
            final(self)@.pixels == draw_all_sprites(
                old(self)@.pixels,
                old(self)@.bg_color_id,
                old(memory)@,
                ly,
            ),
            final(self)@.ticks == old(self)@.ticks,
            final(self)@.window_line == old(self)@.window_line,
            final(self)@.bg_color_id == old(self)@.bg_color_id,
            final(memory)@ == old(memory)@,
            final(memory).inv(),
    {
        let ghost m = memory@;
        let ghost bg = self.bg_color_id@;
        let lcdc = memory.address_bus[0xFF40];
        if lcdc & 0x02 == 0 {
            return;
        }
        // LCDC bit 2: 8x8 or 8x16 sprites.
        let sprite_height: i32 = if lcdc & 0x04 == 0 {
            8
        } else {
            16
        };
        let line = ly as usize * SCREEN_WIDTH;
        let mut n: usize = 0;
        while n < 40
            invariant
                n <= 40,
                memory@ == m,
                memory.inv(),
                ly < 144,
                line == ly * 160,
                lcdc == m.bus[0xFF40],
                lcdc & 0x02 != 0,
                sprite_height == sprite_rows(m),
                self.bg_color_id@ == bg,
                self.pixels@ == draw_sprites(old(self)@.pixels, bg, m, ly, n as nat),
                self.ticks == old(self).ticks,
                self.window_line == old(self).window_line,
            decreases 40 - n,
        {
            let i = 39 - n;
            let oam = 0xFE00u16 + (i as u16) * 4;
            let sprite_y = memory.read_byte(oam) as i32;
            let sprite_x = memory.read_byte(oam + 1) as i32;
            let tile_index = memory.read_byte(oam + 2);
            let attributes = memory.read_byte(oam + 3);
            let top = sprite_y - 16;
            let bottom = top + sprite_height;
            let ghost before = self.pixels@;
            if !((ly as i32) < top || (ly as i32) >= bottom) {
                // The row of the sprite on this line, flipped vertically by
                // attribute bit 6.
                let mut y_in_sprite = ly as i32 - top;
                if attributes & 0x40 != 0 {
                    y_in_sprite = sprite_height - 1 - y_in_sprite;
                }
                let tile_addr = 0x8000u16 + (tile_index as u16) * 16 + (y_in_sprite as u16) * 2;
                let row = read_tile_row(memory, tile_addr);
                let x_flip = attributes & 0x20 != 0;
                let palette = if attributes & 0x10 != 0 {
                    memory.address_bus[0xFF49]
                } else {
                    memory.address_bus[0xFF48]
                };
                let behind_bg = attributes & 0x80 != 0;
                let ghost lo = m.read_value(tile_addr);
                let ghost hi = m.read_value((tile_addr + 1) as u16);
                let ghost f = |px: int|
                    {
                        let k = px - (sprite_x - 8);
                        if 0 <= k < 8 {
                            let c = tile_pixel(lo, hi, if attributes & 0x20 != 0 { 7 - k } else { k });
                            if c == 0 || (attributes & 0x80 != 0 && bg[px] != 0) {
                                None
                            } else {
                                Some(shade(palette, c))
                            }
                        } else {
                            None::<u8>
                        }
                    };
                let mut k: usize = 0;
                while k < 8
                    invariant
                        k <= 8,
                        ly < 144,
                        line == ly * 160,
                        self.bg_color_id@ == bg,
                        forall|j: int| 0 <= j < 8 ==> #[trigger] row@[j] == tile_pixel(lo, hi, j),
                        x_flip == (attributes & 0x20 != 0),
                        behind_bg == (attributes & 0x80 != 0),
                        -16 <= sprite_x - 8 < 256,
                        f == (|px: int|
                            {
                                let k = px - (sprite_x - 8);
                                if 0 <= k < 8 {
                                    let c = tile_pixel(lo, hi, if attributes & 0x20 != 0 { 7 - k } else { k });
                                    if c == 0 || (attributes & 0x80 != 0 && bg[px] != 0) {
                                        None
                                    } else {
                                        Some(shade(palette, c))
                                    }
                                } else {
                                    None::<u8>
                                }
                            }),
                        forall|j: int|
                            0 <= j < 23040 ==> self.pixels@[j] == (if line <= j < line + 160 && 0 <= j
                                - line - (sprite_x - 8) < k {
                                match f(j - line) {
                                    Some(v) => v,
                                    None => before[j],
                                }
                            } else {
                                before[j]
                            }),
                        self.ticks == old(self).ticks,
                        self.window_line == old(self).window_line,
                    decreases 8 - k,
                {
                    let x = sprite_x - 8 + k as i32;
                    if x >= 0 && x < SCREEN_WIDTH as i32 {
                        let px = x as usize;
                        let color_id = if x_flip {
                            row[7 - k]
                        } else {
                            row[k]
                        };
                        proof {
                            lemma_tile_pixel_small(lo, hi, if x_flip { 7 - k } else { k as int });
                        }
                        // Color 0 is transparent; behind the background, only
                        // background color 0 shows the sprite.
                        if color_id != 0 && !(behind_bg && self.bg_color_id[px] != 0) {
                            self.pixels[line + px] = (palette >> (color_id * 2)) & 0x03;
                        }
                    }
                    k += 1;
                }
                assert(self.pixels@ =~= draw_sprite(before, bg, m, ly, i as int));
            }
            n += 1;
        }
    }

    /// The machine cycles spent in the current line.
    pub fn ticks(&self) -> (ticks: u32)
        ensures
            ticks == self@.ticks,
    {
        self.ticks
    }

    /// Runs the PPU for `m_cycles` machine cycles.
    pub fn step(&mut self, m_cycles: u16, memory: &mut Memory)
        requires
            old(memory).inv(),
            old(self)@.ticks + m_cycles <= u32::MAX,
        ensures
            (final(self)@, final(memory)@) == ppu_step(old(self)@, old(memory)@, m_cycles),
            final(memory).inv(),
            is_color_ids(old(self)@.pixels) ==> is_color_ids(final(self)@.pixels),
    {
        proof {
            if is_color_ids(self@.pixels) {
                law_pixels_are_color_ids(self@, memory@, m_cycles);
            }
        }
        self.ticks = self.ticks + m_cycles as u32;
        let lcdc = memory.address_bus[0xFF40];
        if lcdc & 0x80 == 0 {
            // LCD off: LY, the line timer, the framebuffer and the mode reset.
            memory.address_bus[0xFF44] = 0;
            self.pixels = [0u8; 23040];
            assert(self.pixels@ =~= Seq::new(23040, |i: int| 0u8));
            self.ticks = 0;
            self.window_line = 0;
            memory.ppu_mode = 0;
            memory.address_bus[0xFF41] = memory.address_bus[0xFF41] & 0xFC;
            return;
        }
        let ghost m0 = memory@;
        let old_stat = memory.address_bus[0xFF41];
        let old_mode = old_stat & 0x03;
        let old_ly = memory.address_bus[0xFF44];
        let mut ly = old_ly;
        if self.ticks >= 114 {
            // A line is complete: next line, V-Blank at line 144.
            self.ticks = self.ticks - 114;
            ly = ly.wrapping_add(1);
            if ly > 153 {
                ly = 0;
                self.window_line = 0;
            }
            if ly == 144 {
                memory.address_bus[0xFF0F] = memory.address_bus[0xFF0F] | 0x01;
            }
            memory.address_bus[0xFF44] = ly;
        }
        let current_mode: u8 = if ly >= 144 {
            1
        } else if self.ticks < 20 {
            2
        } else if self.ticks < 63 {
            3
        } else {
            0
        };
        let lyc = memory.address_bus[0xFF45];
        let coincidence = ly == lyc;
        let stat = (((old_stat & 0xFC) | current_mode) & !0x04u8) | (if coincidence {
            0x04u8
        } else {
            0u8
        });
        memory.address_bus[0xFF41] = stat;
        // The mode is updated before drawing so that video RAM and OAM are
        // not locked while the line is drawn.
        memory.ppu_mode = current_mode;
        let mode_edge = current_mode != old_mode;
        if mode_edge && current_mode == 0 {
            self.render_background(ly, memory);
            self.render_window(ly, memory);
            self.render_sprites(ly, memory);
        }
        let mode_int = mode_edge && (if current_mode == 0 {
            stat & 0x08 != 0
        } else if current_mode == 1 {
            stat & 0x10 != 0
        } else if current_mode == 2 {
            stat & 0x20 != 0
        } else {
            false
        });
        let lyc_int = stat & 0x40 != 0 && coincidence && old_ly != lyc;
        if mode_int || lyc_int {
            let if_ = memory.read_byte(0xFF0F);
            memory.write_byte(0xFF0F, if_ | 0x02);
        }
    }
}


/// The grey shown for a color id: white, light grey, dark grey, black.
pub open spec fn grey(color_id: u8) -> u8 {
    if color_id == 0 {
        255
    } else if color_id == 1 {
        192
    } else if color_id == 2 {
        96
    } else {
        0
    }
}

/// The framebuffer as RGB24 bytes: pixel `i` becomes bytes `3i`, `3i + 1`
/// and `3i + 2`, all three the grey of its color id.
pub fn to_rgb(pixels: &[u8]) -> (rgb: Vec<u8>)
    requires
        pixels@.len() * 3 <= usize::MAX,
        forall|i: int| 0 <= i < pixels@.len() ==> #[trigger] pixels@[i] <= 3,
    ensures
        rgb@.len() == 3 * pixels@.len(),
        forall|i: int|
            0 <= i < pixels@.len() ==> rgb@[3 * i] == grey(#[trigger] pixels@[i]) && rgb@[3 * i + 1]
                == grey(pixels@[i]) && rgb@[3 * i + 2] == grey(pixels@[i]),
{
    let mut rgb: Vec<u8> = Vec::new();
    let mut k: usize = 0;
    while k < pixels.len()
        invariant
            k <= pixels@.len(),
            pixels@.len() * 3 <= usize::MAX,
            rgb@.len() == 3 * k,
            forall|i: int|
                0 <= i < k ==> rgb@[3 * i] == grey(#[trigger] pixels@[i]) && rgb@[3 * i + 1] == grey(
                    pixels@[i],
                ) && rgb@[3 * i + 2] == grey(pixels@[i]),
        decreases pixels@.len() - k,
    {
        let color_id = pixels[k];
        let value: u8 = if color_id == 0 {
            255
        } else if color_id == 1 {
            192
        } else if color_id == 2 {
            96
        } else {
            0
        };
        rgb.push(value);
        rgb.push(value);
        rgb.push(value);
        k += 1;
    }
    rgb
}

} // verus!