use vstd::prelude::*;
use image::ImageFormat;

verus! {

/// Width of the simulation screen in pixels.
pub const SCR_W: usize = 640;

/// Height of the simulation screen in pixels.
pub const SCR_H: usize = 480;

/// Number of entries in each wave lookup table.
pub const LUT_N: usize = 512;

/// Weight of the slow pool wave in the light gain (before the `>> 9`).
pub const POOL_AMP: i32 = 30;

/// Darkest gain the caustics may apply, in 1/256 units.
pub const GAIN_FLOOR: i32 = 32;

/// Brightest gain the caustics may apply, in 1/256 units (unity).
pub const GAIN_CEIL: i32 = 256;

/// Largest ripple amplitude scale accepted (256 is the calm-water scale).
pub const AMP_SCALE_MAX: i32 = 65536;

/// Bound on the magnitude of the global gain, in 1/256 units.
pub const GAIN_Q_LIMIT: i32 = 0x4000_0000;

/// `v` brought into `lo..=hi`.
pub open spec fn clamp(v: int, lo: int, hi: int) -> int {
    if v < lo {
        lo
    } else if v > hi {
        hi
    } else {
        v
    }
}

/// `v` is an `i32` value.
pub open spec fn fits_i32(v: int) -> bool {
    i32::MIN <= v <= i32::MAX
}

/// Index into a 512-entry wave table selected by a 16.16 fixed-point phase:
/// the integer part of the phase, wrapped onto the table.
pub open spec fn lut_index(phase: int) -> int {
    (phase / 65536) % 512
}

/// How far a table entry dips below full brightness.
pub open spec fn ripple(lut: Seq<u8>, i: int) -> int {
    255 - lut[i] as int
}

/// The caustic light gain, in 1/256 units, from the global gain `g_top`, the
/// summed ripple of the three moving waves, the row's amplitude and the ripple
/// of the slow pool wave.
pub open spec fn light_gain(g_top: int, wave_sum: int, amp: int, pool_ripple: int) -> int {
    clamp(
        g_top - (wave_sum * amp) / 512 - (pool_ripple * POOL_AMP as int) / 512,
        GAIN_FLOOR as int,
        GAIN_CEIL as int,
    )
}

/// A backdrop channel value after the gain `g` (1/256 units) is applied.
pub open spec fn shade(s: int, g: int) -> int {
    let v = (s * g) / 256;
    if v < 255 {
        v
    } else {
        255
    }
}

/// A row whose phase starts at `ph` and advances by `step` per pixel stays
/// within `i32` over the whole screen width.
pub open spec fn row_sweep_fits(ph: i32, step: i32) -> bool {
    fits_i32(ph as int + SCR_W as int * step as int)
}

/// The pool wave's per-pixel phase `base + step * x` stays within `i32` for
/// every even pixel of a row.
pub open spec fn pool_sweep_fits(base: i32, step: i32) -> bool {
    &&& fits_i32((SCR_W as int - 2) * step as int)
    &&& fits_i32(base as int + (SCR_W as int - 2) * step as int)
}

/// The integer state of the caustic light field: the wave tables, the per-row
/// amplitudes, the per-row 16.16 phases and per-pixel phase steps of the three
/// moving waves, the ripple amplitude scale, and the global gain in 1/256 units.
pub struct LightState {
    pub caustic_lut: [u8; LUT_N],
    pub pool_lut: [u8; LUT_N],
    pub row_amp: [u8; SCR_H],
    pub row_ph_a: [i32; SCR_H],
    pub row_ph_b: [i32; SCR_H],
    pub row_ph_d: [i32; SCR_H],
    pub row_step_a: [i32; SCR_H],
    pub row_step_b: [i32; SCR_H],
    pub row_step_d: [i32; SCR_H],
    pub amp_scale: i32,
    pub gain_q: i32,
}

/// A level clamped to a byte.
fn clamp_byte(v: i32) -> (b: u8)
    ensures
        b as int == clamp(v as int, 0, 255),
{
    if v < 0 {
        0
    } else if v > 255 {
        255
    } else {
        v as u8
    }
}

/// Clamps a point onto the screen.
pub fn clamp_to_screen(x: i32, y: i32) -> (p: (usize, usize))
    ensures
        p.0 as int == clamp(x as int, 0, SCR_W as int - 1),
        p.1 as int == clamp(y as int, 0, SCR_H as int - 1),
{
    let cx: usize = if x < 0 {
        0
    } else if x > 639 {
        639
    } else {
        x as usize
    };
    let cy: usize = if y < 0 {
        0
    } else if y > 479 {
        479
    } else {
        y as usize
    };
    (cx, cy)
}

proof fn lemma_lut_index_i64(v: i64)
    requires
        -0x200_0000_0000 <= v <= 0x200_0000_0000,
    ensures
        ((((v >> 16u64) as usize) & 511usize) as int) == lut_index(v as int),
{
    let w: i64 = (v + 0x400_0000_0000i64) as i64;
    assert((((v >> 16u64) as usize) & 511usize) == (((w >> 16u64) as usize) & 511usize))
        by (bit_vector)
        requires
            w == v + 0x400_0000_0000i64,
            -0x200_0000_0000i64 <= v <= 0x200_0000_0000i64,
    ;
    let u: u64 = w as u64;
    assert(u as int == w as int);
    assert((((w >> 16u64) as usize) & 511usize) == (((u >> 16u64) & 511u64) as usize))
        by (bit_vector)
        requires
            u == w as u64,
    ;
    assert(((u >> 16u64) & 511u64) == (u / 65536u64) % 512u64) by (bit_vector);
    assert((w as int) / 65536 == (v as int) / 65536 + 0x400_0000);
}

proof fn lemma_lut_index_i32(v: i32)
    ensures
        ((((v >> 16u32) as usize) & 511usize) as int) == lut_index(v as int),
{
    let w: i64 = v as i64;
    assert((((v >> 16u32) as usize) & 511usize) == (((w >> 16u64) as usize) & 511usize))
        by (bit_vector)
        requires
            w == v as i64,
    ;
    lemma_lut_index_i64(w);
}

proof fn lemma_shr_nonneg_i32(p: i32, k: u32)
    requires
        p >= 0,
        k == 8 || k == 9,
    ensures
        k == 8 ==> (p >> k) as int == p as int / 256,
        k == 9 ==> (p >> k) as int == p as int / 512,
{
    if k == 8 {
        assert((p >> 8u32) == p / 256) by (bit_vector)
            requires
                p >= 0,
        ;
    } else {
        assert((p >> 9u32) == p / 512) by (bit_vector)
            requires
                p >= 0,
        ;
    }
}

/// Looks a 16.16 fixed-point phase up in a 512-entry wave table.
fn wave_index(phase: i32) -> (i: usize)
    ensures
        i as int == lut_index(phase as int),
        i < LUT_N,
{
    proof {
        lemma_lut_index_i32(phase);
    }
    ((phase >> 16) as usize) & (LUT_N - 1)
}

/// The 16.16 phase of a wave at pixel `x`, in `i64`.
fn sweep_phase(ph: i32, step: i32, x: i64) -> (p: i64)
    requires
        0 <= x < SCR_W,
    ensures
        p as int == ph as int + step as int * x as int,
        -0x200_0000_0000 <= p <= 0x200_0000_0000,
{
    assert(-0x180_0000_0000 <= step as int * x as int <= 0x180_0000_0000) by (nonlinear_arith)
        requires
            0 <= x < 640,
            i32::MIN <= step <= i32::MAX,
    ;
    ph as i64 + step as i64 * x
}

/// Combines the wave ripples into the clamped gain; the arithmetic is that of
/// the light field, in `i32`.
fn combine_gain(g_top: i32, wave_sum: i32, amp: i32, pool_ripple: i32) -> (g: i32)
    requires
        -GAIN_Q_LIMIT <= g_top <= GAIN_Q_LIMIT,
        0 <= wave_sum <= 765,
        0 <= amp <= 65280,
        0 <= pool_ripple <= 255,
    ensures
        g as int == light_gain(g_top as int, wave_sum as int, amp as int, pool_ripple as int),
        GAIN_FLOOR <= g <= GAIN_CEIL,
{
    assert(wave_sum * amp <= 765 * 65280) by (nonlinear_arith)
        requires
            0 <= wave_sum <= 765,
            0 <= amp <= 65280,
    ;
    assert(wave_sum * amp >= 0) by (nonlinear_arith)
        requires
            0 <= wave_sum,
            0 <= amp,
    ;
    let prod: i32 = wave_sum * amp;
    let pool: i32 = pool_ripple * POOL_AMP;
    proof {
        lemma_shr_nonneg_i32(prod, 9);
        lemma_shr_nonneg_i32(pool, 9);
    }
    let g = g_top - (prod >> 9) - (pool >> 9);
    if g < GAIN_FLOOR {
        GAIN_FLOOR
    } else if g > GAIN_CEIL {
        GAIN_CEIL
    } else {
        g
    }
}

impl LightState {
    /// Ranges that keep the gain arithmetic within `i32`.
    pub open spec fn gain_ok(&self) -> bool {
        &&& 0 <= self.amp_scale <= AMP_SCALE_MAX
        &&& -GAIN_Q_LIMIT <= self.gain_q <= GAIN_Q_LIMIT
    }

    /// The gain ranges hold and every row's wave phases stay within `i32`
    /// across the screen.
    pub open spec fn wf(&self) -> bool {
        &&& self.gain_ok()
        &&& forall|y: int|
            0 <= y < SCR_H ==> {
                &&& row_sweep_fits(#[trigger] self.row_ph_a@[y], self.row_step_a@[y])
                &&& row_sweep_fits(self.row_ph_b@[y], self.row_step_b@[y])
                &&& row_sweep_fits(self.row_ph_d@[y], self.row_step_d@[y])
            }
    }

    /// The ripple amplitude of row `y`.
    pub open spec fn row_amplitude(&self, y: int) -> int {
        (self.row_amp@[y] as int * self.amp_scale as int) / 256
    }

    /// The summed ripple of the three moving waves at pixel `x` of row `y`.
    pub open spec fn wave_sum(&self, y: int, x: int) -> int {
        ripple(
            self.caustic_lut@,
            lut_index(self.row_ph_a@[y] as int + self.row_step_a@[y] as int * x),
        ) + ripple(
            self.caustic_lut@,
            lut_index(self.row_ph_b@[y] as int + self.row_step_b@[y] as int * x),
        ) + ripple(
            self.caustic_lut@,
            lut_index(self.row_ph_d@[y] as int + self.row_step_d@[y] as int * x),
        )
    }

    /// The light gain at a screen point, the point clamped onto the screen and
    /// the pool wave read at `pool_phase` (wrapped onto its table).
    pub open spec fn gain_at(&self, x: int, y: int, pool_phase: int) -> int {
        let xc = clamp(x, 0, SCR_W as int - 1);
        let yc = clamp(y, 0, SCR_H as int - 1);
        light_gain(
            self.gain_q as int,
            self.wave_sum(yc, xc),
            self.row_amplitude(yc),
            ripple(self.pool_lut@, pool_phase % 512),
        )
    }

    /// The gain the renderer applies to the pixel pair starting at even pixel
    /// `x` of row `y`, the pool wave's phase being `pool_base + pool_step * x`.
    pub open spec fn row_gain(&self, y: int, x: int, pool_base: int, pool_step: int) -> int {
        light_gain(
            self.gain_q as int,
            self.wave_sum(y, x),
            self.row_amplitude(y),
            ripple(self.pool_lut@, lut_index(pool_base + pool_step * x)),
        )
    }

    /// A light field whose wave tables hold the given wave levels clamped to
    /// bytes, with the given row amplitudes, flat phases, the calm-water
    /// amplitude scale and unity gain.
    pub fn new(caustic_levels: &[i32; LUT_N], pool_levels: &[i32; LUT_N], row_amp: [u8; SCR_H]) -> (s: Self)
        ensures
            forall|i: int|
                0 <= i < LUT_N ==> {
                    &&& #[trigger] s.caustic_lut@[i] as int == clamp(caustic_levels@[i] as int, 0, 255)
                    &&& s.pool_lut@[i] as int == clamp(pool_levels@[i] as int, 0, 255)
                },
            s.row_amp == row_amp,
            forall|y: int|
                0 <= y < SCR_H ==> {
                    &&& #[trigger] s.row_ph_a@[y] == 0
                    &&& s.row_ph_b@[y] == 0
                    &&& s.row_ph_d@[y] == 0
                    &&& s.row_step_a@[y] == 0
                    &&& s.row_step_b@[y] == 0
                    &&& s.row_step_d@[y] == 0
                },
            s.amp_scale == 256,
            s.gain_q == 256,
            s.wf(),
    {
        let mut caustic_lut = [0u8; LUT_N];
        let mut pool_lut = [0u8; LUT_N];
        let mut i: usize = 0;
        while i < LUT_N
            invariant
                i <= LUT_N,
                forall|k: int|
                    0 <= k < i ==> #[trigger] caustic_lut@[k] as int == clamp(
                        caustic_levels@[k] as int,
                        0,
                        255,
                    ),
                forall|k: int|
                    0 <= k < i ==> #[trigger] pool_lut@[k] as int == clamp(pool_levels@[k] as int, 0, 255),
            decreases LUT_N - i,
        {
            caustic_lut[i] = clamp_byte(caustic_levels[i]);
            pool_lut[i] = clamp_byte(pool_levels[i]);
            i += 1;
        }
        let s = LightState {
            caustic_lut,
            pool_lut,
            row_amp,
            row_ph_a: [0i32; SCR_H],
            row_ph_b: [0i32; SCR_H],
            row_ph_d: [0i32; SCR_H],
            row_step_a: [0i32; SCR_H],
            row_step_b: [0i32; SCR_H],
            row_step_d: [0i32; SCR_H],
            amp_scale: 256,
            gain_q: 256,
        };
        assert forall|y: int| 0 <= y < SCR_H implies {
            &&& row_sweep_fits(#[trigger] s.row_ph_a@[y], s.row_step_a@[y])
            &&& row_sweep_fits(s.row_ph_b@[y], s.row_step_b@[y])
            &&& row_sweep_fits(s.row_ph_d@[y], s.row_step_d@[y])
        } by {}
        s
    }

    /// The amplitude of row `y`, computed as the renderer does.
    fn amplitude(&self, y: usize) -> (amp: i32)
        requires
            y < SCR_H,
            self.gain_ok(),
        ensures
            amp as int == self.row_amplitude(y as int),
            0 <= amp <= 65280,
    {
        let ra = self.row_amp[y] as i32;
        assert(ra * self.amp_scale <= 255 * 65536) by (nonlinear_arith)
            requires
                0 <= ra <= 255,
                0 <= self.amp_scale <= 65536,
        ;
        assert(ra * self.amp_scale >= 0) by (nonlinear_arith)
            requires
                0 <= ra,
                0 <= self.amp_scale,
        ;
        let p: i32 = ra * self.amp_scale;
        proof {
            lemma_shr_nonneg_i32(p, 8);
        }
        p >> 8
    }

    /// The caustic light gain at a screen point, in 1/256 units; `pool_phase`
    /// selects the slow pool wave's entry (it is wrapped onto the table).
    pub fn light_gain_at(&self, x: i32, y: i32, pool_phase: usize) -> (g: i32)
        requires
            self.gain_ok(),
        ensures
            g as int == self.gain_at(x as int, y as int, pool_phase as int),
            GAIN_FLOOR <= g <= GAIN_CEIL,
    {
        let (cx, cy) = clamp_to_screen(x, y);
        let xi = cx as i64;
        let pa = sweep_phase(self.row_ph_a[cy], self.row_step_a[cy], xi);
        let pb = sweep_phase(self.row_ph_b[cy], self.row_step_b[cy], xi);
        let pd = sweep_phase(self.row_ph_d[cy], self.row_step_d[cy], xi);
        proof {
            lemma_lut_index_i64(pa);
            lemma_lut_index_i64(pb);
            lemma_lut_index_i64(pd);
        }
        let ia = ((pa >> 16) as usize) & (LUT_N - 1);
        let ib = ((pb >> 16) as usize) & (LUT_N - 1);
        let id = ((pd >> 16) as usize) & (LUT_N - 1);
        let ic = pool_phase & (LUT_N - 1);
        assert(ic == pool_phase % 512) by (bit_vector)
            requires
                ic == pool_phase & 511usize,
        ;
        let wa = 255 - self.caustic_lut[ia] as i32;
        let wb = 255 - self.caustic_lut[ib] as i32;
        let wd = 255 - self.caustic_lut[id] as i32;
        let wc = 255 - self.pool_lut[ic] as i32;
        let amp = self.amplitude(cy);
        combine_gain(self.gain_q, wa + wb + wd, amp, wc)
    }
}

/// Channel `c` of pixel `px` in a row of RGBA bytes.
pub open spec fn rgba_at(row: Seq<u8>, px: int, c: int) -> u8 {
    row[4 * px + c]
}

/// Channel `c` of pixel `px` in a row of RGB bytes.
pub open spec fn rgb_at(row: Seq<u8>, px: int, c: int) -> u8 {
    row[3 * px + c]
}

proof fn lemma_sweep_within(ph: int, step: int, x: int, span: int)
    requires
        0 <= x <= span,
        fits_i32(ph),
        fits_i32(ph + span * step),
    ensures
        fits_i32(ph + step * x),
{
    if step >= 0 {
        assert(0 <= step * x <= step * span) by (nonlinear_arith)
            requires
                0 <= x <= span,
                step >= 0,
        ;
    } else {
        assert(step * span <= step * x <= 0) by (nonlinear_arith)
            requires
                0 <= x <= span,
                step < 0,
        ;
    }
}

proof fn lemma_step_product_within(step: int, x: int, span: int)
    requires
        0 <= x <= span,
        fits_i32(span * step),
    ensures
        fits_i32(step * x),
{
    lemma_sweep_within(0, step, x, span);
}

/// Writes pixel `px` of an RGBA row: the RGB backdrop pixel scaled by the gain
/// `g` (1/256 units), fully opaque.
fn put_shaded(row: &mut [u8], src_row: &[u8], px: usize, g: i32)
    requires
        old(row)@.len() == SCR_W * 4,
        src_row@.len() == SCR_W * 3,
        px < SCR_W,
        GAIN_FLOOR <= g <= GAIN_CEIL,
    ensures
        final(row)@.len() == SCR_W * 4,
        forall|c: int|
            0 <= c < 3 ==> rgba_at(final(row)@, px as int, c) as int == shade(
                rgb_at(src_row@, px as int, c) as int,
                g as int,
            ),
        rgba_at(final(row)@, px as int, 3) == 255,
        forall|i: int|
            0 <= i < SCR_W * 4 && (i < 4 * px || i >= 4 * px + 4) ==> final(row)@[i] == old(row)@[i],
{
    let s_idx = px * 3;
    let d_idx = px * 4;
    let mut c: usize = 0;
    while c < 3
        invariant
            c <= 3,
            s_idx == px * 3,
            d_idx == px * 4,
            px < SCR_W,
            src_row@.len() == SCR_W * 3,
            row@.len() == SCR_W * 4,
            GAIN_FLOOR <= g <= GAIN_CEIL,
            forall|k: int|
                0 <= k < c ==> rgba_at(row@, px as int, k) as int == shade(
                    rgb_at(src_row@, px as int, k) as int,
                    g as int,
                ),
            forall|i: int|
                0 <= i < SCR_W * 4 && (i < 4 * px || i >= 4 * px + c) ==> row@[i] == old(row)@[i],
        decreases 3 - c,
    {
        let s = src_row[s_idx + c] as i32;
        assert(0 <= s * g <= 255 * 256) by (nonlinear_arith)
            requires
                0 <= s <= 255,
                32 <= g <= 256,
        ;
        let p: i32 = s * g;
        proof {
            lemma_shr_nonneg_i32(p, 8);
        }
        let v = p >> 8;
        let v = if v < 255 {
            v
        } else {
            255
        };
        let ghost prev = row@;
        row[d_idx + c] = v as u8;
        assert(row@ == prev.update(d_idx + c, v as u8));
        assert(v as int == shade(rgb_at(src_row@, px as int, c as int) as int, g as int));
        assert(rgba_at(row@, px as int, c as int) == v as u8);
        assert forall|k: int| 0 <= k < c + 1 implies rgba_at(row@, px as int, k) as int == shade(
            rgb_at(src_row@, px as int, k) as int,
            g as int,
        ) by {
            if k < c {
                assert(rgba_at(prev, px as int, k) == rgba_at(row@, px as int, k));
            }
        }
        c += 1;
    }
    let ghost prev = row@;
    row[d_idx + 3] = 255;
    assert forall|k: int| 0 <= k < 3 implies rgba_at(row@, px as int, k) as int == shade(
        rgb_at(src_row@, px as int, k) as int,
        g as int,
    ) by {
        assert(rgba_at(prev, px as int, k) == rgba_at(row@, px as int, k));
    }
}

/// Lights one row of the frame: every pixel of `row` (RGBA) becomes the
/// matching pixel of the backdrop row `src_row` (RGB) scaled by the caustic
/// gain, fully opaque. The gain is computed once per pixel pair; the pool wave
/// is read at the 16.16 phase `pool_base + pool_step * x`.
pub fn shade_row(
    row: &mut [u8],
    src_row: &[u8],
    light: &LightState,
    y: usize,
    pool_base: i32,
    pool_step: i32,
)
    requires
        old(row)@.len() == SCR_W * 4,
        src_row@.len() == SCR_W * 3,
        y < SCR_H,
        light.wf(),
        pool_sweep_fits(pool_base, pool_step),
    ensures
        final(row)@.len() == SCR_W * 4,
        forall|px: int|
            0 <= px < SCR_W ==> #[trigger] rgba_at(final(row)@, px, 3) == 255,
        forall|px: int, c: int|
            0 <= px < SCR_W && 0 <= c < 3 ==> #[trigger] rgba_at(final(row)@, px, c) as int == shade(
                rgb_at(src_row@, px, c) as int,
                light.row_gain(y as int, px - px % 2, pool_base as int, pool_step as int),
            ),
{
    let amp = light.amplitude(y);
    let d_a = light.row_step_a[y];
    let d_b = light.row_step_b[y];
    let d_d = light.row_step_d[y];
    let mut ua = light.row_ph_a[y];
    let mut ub = light.row_ph_b[y];
    let mut ud = light.row_ph_d[y];
    assert(row_sweep_fits(light.row_ph_a@[y as int], light.row_step_a@[y as int]));
    let mut x: usize = 0;
    while x < SCR_W
        invariant
            x <= SCR_W,
            x % 2 == 0,
            y < SCR_H,
            light.wf(),
            pool_sweep_fits(pool_base, pool_step),
            row@.len() == SCR_W * 4,
            src_row@.len() == SCR_W * 3,
            amp as int == light.row_amplitude(y as int),
            0 <= amp <= 65280,
            d_a == light.row_step_a@[y as int],
            d_b == light.row_step_b@[y as int],
            d_d == light.row_step_d@[y as int],
            row_sweep_fits(light.row_ph_a@[y as int], d_a),
            row_sweep_fits(light.row_ph_b@[y as int], d_b),
            row_sweep_fits(light.row_ph_d@[y as int], d_d),
            ua as int == light.row_ph_a@[y as int] as int + d_a as int * x as int,
            ub as int == light.row_ph_b@[y as int] as int + d_b as int * x as int,
            ud as int == light.row_ph_d@[y as int] as int + d_d as int * x as int,
            forall|px: int| 0 <= px < x ==> #[trigger] rgba_at(row@, px, 3) == 255,
            forall|px: int, c: int|
                0 <= px < x && 0 <= c < 3 ==> #[trigger] rgba_at(row@, px, c) as int == shade(
                    rgb_at(src_row@, px, c) as int,
                    light.row_gain(y as int, px - px % 2, pool_base as int, pool_step as int),
                ),
        decreases SCR_W - x,
    {
        proof {
            lemma_step_product_within(pool_step as int, x as int, SCR_W as int - 2);
            lemma_sweep_within(pool_base as int, pool_step as int, x as int, SCR_W as int - 2);
        }
        let pool_ph = pool_base + pool_step * (x as i32);
        let wc = 255 - light.pool_lut[wave_index(pool_ph)] as i32;
        let wa = 255 - light.caustic_lut[wave_index(ua)] as i32;
        let wb = 255 - light.caustic_lut[wave_index(ub)] as i32;
        let wd = 255 - light.caustic_lut[wave_index(ud)] as i32;
        proof {
            lemma_sweep_within(light.row_ph_a@[y as int] as int, d_a as int, x as int + 2, SCR_W as int);
            lemma_sweep_within(light.row_ph_b@[y as int] as int, d_b as int, x as int + 2, SCR_W as int);
            lemma_sweep_within(light.row_ph_d@[y as int] as int, d_d as int, x as int + 2, SCR_W as int);
            assert(fits_i32(d_a as int * 2));
            assert(fits_i32(d_b as int * 2));
            assert(fits_i32(d_d as int * 2));
            assert(d_a as int * (x as int + 2) == d_a as int * x as int + d_a as int * 2) by (nonlinear_arith);
            assert(d_b as int * (x as int + 2) == d_b as int * x as int + d_b as int * 2) by (nonlinear_arith);
            assert(d_d as int * (x as int + 2) == d_d as int * x as int + d_d as int * 2) by (nonlinear_arith);
        }
        ua += d_a * 2;
        ub += d_b * 2;
        ud += d_d * 2;
        let g = combine_gain(light.gain_q, wa + wb + wd, amp, wc);
        assert(g as int == light.row_gain(y as int, x as int, pool_base as int, pool_step as int));
        let ghost before = row@;
        put_shaded(row, src_row, x, g);
        let ghost mid = row@;
        put_shaded(row, src_row, x + 1, g);
        proof {
            assert forall|px: int| 0 <= px < x + 2 implies #[trigger] rgba_at(row@, px, 3) == 255 by {
                if px < x {
                    assert(rgba_at(before, px, 3) == 255);
                    assert(rgba_at(mid, px, 3) == rgba_at(before, px, 3));
                    assert(rgba_at(row@, px, 3) == rgba_at(mid, px, 3));
                } else if px == x {
                    assert(rgba_at(row@, px, 3) == rgba_at(mid, px, 3));
                }
            }
            assert forall|px: int, c: int|
                0 <= px < x + 2 && 0 <= c < 3 implies #[trigger] rgba_at(row@, px, c) as int == shade(
                    rgb_at(src_row@, px, c) as int,
                    light.row_gain(y as int, px - px % 2, pool_base as int, pool_step as int),
                ) by {
                if px < x {
                    assert(rgba_at(before, px, c) as int == shade(
                        rgb_at(src_row@, px, c) as int,
                        light.row_gain(y as int, px - px % 2, pool_base as int, pool_step as int),
                    ));
                    assert(rgba_at(mid, px, c) == rgba_at(before, px, c));
                    assert(rgba_at(row@, px, c) == rgba_at(mid, px, c));
                } else if px == x {
                    assert(px - px % 2 == x);
                    assert(rgba_at(row@, px, c) == rgba_at(mid, px, c));
                } else {
                    assert(px - px % 2 == x);
                }
            }
        }
        x += 2;
    }
}

/// The tone-mapped value of a backdrop byte `v`, given the exposure curve
/// sampled at every byte value (`exposed[v]` is the curve at `v / 255`,
/// scaled to 0..255 and rounded).
pub open spec fn tone(exposed: Seq<i32>, v: int) -> int {
    clamp(exposed[v] as int, 0, 255)
}

/// Tone-maps a backdrop in place: every byte `v` becomes the exposure curve's
/// value at `v`, clamped to a byte.
pub fn prep_backdrop(rgb_data: &mut [u8], exposed: &[i32; 256])
    ensures
        final(rgb_data)@.len() == old(rgb_data)@.len(),
        forall|i: int|
            0 <= i < old(rgb_data)@.len() ==> #[trigger] final(rgb_data)@[i] as int == tone(
                exposed@,
                old(rgb_data)@[i] as int,
            ),
        never_falls(exposed@) ==> forall|i: int, j: int|
            0 <= i < old(rgb_data)@.len() && 0 <= j < old(rgb_data)@.len() && old(rgb_data)@[i]
                <= old(rgb_data)@[j] ==> #[trigger] final(rgb_data)@[i] <= #[trigger] final(rgb_data)@[j],
{
    let mut lut = [0u8; 256];
    let mut i: usize = 0;
    while i < 256
        invariant
            i <= 256,
            forall|k: int| 0 <= k < i ==> #[trigger] lut@[k] as int == tone(exposed@, k),
        decreases 256 - i,
    {
        lut[i] = clamp_byte(exposed[i]);
        i += 1;
    }
    let n = rgb_data.len();
    let mut j: usize = 0;
    while j < n
        invariant
            j <= n,
            n == old(rgb_data)@.len(),
            rgb_data@.len() == n,
            forall|k: int| 0 <= k < 256 ==> #[trigger] lut@[k] as int == tone(exposed@, k),
            forall|k: int| 0 <= k < j ==> #[trigger] rgb_data@[k] as int == tone(exposed@, old(rgb_data)@[k] as int),
            forall|k: int| j <= k < n ==> #[trigger] rgb_data@[k] == old(rgb_data)@[k],
        decreases n - j,
    {
        let b = rgb_data[j] as usize;
        rgb_data[j] = lut[b];
        j += 1;
    }
    proof {
        if never_falls(exposed@) {
            assert forall|i: int, k: int|
                0 <= i < old(rgb_data)@.len() && 0 <= k < old(rgb_data)@.len() && old(rgb_data)@[i]
                    <= old(rgb_data)@[k] implies #[trigger] rgb_data@[i] <= #[trigger] rgb_data@[k] by {
                lemma_backdrop_keeps_order(exposed@, old(rgb_data)@, rgb_data@, i, k);
            }
        }
    }
}

/// Decodes JPEG bytes into RGB8 pixel bytes, row by row.
///
/// Calls `image::load_from_memory_with_format` with `ImageFormat::Jpeg`, then
/// `to_rgb8().into_raw()`; a decoding error gives `None`. Nothing is claimed
/// of the result: the decoder picks a processor-dependent path at run time
/// whose pixels differ from machine to machine, so the pixels are not a
/// function of the bytes alone.
#[verifier::external_body]
fn decode_jpeg_rgb8(jpeg: &[u8]) -> (r: Option<Vec<u8>>) {
    match image::load_from_memory_with_format(jpeg, ImageFormat::Jpeg) {
        Ok(img) => Some(img.to_rgb8().into_raw()),
        Err(_) => None,
    }
}

/// The exposure curve never falls.
pub open spec fn never_falls(exposed: Seq<i32>) -> bool {
    forall|i: int, j: int| 0 <= i <= j < exposed.len() ==> exposed[i] <= exposed[j]
}

/// `after` is `before` tone-mapped byte by byte.
pub open spec fn toned(exposed: Seq<i32>, before: Seq<u8>, after: Seq<u8>) -> bool {
    &&& after.len() == before.len()
    &&& forall|i: int| 0 <= i < before.len() ==> #[trigger] after[i] as int == tone(exposed, before[i] as int)
}

/// Tone-maps decoded backdrop pixels: `None` unless they are exactly one
/// screen of RGB8 pixels, otherwise every byte tone-mapped.
pub fn tone_backdrop(raw: Vec<u8>, exposed: &[i32; 256]) -> (r: Option<Vec<u8>>)
    ensures
        r is Some <==> raw@.len() == SCR_W * SCR_H * 3,
        r matches Some(v) ==> toned(exposed@, raw@, v@),
{
    let mut raw = raw;
    if raw.len() != SCR_W * SCR_H * 3 {
        None
    } else {
        prep_backdrop(raw.as_mut_slice(), exposed);
        Some(raw)
    }
}

/// Loads a tank backdrop: decodes the JPEG bytes and tone-maps every byte of
/// the decoded pixels; `None` when the bytes do not decode, or do not decode
/// to exactly one screen of pixels. Whether they decode, and to which pixels,
/// is the decoder's to say.
pub fn load_backdrop(jpeg: &[u8], exposed: &[i32; 256]) -> (r: Option<Vec<u8>>)
    ensures
        r matches Some(v) ==> v@.len() == SCR_W * SCR_H * 3 && exists|raw: Seq<u8>|
            #[trigger] toned(exposed@, raw, v@),
{
    match decode_jpeg_rgb8(jpeg) {
        None => None,
        Some(raw) => {
            let ghost decoded = raw@;
            let r = tone_backdrop(raw, exposed);
            proof {
                if r is Some {
                    assert(toned(exposed@, decoded, r->0@));
                }
            }
            r
        },
    }
}

/// A tone curve that never falls keeps the brightness order of the bytes:
/// equal bytes stay equal and a darker byte never ends up brighter.
pub proof fn lemma_tone_keeps_order(exposed: Seq<i32>, a: int, b: int)
    requires
        never_falls(exposed),
        0 <= a <= b < exposed.len(),
    ensures
        tone(exposed, a) <= tone(exposed, b),
{
    assert(exposed[a] <= exposed[b]);
}

/// A byte-wise tone mapping by a curve that never falls keeps the brightness
/// order of the whole backdrop.
pub proof fn lemma_backdrop_keeps_order(exposed: Seq<i32>, before: Seq<u8>, after: Seq<u8>, i: int, j: int)
    requires
        exposed.len() == 256,
        never_falls(exposed),
        toned(exposed, before, after),
        0 <= i < before.len(),
        0 <= j < before.len(),
        before[i] <= before[j],
    ensures
        after[i] <= after[j],
{
    lemma_tone_keeps_order(exposed, before[i] as int, before[j] as int);
    assert(after[i] as int == tone(exposed, before[i] as int));
    assert(after[j] as int == tone(exposed, before[j] as int));
}

/// Whether a wave's phase stays within `i32` across a row.
fn sweep_in_range(ph: i32, step: i32) -> (b: bool)
    ensures
        b == row_sweep_fits(ph, step),
{
    let end = ph as i64 + 640 * step as i64;
    end >= -0x8000_0000i64 && end <= 0x7fff_ffffi64
}

/// Whether the pool wave's phase stays within `i32` over every even pixel of a
/// row.
pub fn pool_sweep_in_range(base: i32, step: i32) -> (b: bool)
    ensures
        b == pool_sweep_fits(base, step),
{
    let span = 638 * step as i64;
    let end = base as i64 + span;
    span >= -0x8000_0000i64 && span <= 0x7fff_ffffi64 && end >= -0x8000_0000i64 && end <= 0x7fff_ffffi64
}

impl LightState {
    /// Whether the gain ranges hold.
    pub fn gain_in_range(&self) -> (b: bool)
        ensures
            b == self.gain_ok(),
    {
        0 <= self.amp_scale && self.amp_scale <= AMP_SCALE_MAX && -GAIN_Q_LIMIT <= self.gain_q
            && self.gain_q <= GAIN_Q_LIMIT
    }

    /// Whether the gain ranges hold and every row's wave phases stay within
    /// `i32` across the screen.
    pub fn in_range(&self) -> (b: bool)
        ensures
            b == self.wf(),
    {
        if !self.gain_in_range() {
            return false;
        }
        let mut y: usize = 0;
        while y < SCR_H
            invariant
                y <= SCR_H,
                self.gain_ok(),
                forall|k: int|
                    0 <= k < y ==> {
                        &&& row_sweep_fits(#[trigger] self.row_ph_a@[k], self.row_step_a@[k])
                        &&& row_sweep_fits(self.row_ph_b@[k], self.row_step_b@[k])
                        &&& row_sweep_fits(self.row_ph_d@[k], self.row_step_d@[k])
                    },
            decreases SCR_H - y,
        {
            if !sweep_in_range(self.row_ph_a[y], self.row_step_a[y]) || !sweep_in_range(
                self.row_ph_b[y],
                self.row_step_b[y],
            ) || !sweep_in_range(self.row_ph_d[y], self.row_step_d[y]) {
                assert(!self.wf()) by {
                    assert(!row_sweep_fits(self.row_ph_a@[y as int], self.row_step_a@[y as int])
                        || !row_sweep_fits(self.row_ph_b@[y as int], self.row_step_b@[y as int])
                        || !row_sweep_fits(self.row_ph_d@[y as int], self.row_step_d@[y as int]));
                }
                return false;
            }
            y += 1;
        }
        true
    }
}

/// The gain is always within the floor and unity, whatever the waves.
pub proof fn lemma_light_gain_bounded(g_top: int, wave_sum: int, amp: int, pool_ripple: int)
    ensures
        GAIN_FLOOR <= light_gain(g_top, wave_sum, amp, pool_ripple) <= GAIN_CEIL,
{
}

/// Lighting only darkens: a channel lit by any gain the light field produces
/// is no brighter than the backdrop and keeps at least an eighth of it.
pub proof fn lemma_shade_darkens(s: int, g: int)
    requires
        0 <= s <= 255,
        GAIN_FLOOR <= g <= GAIN_CEIL,
    ensures
        s / 8 <= shade(s, g) <= s,
{
    assert(s * 32 <= s * g <= s * 256) by (nonlinear_arith)
        requires
            0 <= s,
            32 <= g <= 256,
    ;
}

/// The gain the renderer lights the backdrop with at an even pixel is the gain
/// sampled at that point for the fish, with the pool wave read at the same
/// table entry.
pub proof fn lemma_row_gain_is_gain_at(
    light: LightState,
    y: int,
    x: int,
    pool_base: int,
    pool_step: int,
)
    requires
        0 <= y < SCR_H,
        0 <= x < SCR_W,
    ensures
        light.row_gain(y, x, pool_base, pool_step) == light.gain_at(
            x,
            y,
            lut_index(pool_base + pool_step * x),
        ),
{
}

/// The two light fields agree on everything but the three moving waves of
/// row `y`.
pub open spec fn same_but_waves(l1: LightState, l2: LightState, y: int) -> bool {
    &&& l1.caustic_lut == l2.caustic_lut
    &&& l1.pool_lut == l2.pool_lut
    &&& l1.row_amp@[y] == l2.row_amp@[y]
    &&& l1.amp_scale == l2.amp_scale
    &&& l1.gain_q == l2.gain_q
}

/// Each of the three moving waves advances by its own per-pixel step: moving
/// one pixel to the right gives the gain of a field whose three row phases
/// have each been advanced by their step.
pub proof fn lemma_gain_moves_with_phase(l1: LightState, l2: LightState, x: int, y: int, p: int)
    requires
        0 <= y < SCR_H,
        0 <= x < SCR_W - 1,
        same_but_waves(l1, l2, y),
        l2.row_ph_a@[y] == l1.row_ph_a@[y] + l1.row_step_a@[y],
        l2.row_ph_b@[y] == l1.row_ph_b@[y] + l1.row_step_b@[y],
        l2.row_ph_d@[y] == l1.row_ph_d@[y] + l1.row_step_d@[y],
        l2.row_step_a@[y] == l1.row_step_a@[y],
        l2.row_step_b@[y] == l1.row_step_b@[y],
        l2.row_step_d@[y] == l1.row_step_d@[y],
    ensures
        l2.gain_at(x, y, p) == l1.gain_at(x + 1, y, p),
{
    let sa = l1.row_step_a@[y] as int;
    let sb = l1.row_step_b@[y] as int;
    let sd = l1.row_step_d@[y] as int;
    assert(sa * (x + 1) == sa + sa * x) by (nonlinear_arith);
    assert(sb * (x + 1) == sb + sb * x) by (nonlinear_arith);
    assert(sd * (x + 1) == sd + sd * x) by (nonlinear_arith);
    assert(l2.wave_sum(y, x) == l1.wave_sum(y, x + 1));
}

/// The three moving waves play the same part: exchanging the first wave's row
/// phase and step with those of the second or of the third leaves the gain
/// unchanged.
pub proof fn lemma_waves_interchangeable(l1: LightState, l2: LightState, x: int, y: int, p: int)
    requires
        0 <= y < SCR_H,
        0 <= x < SCR_W,
        same_but_waves(l1, l2, y),
        ({
            ||| (l2.row_ph_a@[y] == l1.row_ph_b@[y] && l2.row_step_a@[y] == l1.row_step_b@[y]
                && l2.row_ph_b@[y] == l1.row_ph_a@[y] && l2.row_step_b@[y] == l1.row_step_a@[y]
                && l2.row_ph_d@[y] == l1.row_ph_d@[y] && l2.row_step_d@[y] == l1.row_step_d@[y])
            ||| (l2.row_ph_a@[y] == l1.row_ph_d@[y] && l2.row_step_a@[y] == l1.row_step_d@[y]
                && l2.row_ph_d@[y] == l1.row_ph_a@[y] && l2.row_step_d@[y] == l1.row_step_a@[y]
                && l2.row_ph_b@[y] == l1.row_ph_b@[y] && l2.row_step_b@[y] == l1.row_step_b@[y])
        }),
    ensures
        l2.gain_at(x, y, p) == l1.gain_at(x, y, p),
{
    assert(l2.wave_sum(y, x) == l1.wave_sum(y, x));
}

/// Full gain leaves a channel as it is.
pub proof fn lemma_unity_gain_keeps_channel(s: int)
    requires
        0 <= s <= 255,
    ensures
        shade(s, GAIN_CEIL as int) == s,
{
}

/// In still water (every wave table entry at full brightness) the gain is the
/// global gain, clamped, wherever it is sampled.
pub proof fn lemma_still_water_gain(l: LightState, x: int, y: int, p: int)
    requires
        forall|i: int| 0 <= i < LUT_N ==> #[trigger] l.caustic_lut@[i] == 255,
        forall|i: int| 0 <= i < LUT_N ==> #[trigger] l.pool_lut@[i] == 255,
    ensures
        l.gain_at(x, y, p) == clamp(l.gain_q as int, GAIN_FLOOR as int, GAIN_CEIL as int),
{
    let xc = clamp(x, 0, SCR_W as int - 1);
    let yc = clamp(y, 0, SCR_H as int - 1);
    let ia = lut_index(l.row_ph_a@[yc] as int + l.row_step_a@[yc] as int * xc);
    let ib = lut_index(l.row_ph_b@[yc] as int + l.row_step_b@[yc] as int * xc);
    let id = lut_index(l.row_ph_d@[yc] as int + l.row_step_d@[yc] as int * xc);
    assert(l.caustic_lut@[ia] == 255);
    assert(l.caustic_lut@[ib] == 255);
    assert(l.caustic_lut@[id] == 255);
    assert(l.pool_lut@[p % 512] == 255);
    assert(l.wave_sum(yc, xc) == 0);
    assert(0 * l.row_amplitude(yc) == 0);
}

/// Darker waves never brighten the light: a field whose wave tables are
/// everywhere at most as bright as another's gives at most its gain.
pub proof fn lemma_darker_waves_darker_light(l1: LightState, l2: LightState, x: int, y: int, p: int)
    requires
        l1.gain_ok(),
        l2.amp_scale == l1.amp_scale,
        l2.gain_q == l1.gain_q,
        l2.row_amp == l1.row_amp,
        l2.row_ph_a == l1.row_ph_a,
        l2.row_ph_b == l1.row_ph_b,
        l2.row_ph_d == l1.row_ph_d,
        l2.row_step_a == l1.row_step_a,
        l2.row_step_b == l1.row_step_b,
        l2.row_step_d == l1.row_step_d,
        forall|i: int| 0 <= i < LUT_N ==> #[trigger] l2.caustic_lut@[i] <= l1.caustic_lut@[i],
        forall|i: int| 0 <= i < LUT_N ==> #[trigger] l2.pool_lut@[i] <= l1.pool_lut@[i],
    ensures
        l2.gain_at(x, y, p) <= l1.gain_at(x, y, p),
{
    let xc = clamp(x, 0, SCR_W as int - 1);
    let yc = clamp(y, 0, SCR_H as int - 1);
    let ia = lut_index(l1.row_ph_a@[yc] as int + l1.row_step_a@[yc] as int * xc);
    let ib = lut_index(l1.row_ph_b@[yc] as int + l1.row_step_b@[yc] as int * xc);
    let id = lut_index(l1.row_ph_d@[yc] as int + l1.row_step_d@[yc] as int * xc);
    assert(l2.caustic_lut@[ia] <= l1.caustic_lut@[ia]);
    assert(l2.caustic_lut@[ib] <= l1.caustic_lut@[ib]);
    assert(l2.caustic_lut@[id] <= l1.caustic_lut@[id]);
    assert(l2.pool_lut@[p % 512] <= l1.pool_lut@[p % 512]);
    let w1 = l1.wave_sum(yc, xc);
    let w2 = l2.wave_sum(yc, xc);
    let amp = l1.row_amplitude(yc);
    assert(amp >= 0) by (nonlinear_arith)
        requires
            amp == (l1.row_amp@[yc] as int * l1.amp_scale as int) / 256,
            l1.amp_scale >= 0,
    ;
    assert(w1 * amp <= w2 * amp) by (nonlinear_arith)
        requires
            w1 <= w2,
            amp >= 0,
    ;
    assert((w1 * amp) / 512 <= (w2 * amp) / 512) by (nonlinear_arith)
        requires
            w1 * amp <= w2 * amp,
    ;
    let r1 = ripple(l1.pool_lut@, p % 512);
    let r2 = ripple(l2.pool_lut@, p % 512);
    assert((r1 * 30) / 512 <= (r2 * 30) / 512) by (nonlinear_arith)
        requires
            r1 <= r2,
    ;
}

} // verus!
