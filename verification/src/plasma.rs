use vstd::prelude::*;
use vstd::arithmetic::div_mod::*;
use vstd::arithmetic::mul::*;

use crate::android_bitmap::AndroidBitmapInfo;

verus! {

// ---------------------------------------------------------------------------
// Fixed-point model
//
// Every plasma value is a real number scaled by 2^16 and stored in an i64.
// The angle table holds sin(i * pi / 128) * 2^16, truncated toward zero, for
// i in 0 ..= 256: one full period at a resolution of 256 angle steps, plus an
// inclusive endpoint that the masked lookups never select.  A phase
// accumulator is read as an angle by dropping its low 8 fractional bits
// (an arithmetic shift, i.e. a floor division by 256) and wrapping the
// result to the 256-entry table (a Euclidean remainder).
// ---------------------------------------------------------------------------

/// 64-bit two's-complement wrap-around addition.
pub open spec fn wadd64(a: i64, b: i64) -> i64 {
    if a + b > i64::MAX {
        (a + b - 0x1_0000_0000_0000_0000) as i64
    } else if a + b < i64::MIN {
        (a + b + 0x1_0000_0000_0000_0000) as i64
    } else {
        (a + b) as i64
    }
}

/// The i64 whose two's-complement bits encode `x` modulo 2^64.
pub open spec fn wrap_to_i64(x: int) -> i64 {
    let m = x % 0x1_0000_0000_0000_0000;
    if m >= 0x8000_0000_0000_0000 {
        (m - 0x1_0000_0000_0000_0000) as i64
    } else {
        m as i64
    }
}

/// The time seed `time * 2^16 / divisor`, truncated toward zero and wrapped
/// to 64 bits: the fixed-point phase that row or column accumulators start
/// from for a given frame time.
pub open spec fn seed_spec(t: i64, divisor: int) -> i64 {
    if t >= 0 {
        wrap_to_i64(t * 0x10000 / divisor)
    } else {
        wrap_to_i64(-((-t) * 0x10000 / divisor))
    }
}

/// A phase accumulator after `k` wrap-around increments of `incr` from `seed`.
pub open spec fn phase_at(seed: i64, incr: i64, k: int) -> i64
    decreases k,
{
    if k <= 0 {
        seed
    } else {
        wadd64(phase_at(seed, incr, k - 1), incr)
    }
}

/// Table index of a fixed-point angle: drop 8 fractional bits, wrap to the
/// 256-entry period.
pub open spec fn sin_index(f: i64) -> int {
    ((f as int) / 256) % 256
}

/// Palette index of a fixed-point field value: clamp the absolute value just
/// under one fixed-point unit, then keep the top 8 of its 16 fractional bits.
/// The result always lies in [0, 256).
pub open spec fn pindex_spec(x: int) -> int {
    let a = if x < 0 {
        -x
    } else {
        x
    };
    let clamped = if a >= 0x10000 {
        0xffff
    } else {
        a
    };
    clamped / 256
}

/// Pack an (r, g, b) triple into 5-6-5 bits.  The masking is deliberately
/// truncating, not rounding.
pub open spec fn make565_spec(red: u32, green: u32, blue: u32) -> u16 {
    ((((red << 8) & 0xf800) | ((green << 3) & 0x07e0) | ((blue >> 3) & 0x001f))) as u16
}

/// The color at position `n` of a palette of `size` entries: four contiguous
/// quadrants of `size / 4` entries, each a linear two-color ramp, cyclic from
/// the last quadrant back into the first.
pub open spec fn palette_at(size: int, n: int) -> u16 {
    let quadrant = size / 4;
    if n < quadrant {
        let jj = n * 1020 / size;
        make565_spec(255, jj as u32, (255 - jj) as u32)
    } else if n < 2 * quadrant {
        let jj = (n - quadrant) * 1020 / size;
        make565_spec((255 - jj) as u32, 255, jj as u32)
    } else if n < 3 * quadrant {
        let jj = (n - 2 * quadrant) * 1020 / size;
        make565_spec(0, (255 - jj) as u32, 255)
    } else {
        let jj = (n - 3 * quadrant) * 1020 / size;
        make565_spec(jj as u32, 0, 255)
    }
}

/// The whole palette as a sequence: a pure function of its size.
pub open spec fn palette_seq(size: int) -> Seq<u16> {
    Seq::new(size as nat, |n: int| palette_at(size, n))
}

/// The sine table mirrors across its period: entry `i` is the exact
/// negation of entry `256 - i`.  Kept opaque so the quantifier only opens
/// where the symmetry is actually proved or used.
#[verifier::opaque]
pub open spec fn table_mirrors(tab: Seq<i64>) -> bool {
    forall|i: int| 1 <= i < 256 ==> #[trigger] tab[i] == -tab[256 - i]
}

/// The tabulated first half period: sin(i * pi / 128) * 2^16 truncated
/// toward zero, for i in 0 ..= 128.
pub open spec fn sin_half_at(i: int) -> int {
    if i == 0 {
        0
    } else if i == 1 {
        1608
    } else if i == 2 {
        3215
    } else if i == 3 {
        4821
    } else if i == 4 {
        6423
    } else if i == 5 {
        8022
    } else if i == 6 {
        9616
    } else if i == 7 {
        11204
    } else if i == 8 {
        12785
    } else if i == 9 {
        14359
    } else if i == 10 {
        15923
    } else if i == 11 {
        17479
    } else if i == 12 {
        19024
    } else if i == 13 {
        20557
    } else if i == 14 {
        22078
    } else if i == 15 {
        23586
    } else if i == 16 {
        25079
    } else if i == 17 {
        26557
    } else if i == 18 {
        28020
    } else if i == 19 {
        29465
    } else if i == 20 {
        30893
    } else if i == 21 {
        32302
    } else if i == 22 {
        33692
    } else if i == 23 {
        35061
    } else if i == 24 {
        36409
    } else if i == 25 {
        37736
    } else if i == 26 {
        39039
    } else if i == 27 {
        40319
    } else if i == 28 {
        41575
    } else if i == 29 {
        42806
    } else if i == 30 {
        44011
    } else if i == 31 {
        45189
    } else if i == 32 {
        46340
    } else if i == 33 {
        47464
    } else if i == 34 {
        48558
    } else if i == 35 {
        49624
    } else if i == 36 {
        50660
    } else if i == 37 {
        51665
    } else if i == 38 {
        52639
    } else if i == 39 {
        53581
    } else if i == 40 {
        54491
    } else if i == 41 {
        55368
    } else if i == 42 {
        56212
    } else if i == 43 {
        57022
    } else if i == 44 {
        57797
    } else if i == 45 {
        58538
    } else if i == 46 {
        59243
    } else if i == 47 {
        59913
    } else if i == 48 {
        60547
    } else if i == 49 {
        61144
    } else if i == 50 {
        61705
    } else if i == 51 {
        62228
    } else if i == 52 {
        62714
    } else if i == 53 {
        63162
    } else if i == 54 {
        63571
    } else if i == 55 {
        63943
    } else if i == 56 {
        64276
    } else if i == 57 {
        64571
    } else if i == 58 {
        64826
    } else if i == 59 {
        65043
    } else if i == 60 {
        65220
    } else if i == 61 {
        65358
    } else if i == 62 {
        65457
    } else if i == 63 {
        65516
    } else if i == 64 {
        65536
    } else if i == 65 {
        65516
    } else if i == 66 {
        65457
    } else if i == 67 {
        65358
    } else if i == 68 {
        65220
    } else if i == 69 {
        65043
    } else if i == 70 {
        64826
    } else if i == 71 {
        64571
    } else if i == 72 {
        64276
    } else if i == 73 {
        63943
    } else if i == 74 {
        63571
    } else if i == 75 {
        63162
    } else if i == 76 {
        62714
    } else if i == 77 {
        62228
    } else if i == 78 {
        61705
    } else if i == 79 {
        61144
    } else if i == 80 {
        60547
    } else if i == 81 {
        59913
    } else if i == 82 {
        59243
    } else if i == 83 {
        58538
    } else if i == 84 {
        57797
    } else if i == 85 {
        57022
    } else if i == 86 {
        56212
    } else if i == 87 {
        55368
    } else if i == 88 {
        54491
    } else if i == 89 {
        53581
    } else if i == 90 {
        52639
    } else if i == 91 {
        51665
    } else if i == 92 {
        50660
    } else if i == 93 {
        49624
    } else if i == 94 {
        48558
    } else if i == 95 {
        47464
    } else if i == 96 {
        46340
    } else if i == 97 {
        45189
    } else if i == 98 {
        44011
    } else if i == 99 {
        42806
    } else if i == 100 {
        41575
    } else if i == 101 {
        40319
    } else if i == 102 {
        39039
    } else if i == 103 {
        37736
    } else if i == 104 {
        36409
    } else if i == 105 {
        35061
    } else if i == 106 {
        33692
    } else if i == 107 {
        32302
    } else if i == 108 {
        30893
    } else if i == 109 {
        29465
    } else if i == 110 {
        28020
    } else if i == 111 {
        26557
    } else if i == 112 {
        25079
    } else if i == 113 {
        23586
    } else if i == 114 {
        22078
    } else if i == 115 {
        20557
    } else if i == 116 {
        19024
    } else if i == 117 {
        17479
    } else if i == 118 {
        15923
    } else if i == 119 {
        14359
    } else if i == 120 {
        12785
    } else if i == 121 {
        11204
    } else if i == 122 {
        9616
    } else if i == 123 {
        8022
    } else if i == 124 {
        6423
    } else if i == 125 {
        4821
    } else if i == 126 {
        3215
    } else if i == 127 {
        1608
    } else {
        0
    }
}

/// Every entry of the full table: the tabulated half period, its mirror,
/// and the zero endpoint.
pub open spec fn sin_table_at(i: int) -> int {
    if 0 <= i <= 128 {
        sin_half_at(i)
    } else if i < 256 {
        -sin_half_at(256 - i)
    } else {
        0
    }
}

/// The whole sine table holds exactly the tabulated values.  Kept opaque so
/// the quantifier only opens where the values are proved or used.
#[verifier::opaque]
pub open spec fn table_pinned(tab: Seq<i64>) -> bool {
    forall|i: int| 0 <= i < 257 ==> #[trigger] tab[i] == sin_table_at(i)
}

pub struct Plasma {
    pub fixed_bits: usize,
    pub fixed_one: i64,
    pub fixed_mask: usize,
    pub angle_bits: usize,
    pub angle_size: usize,
    pub angle_mask: usize,
    pub palette_bits: usize,
    pub palette_size: usize,
    pub palette_mask: usize,
    pub angle_sin_tab: Vec<i64>,
    pub palette: Vec<u16>,
    pub pi: i64,
    pub yt1_incr: i64,
    pub yt2_incr: i64,
    pub xt1_incr: i64,
    pub xt2_incr: i64,
}

impl Plasma {
    /// Well-formed engine state: the derived constants for 16 fractional
    /// bits, 8 angle bits and 8 palette bits, a sine table of the right
    /// length whose entries stay within one fixed-point unit and mirror one
    /// another across the period, and the palette ramp.
    pub open spec fn wf(&self) -> bool {
        &&& self.fixed_bits == 16
        &&& self.fixed_one == 0x10000
        &&& self.fixed_mask == 0xffff
        &&& self.angle_bits == 8
        &&& self.angle_size == 257
        &&& self.angle_mask == 0xff
        &&& self.palette_bits == 8
        &&& self.palette_size == 256
        &&& self.palette_mask == 0xff
        &&& self.pi == 128
        &&& self.yt1_incr == 655
        &&& self.yt2_incr == 402
        &&& self.xt1_incr == 378
        &&& self.xt2_incr == 270
        &&& self.angle_sin_tab@.len() == 257
        &&& forall|i: int|
            0 <= i < 257 ==> -0x10000 <= #[trigger] self.angle_sin_tab@[i] <= 0x10000
        &&& self.angle_sin_tab@[0] == 0
        &&& self.angle_sin_tab@[64] == 0x10000
        &&& self.angle_sin_tab@[128] == 0
        &&& self.angle_sin_tab@[192] == -0x10000
        &&& table_mirrors(self.angle_sin_tab@)
        &&& table_pinned(self.angle_sin_tab@)
        &&& self.palette@ == palette_seq(256)
    }

    /// Fixed-point sine of a fixed-point angle, through the table.
    pub open spec fn sin_spec(&self, f: i64) -> i64 {
        self.angle_sin_tab@[sin_index(f)]
    }

    /// Fixed-point cosine: the sine lookup shifted by a quarter period.
    pub open spec fn cos_spec(&self, f: i64) -> i64 {
        self.angle_sin_tab@[((f as int) / 256 + 64) % 256]
    }

    /// First row-phase accumulator before row `r` is rendered.
    pub open spec fn yt1_at(&self, t: i64, r: int) -> i64 {
        phase_at(seed_spec(t, 1230), self.yt1_incr, r)
    }

    /// Second row-phase accumulator before row `r` is rendered.
    pub open spec fn yt2_at(&self, t: i64, r: int) -> i64 {
        phase_at(seed_spec(t, 1230), self.yt2_incr, r)
    }

    /// First column-phase accumulator before column `c` is rendered.  Every
    /// row restarts the column phases from the same seed.
    pub open spec fn xt1_at(&self, t: i64, c: int) -> i64 {
        phase_at(seed_spec(t, 3000), self.xt1_incr, c)
    }

    /// Second column-phase accumulator before column `c` is rendered.
    pub open spec fn xt2_at(&self, t: i64, c: int) -> i64 {
        phase_at(seed_spec(t, 3000), self.xt2_incr, c)
    }

    /// Row contribution to the field: the two row sines.
    pub open spec fn base_at(&self, t: i64, r: int) -> int {
        self.sin_spec(self.yt1_at(t, r)) + self.sin_spec(self.yt2_at(t, r))
    }

    /// The plasma field at a pixel: row contribution plus the two column
    /// sines.
    pub open spec fn field_at(&self, t: i64, r: int, c: int) -> int {
        self.base_at(t, r) + self.sin_spec(self.xt1_at(t, c)) + self.sin_spec(self.xt2_at(t, c))
    }

    /// The packed 16-bit color rendered at row `r`, column `c` for frame
    /// time `t`.
    pub open spec fn pixel_at(&self, t: i64, r: int, c: int) -> u16 {
        self.palette@[pindex_spec(self.field_at(t, r, c) / 4)]
    }
}

/// Floor division by a small positive constant: the value of an arithmetic
/// right shift when `d` is the corresponding power of two.
fn floor_div(x: i64, d: i64) -> (r: i64)
    requires
        d == 4 || d == 256,
    ensures
        r == (x as int) / (d as int),
{
    let q = x / d;
    let m = x % d;
    if m < 0 {
        q - 1
    } else {
        q
    }
}

impl Plasma {
    /// Build the engine for the default parameters: 16 fractional bits,
    /// 8 angle bits, 8 palette bits.
    pub fn new() -> (r: Self)
        ensures
            r.wf(),
    {
        Self::create(16, 8, 8)
    }

    /// Build the engine.  The sine table is precomputed at a resolution of
    /// 8 angle bits and 16 fractional bits, so only those parameters are
    /// supported.
    pub fn create(fixed_bits: usize, angle_bits: usize, palette_bits: usize) -> (r: Self)
        requires
            fixed_bits == 16,
            angle_bits == 8,
            palette_bits == 8,
        ensures
            r.wf(),
    {
        let fixed_one: i64 = 0x10000;
        let angle_size: usize = 257;
        let palette_size: usize = 256;
        let fixed_mask: usize = 0xffff;
        let angle_mask: usize = 0xff;
        let palette_mask: usize = 0xff;
        let pi: i64 = 128;
        Plasma {
            fixed_bits,
            fixed_one,
            fixed_mask,
            angle_bits,
            angle_mask,
            angle_size,
            palette_bits,
            palette_size,
            palette_mask,
            angle_sin_tab: Self::init_angles(fixed_one, angle_size, pi),
            palette: Self::init_palette(palette_size),
            pi,
            // The four phase increments: floor(2^16 / period) for the four
            // mutually prime-ish periods 100, 163, 173 and 242.
            yt1_incr: fixed_one / 100,
            yt2_incr: fixed_one / 163,
            xt1_incr: fixed_one / 173,
            xt2_incr: fixed_one / 242,
        }
    }

    /// The sine table: entry `i` holds sin(i * pi / 128) * 2^16 truncated
    /// toward zero.  The first half period is tabulated; the second half is
    /// its exact mirror, and the inclusive endpoint at 2 * pi closes the
    /// period with zero.
    pub fn init_angles(fixed_one: i64, angle_size: usize, pi: i64) -> (r: Vec<i64>)
        requires
            fixed_one == 0x10000,
            angle_size == 257,
            pi == 128,
        ensures
            r@.len() == 257,
            forall|i: int| 0 <= i < 257 ==> -0x10000 <= #[trigger] r@[i] <= 0x10000,
            r@[0] == 0,
            r@[64] == 0x10000,
            r@[128] == 0,
            r@[192] == -0x10000,
            table_mirrors(r@),
            table_pinned(r@),
    {
        let half: [i64; 129] = [
            0, 1608, 3215, 4821, 6423, 8022, 9616, 11204,
            12785, 14359, 15923, 17479, 19024, 20557, 22078, 23586,
            25079, 26557, 28020, 29465, 30893, 32302, 33692, 35061,
            36409, 37736, 39039, 40319, 41575, 42806, 44011, 45189,
            46340, 47464, 48558, 49624, 50660, 51665, 52639, 53581,
            54491, 55368, 56212, 57022, 57797, 58538, 59243, 59913,
            60547, 61144, 61705, 62228, 62714, 63162, 63571, 63943,
            64276, 64571, 64826, 65043, 65220, 65358, 65457, 65516,
            65536, 65516, 65457, 65358, 65220, 65043, 64826, 64571,
            64276, 63943, 63571, 63162, 62714, 62228, 61705, 61144,
            60547, 59913, 59243, 58538, 57797, 57022, 56212, 55368,
            54491, 53581, 52639, 51665, 50660, 49624, 48558, 47464,
            46340, 45189, 44011, 42806, 41575, 40319, 39039, 37736,
            36409, 35061, 33692, 32302, 30893, 29465, 28020, 26557,
            25079, 23586, 22078, 20557, 19024, 17479, 15923, 14359,
            12785, 11204, 9616, 8022, 6423, 4821, 3215, 1608,
            0,
        ];
        assert(forall|i: int| 0 <= i < 129 ==> 0 <= #[trigger] half@[i] <= 0x10000);
        assert(forall|i: int| 0 <= i < 129 ==> #[trigger] half@[i] == sin_half_at(i));
        assert(half@[0] == 0);
        let mut tab: Vec<i64> = Vec::new();
        let mut i: usize = 0;
        while i < 129
            invariant
                0 <= i <= 129,
                tab@.len() == i,
                forall|j: int| 0 <= j < i ==> #[trigger] tab@[j] == half@[j],
                forall|j: int| 0 <= j < 129 ==> 0 <= #[trigger] half@[j] <= 0x10000,
                forall|j: int| 0 <= j < 129 ==> #[trigger] half@[j] == sin_half_at(j),
            decreases 129 - i,
        {
            tab.push(half[i]);
            i += 1;
        }
        // Mirror: sin(x + pi) == -sin(x), so entry i for i in 129 ..= 255 is
        // the exact negation of entry 256 - i.
        let mut i: usize = 129;
        while i < 256
            invariant
                129 <= i <= 256,
                tab@.len() == i,
                forall|j: int| 0 <= j < 129 ==> #[trigger] tab@[j] == half@[j],
                forall|j: int| 0 <= j < 129 ==> 0 <= #[trigger] half@[j] <= 0x10000,
                forall|j: int| 0 <= j < 129 ==> #[trigger] half@[j] == sin_half_at(j),
                forall|j: int| 129 <= j < i ==> #[trigger] tab@[j] == -tab@[256 - j],
            decreases 256 - i,
        {
            let mirrored = tab[256 - i];
            tab.push(-mirrored);
            i += 1;
        }
        // The inclusive endpoint at index 256: sin(2 * pi) truncates to zero.
        tab.push(0);
        assert(forall|i: int| 0 <= i < 257 ==> -0x10000 <= #[trigger] tab@[i] <= 0x10000);
        assert(table_mirrors(tab@)) by {
            reveal(table_mirrors);
            assert(forall|i: int| 129 <= i < 256 ==> #[trigger] tab@[i] == -tab@[256 - i]);
            assert(tab@[128] == 0);
            assert(forall|i: int|
                1 <= i < 128 ==> #[trigger] tab@[256 - i] == -tab@[256 - (256 - i)]);
        }
        assert(table_pinned(tab@)) by {
            reveal(table_pinned);
            assert(forall|i: int| 0 <= i <= 128 ==> #[trigger] tab@[i] == sin_table_at(i));
            assert(forall|i: int| 129 <= i < 256 ==> #[trigger] tab@[i] == sin_table_at(i));
            assert(tab@[256] == sin_table_at(256));
        }
        tab
    }

    /// The cyclic color ramp.  Quadrant boundaries truncate as
    /// `k * (size / 4)`; the last quadrant runs to exactly `size`.
    pub fn init_palette(palette_size: usize) -> (r: Vec<u16>)
        requires
            palette_size * 1020 <= usize::MAX,
        ensures
            r@ == palette_seq(palette_size as int),
            r@.len() == palette_size,
    {
        let quadrant = palette_size / 4;
        let n1 = quadrant;
        let n2 = 2 * quadrant;
        let n3 = 3 * quadrant;
        let mut tab: Vec<u16> = Vec::new();
        let mut nn: usize = 0;
        while nn < n1
            invariant
                palette_size * 1020 <= usize::MAX,
                quadrant == palette_size / 4,
                n1 == quadrant,
                0 <= nn <= n1,
                tab@.len() == nn,
                forall|j: int|
                    0 <= j < nn ==> #[trigger] tab@[j] == palette_at(palette_size as int, j),
            decreases n1 - nn,
        {
            let jj = nn * 4 * 255 / palette_size;
            proof {
                lemma_ramp_bounds(nn as int, palette_size as int);
            }
            tab.push(make565(255, jj as u32, 255 - (jj as u32)));
            nn += 1;
        }
        while nn < n2
            invariant
                palette_size * 1020 <= usize::MAX,
                quadrant == palette_size / 4,
                n1 == quadrant,
                n2 == 2 * quadrant,
                n1 <= nn <= n2,
                tab@.len() == nn,
                forall|j: int|
                    0 <= j < nn ==> #[trigger] tab@[j] == palette_at(palette_size as int, j),
            decreases n2 - nn,
        {
            let jj = (nn - n1) * 4 * 255 / palette_size;
            proof {
                lemma_ramp_bounds(nn - n1 as int, palette_size as int);
            }
            tab.push(make565(255 - (jj as u32), 255, jj as u32));
            nn += 1;
        }
        while nn < n3
            invariant
                palette_size * 1020 <= usize::MAX,
                quadrant == palette_size / 4,
                n2 == 2 * quadrant,
                n3 == 3 * quadrant,
                n2 <= nn <= n3,
                tab@.len() == nn,
                forall|j: int|
                    0 <= j < nn ==> #[trigger] tab@[j] == palette_at(palette_size as int, j),
            decreases n3 - nn,
        {
            let jj = (nn - n2) * 4 * 255 / palette_size;
            proof {
                lemma_ramp_bounds(nn - n2 as int, palette_size as int);
            }
            tab.push(make565(0, 255 - (jj as u32), 255));
            nn += 1;
        }
        while nn < palette_size
            invariant
                palette_size * 1020 <= usize::MAX,
                quadrant == palette_size / 4,
                n3 == 3 * quadrant,
                n3 <= nn <= palette_size,
                nn >= n3,
                tab@.len() == nn,
                forall|j: int|
                    0 <= j < nn ==> #[trigger] tab@[j] == palette_at(palette_size as int, j),
            decreases palette_size - nn,
        {
            let jj = (nn - n3) * 4 * 255 / palette_size;
            proof {
                lemma_last_ramp_bound(nn - n3 as int, palette_size as int);
            }
            tab.push(make565(jj as u32, 0, 255));
            nn += 1;
        }
        proof {
            assert(tab@ =~= palette_seq(palette_size as int));
        }
        tab
    }

    /// Table angle of a fixed-point value: drop the 8 fractional bits below
    /// the table's resolution (an arithmetic shift right by
    /// `fixed_bits - angle_bits`).
    pub fn angle(&self, x: i64) -> (r: i64)
        requires
            self.wf(),
        ensures
            r == (x as int) / 256,
    {
        floor_div(x, 256)
    }

    /// Masked table lookup: the angle wraps around the 256-entry period, so
    /// every integer angle, negative ones included, selects a table entry.
    pub fn angle_sin(&self, a: i64) -> (r: i64)
        requires
            self.wf(),
        ensures
            r == self.angle_sin_tab@[(a as int) % 256],
            -0x10000 <= r <= 0x10000,
    {
        let m = a % 256;
        let idx: usize = if m < 0 {
            (m + 256) as usize
        } else {
            m as usize
        };
        self.angle_sin_tab[idx]
    }

    /// Fixed-point sine of a fixed-point angle.
    pub fn sin(&self, f: i64) -> (r: i64)
        requires
            self.wf(),
        ensures
            r == self.sin_spec(f),
            -0x10000 <= r <= 0x10000,
    {
        let a = self.angle(f);
        self.angle_sin(a)
    }

    /// Fixed-point cosine: sine shifted by a quarter period (half of pi's
    /// table index).
    pub fn cos(&self, f: i64) -> (r: i64)
        requires
            self.wf(),
        ensures
            r == self.cos_spec(f),
            -0x10000 <= r <= 0x10000,
    {
        let a = self.angle(f);
        self.angle_sin(a + self.pi / 2)
    }

    /// Palette index of a field value: clamp the absolute value to just
    /// under one fixed-point unit, then keep the palette's 8 top bits.  The
    /// result is always in range, however large the field grows.
    pub fn palette_index(&self, x: i64) -> (r: usize)
        requires
            self.wf(),
        ensures
            r == pindex_spec(x as int),
            r < 256,
    {
        let xx: i64 = if x <= -self.fixed_one {
            self.fixed_one - 1
        } else if x < 0 {
            -x
        } else if x >= self.fixed_one {
            self.fixed_one - 1
        } else {
            x
        };
        (xx / 256) as usize
    }

    /// The palette color for a field value.
    pub fn palette(&self, x: i64) -> (r: u16)
        requires
            self.wf(),
        ensures
            r == self.palette@[pindex_spec(x as int)],
    {
        let idx = self.palette_index(x);
        self.palette[idx]
    }
}

/// Pack an (r, g, b) triple into a 16-bit 5-6-5 color.  The bit masking is
/// intentionally truncating.
pub fn make565(red: u32, green: u32, blue: u32) -> (r: u16)
    ensures
        r == make565_spec(red, green, blue),
{
    let v: u32 = ((red << 8) & 0xf800) | ((green << 3) & 0x07e0) | ((blue >> 3) & 0x001f);
    assert((((red << 8) & 0xf800) | ((green << 3) & 0x07e0) | ((blue >> 3) & 0x001f))
        <= 0xffff) by (bit_vector);
    v as u16
}

/// In the first three palette quadrants the ramp fraction stays below 255,
/// so the descending blend component never underflows.
proof fn lemma_ramp_bounds(j: int, size: int)
    requires
        size >= 1,
        0 <= j,
        j < size / 4,
    ensures
        j * 4 * 255 == j * 1020,
        0 <= j * 1020 / size <= 254,
{
    assert(j * 4 * 255 == j * 1020) by (nonlinear_arith);
    assert(j * 1020 >= 0) by (nonlinear_arith)
        requires
            j >= 0,
    ;
    vstd::arithmetic::div_mod::lemma_div_pos_is_pos(j * 1020, size);
    assert(4 * (size / 4) <= size) by {
        vstd::arithmetic::div_mod::lemma_fundamental_div_mod(size, 4);
    }
    assert(j * 1020 < 255 * size) by (nonlinear_arith)
        requires
            0 <= j,
            j < size / 4,
            4 * (size / 4) <= size,
    ;
    vstd::arithmetic::div_mod::lemma_multiply_divide_lt(j * 1020, size, 255);
}

/// In the last palette quadrant the ramp fraction stays within four ramp
/// spans, so the packing input stays small.
proof fn lemma_last_ramp_bound(j: int, size: int)
    requires
        size >= 1,
        0 <= j,
        j < size,
    ensures
        j * 4 * 255 == j * 1020,
        0 <= j * 1020 / size <= 1019,
{
    assert(j * 4 * 255 == j * 1020) by (nonlinear_arith);
    assert(j * 1020 >= 0) by (nonlinear_arith)
        requires
            j >= 0,
    ;
    vstd::arithmetic::div_mod::lemma_div_pos_is_pos(j * 1020, size);
    assert(j * 1020 < 1020 * size) by (nonlinear_arith)
        requires
            0 <= j,
            j < size,
    ;
    vstd::arithmetic::div_mod::lemma_multiply_divide_lt(j * 1020, size, 1020);
}

// ---------------------------------------------------------------------------
// Rendering a frame
// ---------------------------------------------------------------------------

/// The low byte of a packed color; pixels are stored low byte first.
pub open spec fn lo16(p: u16) -> u8 {
    (p % 256) as u8
}

/// The high byte of a packed color.
pub open spec fn hi16(p: u16) -> u8 {
    (p / 256) as u8
}

/// Whether byte offset `i` lands on a pixel of the `w` by `h` frame laid out
/// with `stride` bytes per row.  Bytes in the row padding between
/// `2 * width` and `stride`, and bytes at or past `h * stride`, are not
/// pixel bytes.
pub open spec fn pixel_byte(w: int, h: int, stride: int, i: int) -> bool {
    &&& 0 <= i
    &&& i / stride < h
    &&& i % stride < 2 * w
}

/// Whether byte offset `i` was already written when the renderer stands
/// before column `c` of row `r`.
pub open spec fn written_before(w: int, stride: int, r: int, c: int, i: int) -> bool {
    &&& 0 <= i
    &&& i % stride < 2 * w
    &&& (i / stride < r || (i / stride == r && i % stride < 2 * c))
}

impl Plasma {
    /// The byte the renderer leaves at pixel-byte offset `i`: one half of
    /// the packed color of the pixel that offset belongs to.
    pub open spec fn rendered_byte(&self, t: i64, stride: int, i: int) -> u8 {
        let q = i % stride;
        let p = self.pixel_at(t, i / stride, q / 2);
        if q % 2 == 0 {
            lo16(p)
        } else {
            hi16(p)
        }
    }

    /// What one rendered frame does to a buffer: every pixel byte holds its
    /// half of the computed color, every other byte keeps its prior value.
    /// The after-image is a pure function of the engine state, the frame
    /// geometry, the time value and the prior bytes.
    pub open spec fn render_rel(
        &self,
        w: int,
        h: int,
        stride: int,
        t: i64,
        pre: Seq<u8>,
        post: Seq<u8>,
    ) -> bool {
        &&& post.len() == pre.len()
        &&& forall|i: int|
            0 <= i < post.len() && pixel_byte(w, h, stride, i) ==> #[trigger] post[i]
                == self.rendered_byte(t, stride, i)
        &&& forall|i: int|
            0 <= i < post.len() && !pixel_byte(w, h, stride, i) ==> #[trigger] post[i] == pre[i]
    }
}

/// The i64 whose two's-complement bits are `m`.
fn u64_bits_to_i64(m: u64) -> (r: i64)
    ensures
        r as int == if m >= 0x8000_0000_0000_0000 {
            m - 0x1_0000_0000_0000_0000
        } else {
            m as int
        },
{
    if m < 0x8000_0000_0000_0000 {
        m as i64
    } else if m == 0x8000_0000_0000_0000 {
        i64::MIN
    } else {
        let neg: u64 = (0xffff_ffff_ffff_ffffu64 - m) + 1;
        -(neg as i64)
    }
}

/// The starting phase for a frame time: `t * 2^16 / divisor` truncated
/// toward zero and wrapped to 64 bits.
fn time_seed(t: i64, divisor: u64) -> (r: i64)
    requires
        divisor == 1230 || divisor == 3000,
    ensures
        r == seed_spec(t, divisor as int),
{
    if t >= 0 {
        let q: u128 = (t as u128) * 0x10000 / (divisor as u128);
        let m: u64 = (q % 0x1_0000_0000_0000_0000) as u64;
        u64_bits_to_i64(m)
    } else {
        let mag: u128 = (-(t as i128)) as u128;
        let q: u128 = mag * 0x10000 / (divisor as u128);
        let m: u64 = (q % 0x1_0000_0000_0000_0000) as u64;
        let neg: u64 = 0u64.wrapping_sub(m);
        proof {
            let qi = (mag as int) * 0x10000 / (divisor as int);
            lemma_fundamental_div_mod(qi, 0x1_0000_0000_0000_0000);
            let qd = qi / 0x1_0000_0000_0000_0000;
            if m == 0 {
                lemma_fundamental_div_mod_converse(
                    -qi,
                    0x1_0000_0000_0000_0000,
                    -qd,
                    0,
                );
            } else {
                lemma_fundamental_div_mod_converse(
                    -qi,
                    0x1_0000_0000_0000_0000,
                    -qd - 1,
                    0x1_0000_0000_0000_0000 - m,
                );
            }
        }
        u64_bits_to_i64(neg)
    }
}

/// Pixel byte offsets decompose uniquely into row, column and half.
proof fn lemma_pixel_offset(r: int, c: int, w: int, h: int, stride: int)
    requires
        0 <= r < h,
        0 <= c < w,
        stride >= 2 * w,
    ensures
        (r * stride + 2 * c) / stride == r,
        (r * stride + 2 * c) % stride == 2 * c,
        (r * stride + 2 * c + 1) / stride == r,
        (r * stride + 2 * c + 1) % stride == 2 * c + 1,
        (2 * c) / 2 == c,
        (2 * c) % 2 == 0,
        (2 * c + 1) / 2 == c,
        (2 * c + 1) % 2 == 1,
        0 <= r * stride + 2 * c,
        r * stride + 2 * c + 1 < h * stride,
{
    lemma_mul_nonnegative(r, stride);
    lemma_fundamental_div_mod_converse(r * stride + 2 * c, stride, r, 2 * c);
    lemma_fundamental_div_mod_converse(r * stride + 2 * c + 1, stride, r, 2 * c + 1);
    lemma_fundamental_div_mod_converse(2 * c, 2, c, 0);
    lemma_fundamental_div_mod_converse(2 * c + 1, 2, c, 1);
    assert(r * stride + stride == (r + 1) * stride) by (nonlinear_arith);
    lemma_mul_inequality(r + 1, h, stride);
}

impl Plasma {
    /// Render one frame for time `t` into a caller-supplied byte buffer.
    ///
    /// Each pixel's packed 16-bit color is written low byte first at byte
    /// offset `row * stride + column * 2`; rows advance by the stride, not
    /// by `width * 2`, so padded rows keep their padding bytes, and nothing
    /// at or past `height * stride` is touched.
    #[verifier::loop_isolation(false)]
    pub fn fill_plasma(&self, info: &AndroidBitmapInfo, pixels: &mut Vec<u8>, t: i64)
        requires
            self.wf(),
            info.width >= 1,
            info.height >= 1,
            info.stride >= 2 * info.width,
            old(pixels)@.len() >= info.height * info.stride,
        ensures
            self.render_rel(
                info.width as int,
                info.height as int,
                info.stride as int,
                t,
                old(pixels)@,
                final(pixels)@,
            ),
    {
        let w = info.width as usize;
        let h = info.height as usize;
        let stride = info.stride as usize;
        // materializes the buffer length as a machine word, which bounds
        // every in-buffer offset the loops compute
        let _total: usize = pixels.len();
        let ghost pre = pixels@;
        let mut yt1: i64 = time_seed(t, 1230);
        let mut yt2: i64 = yt1;
        let xt10: i64 = time_seed(t, 3000);
        let xt20: i64 = xt10;
        let mut r: usize = 0;
        while r < h
            invariant
                self.wf(),
                w == info.width,
                h == info.height,
                stride == info.stride,
                1 <= w,
                1 <= h,
                stride >= 2 * w,
                pre.len() >= h * stride,
                pixels@.len() == pre.len(),
                0 <= r <= h,
                yt1 == self.yt1_at(t, r as int),
                yt2 == self.yt2_at(t, r as int),
                xt10 == self.xt1_at(t, 0),
                xt20 == self.xt2_at(t, 0),
                forall|i: int|
                    0 <= i < pixels@.len() && written_before(
                        w as int,
                        stride as int,
                        r as int,
                        0,
                        i,
                    ) ==> #[trigger] pixels@[i] == self.rendered_byte(t, stride as int, i),
                forall|i: int|
                    0 <= i < pixels@.len() && !written_before(
                        w as int,
                        stride as int,
                        r as int,
                        0,
                        i,
                    ) ==> #[trigger] pixels@[i] == pre[i],
            decreases h - r,
        {
            let base: i64 = self.sin(yt1) + self.sin(yt2);
            yt1 = yt1.wrapping_add(self.yt1_incr);
            yt2 = yt2.wrapping_add(self.yt2_incr);
            proof {
                lemma_mul_nonnegative(r as int, stride as int);
                assert((r as int) * (stride as int) + stride as int == (r as int + 1) * (stride
                    as int)) by (nonlinear_arith);
                lemma_mul_inequality(r as int + 1, h as int, stride as int);
            }
            let row_base: usize = r * stride;
            let mut xt1: i64 = xt10;
            let mut xt2: i64 = xt20;
            let mut c: usize = 0;
            while c < w
                invariant
                    self.wf(),
                    w == info.width,
                    h == info.height,
                    stride == info.stride,
                    1 <= w,
                    1 <= h,
                    stride >= 2 * w,
                    pre.len() >= h * stride,
                    pixels@.len() == pre.len(),
                    0 <= r < h,
                    0 <= c <= w,
                    row_base == r as int * stride as int,
                    row_base + stride <= h * stride,
                    base == self.base_at(t, r as int),
                    -0x20000 <= base <= 0x20000,
                    xt1 == self.xt1_at(t, c as int),
                    xt2 == self.xt2_at(t, c as int),
                    forall|i: int|
                        0 <= i < pixels@.len() && written_before(
                            w as int,
                            stride as int,
                            r as int,
                            c as int,
                            i,
                        ) ==> #[trigger] pixels@[i] == self.rendered_byte(t, stride as int, i),
                    forall|i: int|
                        0 <= i < pixels@.len() && !written_before(
                            w as int,
                            stride as int,
                            r as int,
                            c as int,
                            i,
                        ) ==> #[trigger] pixels@[i] == pre[i],
                decreases w - c,
            {
                let s1 = self.sin(xt1);
                let s2 = self.sin(xt2);
                let ii: i64 = base + s1 + s2;
                let pp: u16 = self.palette(floor_div(ii, 4));
                xt1 = xt1.wrapping_add(self.xt1_incr);
                xt2 = xt2.wrapping_add(self.xt2_incr);
                proof {
                    lemma_pixel_offset(r as int, c as int, w as int, h as int, stride as int);
                }
                let off: usize = row_base + 2 * c;
                let ghost prev = pixels@;
                pixels.set(off, (pp % 256) as u8);
                pixels.set(off + 1, (pp / 256) as u8);
                proof {
                    let wi = w as int;
                    let si = stride as int;
                    let ri = r as int;
                    let ci = c as int;
                    assert(pp == self.pixel_at(t, ri, ci));
                    assert(pixels@[off as int] == lo16(pp));
                    assert(pixels@[off as int + 1] == hi16(pp));
                    assert(self.rendered_byte(t, si, off as int) == lo16(pp));
                    assert(self.rendered_byte(t, si, off as int + 1) == hi16(pp));
                    assert forall|i: int|
                        0 <= i < pixels@.len() && written_before(wi, si, ri, ci + 1, i)
                            implies #[trigger] pixels@[i] == self.rendered_byte(t, si, i) by {
                        if i == off as int || i == off as int + 1 {
                        } else {
                            lemma_fundamental_div_mod(i, si);
                            lemma_mul_is_commutative(i / si, si);
                            if i / si == ri && 2 * ci <= i % si {
                                assert(i % si < 2 * (ci + 1));
                                assert(i == ri * si + i % si);
                                assert(false);
                            }
                            assert(written_before(wi, si, ri, ci, i));
                            assert(pixels@[i] == prev[i]);
                        }
                    }
                    assert forall|i: int|
                        0 <= i < pixels@.len() && !written_before(wi, si, ri, ci + 1, i)
                            implies #[trigger] pixels@[i] == pre[i] by {
                        assert(written_before(wi, si, ri, ci + 1, off as int));
                        assert(written_before(wi, si, ri, ci + 1, off as int + 1));
                        assert(!written_before(wi, si, ri, ci, i));
                        assert(pixels@[i] == prev[i]);
                    }
                }
                c += 1;
            }
            r += 1;
        }
    }
}

// ---------------------------------------------------------------------------
// Laws
// ---------------------------------------------------------------------------

/// Angle-table symmetry: under the masked wraparound, the table sine of
/// angle index `i` is the exact negation of the table sine of `-i`.
pub proof fn lemma_angle_sin_symmetry(p: &Plasma, i: i64)
    requires
        p.wf(),
    ensures
        p.angle_sin_tab@[(i as int) % 256] == -p.angle_sin_tab@[(-(i as int)) % 256],
{
    reveal(table_mirrors);
    let ii = i as int;
    let k = ii % 256;
    lemma_fundamental_div_mod(ii, 256);
    let q = ii / 256;
    if k == 0 {
        lemma_fundamental_div_mod_converse(-ii, 256, -q, 0);
    } else {
        lemma_fundamental_div_mod_converse(-ii, 256, -q - 1, 256 - k);
    }
}

/// Render determinism: two renders of the same frame over the same prior
/// bytes leave identical buffers.  There is no hidden phase carried between
/// calls.
pub proof fn lemma_render_deterministic(
    p: &Plasma,
    w: int,
    h: int,
    stride: int,
    t: i64,
    pre: Seq<u8>,
    post1: Seq<u8>,
    post2: Seq<u8>,
)
    requires
        p.render_rel(w, h, stride, t, pre, post1),
        p.render_rel(w, h, stride, t, pre, post2),
    ensures
        post1 == post2,
{
    assert(post1 =~= post2);
}

/// Bounds safety: whenever the stride covers the row, a rendered frame
/// leaves every byte at or past `height * stride` exactly as it was.
pub proof fn lemma_render_stays_in_frame(
    p: &Plasma,
    w: int,
    h: int,
    stride: int,
    t: i64,
    pre: Seq<u8>,
    post: Seq<u8>,
    i: int,
)
    requires
        p.render_rel(w, h, stride, t, pre, post),
        stride >= 2 * w,
        stride >= 1,
        h >= 0,
        h * stride <= i < post.len(),
    ensures
        post[i] == pre[i],
{
    lemma_mul_nonnegative(h, stride);
    assert(0 <= i);
    lemma_fundamental_div_mod(i, stride);
    lemma_mod_division_less_than_divisor(i, stride);
    if i / stride < h {
        lemma_mul_inequality(i / stride, h - 1, stride);
        lemma_mul_is_commutative(i / stride, stride);
        assert(i <= (h - 1) * stride + stride - 1);
        assert((h - 1) * stride + stride == h * stride) by (nonlinear_arith);
        assert(false);
    }
    assert(!pixel_byte(w, h, stride, i));
}

/// Saturation: the palette index of any field value, however large, lies in
/// the palette's range.
pub proof fn lemma_palette_index_in_range(x: int)
    ensures
        0 <= pindex_spec(x) < 256,
{
}

/// Palette determinism: the palette is a pure function of its size, so two
/// generated palettes of the same size are element-wise identical.
pub proof fn lemma_palette_deterministic(a: Seq<u16>, b: Seq<u16>, size: int)
    requires
        a == palette_seq(size),
        b == palette_seq(size),
    ensures
        a == b,
        a.len() == size as nat,
        forall|n: int| 0 <= n < size ==> #[trigger] a[n] == palette_at(size, n),
{
}

/// Engine determinism: any two well-formed engines hold the same tables and
/// increments, so they render every frame identically.  The frame is a
/// function of geometry, time and prior bytes alone.
pub proof fn lemma_engines_agree(
    p1: &Plasma,
    p2: &Plasma,
    w: int,
    h: int,
    stride: int,
    t: i64,
    pre: Seq<u8>,
    post1: Seq<u8>,
    post2: Seq<u8>,
)
    requires
        p1.wf(),
        p2.wf(),
        p1.render_rel(w, h, stride, t, pre, post1),
        p2.render_rel(w, h, stride, t, pre, post2),
    ensures
        post1 == post2,
{
    reveal(table_pinned);
    assert(p1.angle_sin_tab@ =~= p2.angle_sin_tab@);
    assert(p1.palette@ == p2.palette@);
    assert forall|i: int| 0 <= i < post1.len() implies post1[i] == post2[i] by {
        if pixel_byte(w, h, stride, i) {
            assert(p1.rendered_byte(t, stride, i) == p2.rendered_byte(t, stride, i));
        }
    }
    assert(post1 =~= post2);
}

} // verus!
