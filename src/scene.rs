use vstd::prelude::*;

verus! {

/// The size of the image and the number of samples taken in each pixel.
pub struct Logistics {
    pub resolution_x: u32,
    pub resolution_y: u32,
    pub samples: u32,
}

proof fn lemma_u32_product(a: u32, b: u32)
    ensures
        0 <= a as int * b as int <= u64::MAX,
{
    assert(0 <= a as int * b as int <= u64::MAX) by (nonlinear_arith)
        requires
            0 <= a <= u32::MAX,
            0 <= b <= u32::MAX,
    ;
}

/// The pixel `(x, y)` that ticket `k` stands for when the tickets run
/// over `x`, then over `y`, then over the samples of one pixel.
pub open spec fn ticket_pixel(height: int, samples: int, k: int) -> (int, int) {
    (k / (height * samples), (k / samples) % height)
}

/// Each pixel `(x, y)` of the image gets exactly the `samples` consecutive
/// tickets that start at `(x * height + y) * samples`, and no others.
pub proof fn lemma_tickets_of_pixel(height: int, samples: int, k: int, x: int, y: int)
    requires
        height > 0,
        samples > 0,
        k >= 0,
        x >= 0,
        0 <= y < height,
    ensures
        ticket_pixel(height, samples, k) == (x, y) <==> (x * height + y) * samples <= k < (x * height
            + y) * samples + samples,
{
    let q = k / samples;
    let m = x * height + y;
    vstd::arithmetic::div_mod::lemma_div_denominator(k, samples, height);
    assert(height * samples == samples * height) by (nonlinear_arith);
    vstd::arithmetic::div_mod::lemma_fundamental_div_mod(k, samples);
    vstd::arithmetic::div_mod::lemma_fundamental_div_mod(q, height);
    assert(k % samples < samples && k % samples >= 0) by {
        vstd::arithmetic::div_mod::lemma_mod_bound(k, samples);
    }
    if m * samples <= k < m * samples + samples {
        vstd::arithmetic::div_mod::lemma_fundamental_div_mod_converse(k, samples, m, k - m * samples);
        vstd::arithmetic::div_mod::lemma_fundamental_div_mod_converse(q, height, x, y);
    }
    if ticket_pixel(height, samples, k) == (x, y) {
        assert(q / height == x && q % height == y);
        assert(q == height * x + y);
        assert(q == m) by (nonlinear_arith)
            requires
                q == height * x + y,
                m == x * height + y,
        ;
        assert(k == samples * m + k % samples);
        assert(m * samples <= k < m * samples + samples) by (nonlinear_arith)
            requires
                k == samples * m + k % samples,
                0 <= k % samples < samples,
        ;
    }
}

impl Logistics {
    /// The number of pixel-sample tickets of a render.
    pub open spec fn spec_ticket_count(&self) -> int {
        self.resolution_x as int * self.resolution_y as int * self.samples as int
    }

    /// The number of pixels of the image.
    pub open spec fn spec_pixel_count(&self) -> int {
        self.resolution_x as int * self.resolution_y as int
    }

    pub fn new(resolution_x: u32, resolution_y: u32, samples: u32) -> (r: Logistics)
        ensures
            r == (Logistics { resolution_x, resolution_y, samples }),
    {
        Logistics { resolution_x, resolution_y, samples }
    }

    /// The number of tickets, `None` when it does not fit in a `u64`.
    pub fn ticket_count(&self) -> (r: Option<u64>)
        ensures
            r == if self.spec_ticket_count() <= u64::MAX {
                Some(self.spec_ticket_count() as u64)
            } else {
                None::<u64>
            },
    {
        proof {
            lemma_u32_product(self.resolution_x, self.resolution_y);
        }
        let xy: u64 = self.resolution_x as u64 * self.resolution_y as u64;
        let r = xy.checked_mul(self.samples as u64);
        assert(xy as int * self.samples as int == self.spec_ticket_count()) by (nonlinear_arith)
            requires
                xy == self.resolution_x as int * self.resolution_y as int,
        ;
        r
    }

    /// The number of pixels, `None` when it does not fit in a `usize`.
    pub fn pixel_count(&self) -> (r: Option<usize>)
        ensures
            r == if self.spec_pixel_count() <= usize::MAX {
                Some(self.spec_pixel_count() as usize)
            } else {
                None::<usize>
            },
    {
        let x = self.resolution_x as usize;
        x.checked_mul(self.resolution_y as usize)
    }

    /// The pixel that ticket `k` asks to sample. The tickets run over the
    /// columns, then the rows, then the samples of one pixel, so each pixel
    /// gets `samples` consecutive tickets.
    pub fn ticket(&self, k: u64) -> (r: (u32, u32))
        requires
            (k as int) < self.spec_ticket_count(),
        ensures
            (r.0 as int, r.1 as int) == ticket_pixel(self.resolution_y as int, self.samples as int, k as int),
            r.0 < self.resolution_x,
            r.1 < self.resolution_y,
    {
        let ghost w = self.resolution_x as int;
        let ghost h = self.resolution_y as int;
        let ghost s = self.samples as int;
        assert(h > 0 && s > 0 && w > 0) by (nonlinear_arith)
            requires
                0 <= k < w * h * s,
                w >= 0,
                h >= 0,
                s >= 0,
        ;
        proof {
            lemma_u32_product(self.resolution_y, self.samples);
            assert(h * s > 0) by (nonlinear_arith)
                requires
                    h > 0,
                    s > 0,
            ;
        }
        let hs: u64 = self.resolution_y as u64 * self.samples as u64;
        assert(hs as int == h * s);
        let x = k / hs;
        let y = (k / self.samples as u64) % self.resolution_y as u64;
        assert(x < w) by (nonlinear_arith)
            requires
                0 <= k < w * h * s,
                hs == h * s,
                hs > 0,
                x == k / hs,
        ;
        (x as u32, y as u32)
    }

    /// The slot of pixel `(x, y)` in an accumulator laid out row after row.
    pub fn pixel_index(&self, x: u32, y: u32) -> (r: usize)
        requires
            x < self.resolution_x,
            y < self.resolution_y,
            self.spec_pixel_count() <= usize::MAX,
        ensures
            r == y as int * self.resolution_x as int + x as int,
            r < self.spec_pixel_count(),
    {
        let ghost w = self.resolution_x as int;
        let ghost h = self.resolution_y as int;
        assert(y as int * w + x < w * h) by (nonlinear_arith)
            requires
                x < w,
                y < h,
        ;
        y as usize * self.resolution_x as usize + x as usize
    }
}

} // verus!
