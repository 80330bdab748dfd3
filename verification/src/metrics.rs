//! Decode-timing metrics: cumulative nanoseconds spent decoding each pixel
//! format, plus a total.
//!
//! | Index | Constant             | `Encoding` variant |
//! |-------|----------------------|--------------------|
//! | 0     | `M_RGB565`           | `Rgb565`           |
//! | 1     | `M_RGB555`           | `Rgb555`           |
//! | 2     | `M_RGB555_REORDERED` | `ReorderedRgb555`  |
//! | 3     | `M_UYVY`             | `Yuv422`           |
//! | 4     | `M_YCBCR420`         | `Ycbcr420`         |
//! | 5     | `M_CLCL`             | (reserved)         |
//! | 6     | `M_CL`               | (reserved)         |
//! | 7     | `M_JPEG`             | `Jpeg`             |
//! | 8     | `M_TOTAL`            | all formats        |

use vstd::prelude::*;
use core::time::Duration;
use vstd::wrapping::u64_specs::wrapping_add;
use crate::profile::Encoding;

verus! {

/// Index of the RGB565 counter.
pub const M_RGB565: usize = 0;

/// Index of the RGB555 counter.
pub const M_RGB555: usize = 1;

/// Index of the reordered RGB555 counter.
pub const M_RGB555_REORDERED: usize = 2;

/// Index of the UYVY (YUV 4:2:2) counter.
pub const M_UYVY: usize = 3;

/// Index of the YCbCr 4:2:0 counter.
pub const M_YCBCR420: usize = 4;

/// Index of the CLCL counter (reserved: no encoding records into it).
pub const M_CLCL: usize = 5;

/// Index of the CL counter (reserved: no encoding records into it).
pub const M_CL: usize = 6;

/// Index of the JPEG counter.
pub const M_JPEG: usize = 7;

/// Index of the total counter.
pub const M_TOTAL: usize = 8;

/// Number of counters: eight per-format slots and the total.
pub const NUM_COUNTERS: usize = 9;

/// The counter index of an encoding.
pub open spec fn slot(encoding: Encoding) -> usize {
    match encoding {
        Encoding::Rgb565 => M_RGB565,
        Encoding::Rgb555 => M_RGB555,
        Encoding::ReorderedRgb555 => M_RGB555_REORDERED,
        Encoding::Yuv422 => M_UYVY,
        Encoding::Ycbcr420 => M_YCBCR420,
        Encoding::Jpeg => M_JPEG,
    }
}

/// Maps an encoding to its counter index.
pub fn encoding_to_idx(encoding: Encoding) -> (r: usize)
    ensures
        r == slot(encoding),
{
    match encoding {
        Encoding::Rgb565 => M_RGB565,
        Encoding::Rgb555 => M_RGB555,
        Encoding::ReorderedRgb555 => M_RGB555_REORDERED,
        Encoding::Yuv422 => M_UYVY,
        Encoding::Ycbcr420 => M_YCBCR420,
        Encoding::Jpeg => M_JPEG,
    }
}

/// A nanosecond count cut to `u64::MAX`.
pub open spec fn saturated(n: u128) -> u64 {
    if n > u64::MAX {
        u64::MAX
    } else {
        n as u64
    }
}

/// The counters after recording `n` nanoseconds for `encoding`: its slot
/// and the total each grow by `n`, wrapping around at 2^64.
pub open spec fn recorded(c: Seq<u64>, encoding: Encoding, n: u64) -> Seq<u64> {
    let s = slot(encoding) as int;
    let c1 = c.update(s, wrapping_add(c[s], n));
    c1.update(M_TOTAL as int, wrapping_add(c1[M_TOTAL as int], n))
}

/// Nine zero counters.
pub open spec fn zeros() -> Seq<u64> {
    Seq::new(NUM_COUNTERS as nat, |i: int| 0u64)
}

/// The whole of a duration in nanoseconds, as `Duration::as_nanos` gives it.
pub uninterp spec fn duration_nanos_of(d: Duration) -> u128;

/// The whole of a `Duration` in nanoseconds (`Duration::as_nanos`).
///
/// Trusted: the result is the named `duration_nanos_of` of the duration;
/// `as_nanos` depends on the duration alone and cannot fail.
#[verifier::external_body]
fn duration_nanos(d: Duration) -> (r: u128)
    ensures
        r == duration_nanos_of(d),
{
    d.as_nanos()
}

/// Cumulative decode-timing counters, one per pixel format plus a total,
/// in nanoseconds.
#[derive(Debug)]
pub struct DecodeMetrics {
    counters: [u64; 9],
}

impl View for DecodeMetrics {
    type V = Seq<u64>;

    closed spec fn view(&self) -> Seq<u64> {
        self.counters@
    }
}

impl DecodeMetrics {
    /// Creates metrics with every counter at zero.
    pub fn new() -> (r: Self)
        ensures
            r@ == zeros(),
    {
        let r = DecodeMetrics { counters: [0u64, 0, 0, 0, 0, 0, 0, 0, 0] };
        assert(r@ =~= zeros());
        r
    }

    /// Adds `nanos` to the counter of `encoding` and to the total, each
    /// wrapping around at 2^64.
    pub fn record_nanos(&mut self, encoding: Encoding, nanos: u64)
        ensures
            final(self)@ == recorded(old(self)@, encoding, nanos),
    {
        let idx = encoding_to_idx(encoding);
        let v = self.counters[idx].wrapping_add(nanos);
        self.counters[idx] = v;
        let t = self.counters[M_TOTAL].wrapping_add(nanos);
        self.counters[M_TOTAL] = t;
    }

    /// Adds a number of nanoseconds, cut to `u64::MAX`, to the counter of
    /// `encoding` and to the total, each wrapping around at 2^64.
    pub fn record_total_nanos(&mut self, encoding: Encoding, nanos: u128)
        ensures
            final(self)@ == recorded(old(self)@, encoding, saturated(nanos)),
    {
        let clamped: u64 = if nanos > u64::MAX as u128 {
            u64::MAX
        } else {
            nanos as u64
        };
        self.record_nanos(encoding, clamped);
    }

    /// Records a decode `duration` for `encoding`: its nanoseconds, cut to
    /// `u64::MAX`, are added to the format's counter and to the total.
    pub fn record(&mut self, encoding: Encoding, duration: Duration)
        ensures
            final(self)@ == recorded(old(self)@, encoding, saturated(duration_nanos_of(duration))),
    {
        let n = duration_nanos(duration);
        self.record_total_nanos(encoding, n);
    }

    /// The counter at `idx`, or 0 for an index past the last counter.
    pub fn nanos(&self, idx: usize) -> (r: u64)
        ensures
            r == if idx < NUM_COUNTERS {
                self@[idx as int]
            } else {
                0
            },
    {
        if idx < NUM_COUNTERS {
            self.counters[idx]
        } else {
            0
        }
    }

    /// Sets every counter to zero.
    pub fn reset(&mut self)
        ensures
            final(self)@ == zeros(),
    {
        self.counters = [0u64, 0, 0, 0, 0, 0, 0, 0, 0];
        assert(self@ =~= zeros());
    }

    /// All nine counters: the eight per-format counters in index order, then
    /// the total.
    pub fn snapshot(&self) -> (r: [u64; 9])
        ensures
            r@ == self@,
    {
        self.counters
    }

    /// Cumulative RGB565 decode time, in nanoseconds.
    pub fn rgb565_nanos(&self) -> (r: u64)
        ensures
            r == self@[M_RGB565 as int],
    {
        self.nanos(M_RGB565)
    }

    /// Cumulative RGB555 decode time, in nanoseconds.
    pub fn rgb555_nanos(&self) -> (r: u64)
        ensures
            r == self@[M_RGB555 as int],
    {
        self.nanos(M_RGB555)
    }

    /// Cumulative reordered RGB555 decode time, in nanoseconds.
    pub fn rgb555_reordered_nanos(&self) -> (r: u64)
        ensures
            r == self@[M_RGB555_REORDERED as int],
    {
        self.nanos(M_RGB555_REORDERED)
    }

    /// Cumulative UYVY decode time, in nanoseconds.
    pub fn uyvy_nanos(&self) -> (r: u64)
        ensures
            r == self@[M_UYVY as int],
    {
        self.nanos(M_UYVY)
    }

    /// Cumulative YCbCr 4:2:0 decode time, in nanoseconds.
    pub fn ycbcr420_nanos(&self) -> (r: u64)
        ensures
            r == self@[M_YCBCR420 as int],
    {
        self.nanos(M_YCBCR420)
    }

    /// Cumulative CLCL decode time, in nanoseconds.
    pub fn clcl_nanos(&self) -> (r: u64)
        ensures
            r == self@[M_CLCL as int],
    {
        self.nanos(M_CLCL)
    }

    /// Cumulative CL decode time, in nanoseconds.
    pub fn cl_nanos(&self) -> (r: u64)
        ensures
            r == self@[M_CL as int],
    {
        self.nanos(M_CL)
    }

    /// Cumulative JPEG decode time, in nanoseconds.
    pub fn jpeg_nanos(&self) -> (r: u64)
        ensures
            r == self@[M_JPEG as int],
    {
        self.nanos(M_JPEG)
    }
}

/// Recording never writes the reserved CLCL and CL counters, and leaves
/// every counter other than the format's own and the total unchanged.
pub proof fn lemma_record_touches_only_slot_and_total(c: Seq<u64>, encoding: Encoding, n: u64)
    requires
        c.len() == NUM_COUNTERS,
    ensures
        recorded(c, encoding, n).len() == NUM_COUNTERS,
        recorded(c, encoding, n)[M_CLCL as int] == c[M_CLCL as int],
        recorded(c, encoding, n)[M_CL as int] == c[M_CL as int],
        forall|i: int|
            0 <= i < NUM_COUNTERS && i != slot(encoding) && i != M_TOTAL ==> #[trigger] recorded(c, encoding, n)[i]
                == c[i],
{
}

/// Without wrap-around, the total counter is the sum of the per-format
/// counters: recording keeps that balance.
pub proof fn lemma_record_keeps_total(c: Seq<u64>, encoding: Encoding, n: u64)
    requires
        c.len() == NUM_COUNTERS,
        c[M_TOTAL as int] == c[0] + c[1] + c[2] + c[3] + c[4] + c[5] + c[6] + c[7],
        c[M_TOTAL as int] + n <= u64::MAX,
    ensures
        ({
            let d = recorded(c, encoding, n);
            d[M_TOTAL as int] == d[0] + d[1] + d[2] + d[3] + d[4] + d[5] + d[6] + d[7]
        }),
{
}

} // verus!
