//! Progress tracking: plain counters for scans, and a rolling
//! time-windowed throughput history for time-remaining estimates. Time is
//! supplied by the caller in milliseconds, so the estimates are a function
//! of the recorded samples alone.

use vstd::prelude::*;
use crate::text::dec_of;

verus! {

/// Samples older than this many milliseconds are evicted from the
/// throughput history.
pub const SAMPLE_WINDOW_MS: u64 = 10000;

/// A throughput estimate needs at least this much elapsed time between
/// its first and last sample, in milliseconds.
pub const MIN_SAMPLE_SPAN_MS: u64 = 100;

/// Tracks progress during a file system scan.
#[derive(Debug, Clone, Copy, PartialEq, Eq, Structural)]
pub struct ScanProgress {
    /// Number of files scanned
    pub files_scanned: usize,
    /// Total bytes scanned
    pub bytes_scanned: u64,
    /// Number of directories visited
    pub directories_visited: usize,
}

/// A snapshot of scan progress.
#[derive(Debug, Clone, Copy, PartialEq, Eq, Structural)]
pub struct ProgressReport {
    /// Number of files scanned
    pub files: usize,
    /// Total bytes scanned
    pub bytes: u64,
    /// Number of directories visited
    pub dirs: usize,
}

impl Default for ScanProgress {
    /// All counters start at zero.
    fn default() -> (r: Self)
        ensures
            r == (ScanProgress { files_scanned: 0, bytes_scanned: 0, directories_visited: 0 }),
    {
        Self { files_scanned: 0, bytes_scanned: 0, directories_visited: 0 }
    }
}

impl ScanProgress {
    /// Creates a new ScanProgress tracker with all counters at zero.
    pub fn new() -> (r: Self)
        ensures
            r == (ScanProgress { files_scanned: 0, bytes_scanned: 0, directories_visited: 0 }),
    {
        Self { files_scanned: 0, bytes_scanned: 0, directories_visited: 0 }
    }

    /// Increments the file count and adds to the byte count, saturating
    /// at the counters' maxima.
    pub fn increment_file(&mut self, size: u64)
        ensures
            final(self).files_scanned == sat_add_usize(old(self).files_scanned, 1),
            final(self).bytes_scanned == sat_add_u64(old(self).bytes_scanned, size),
            final(self).directories_visited == old(self).directories_visited,
    {
        if self.files_scanned < usize::MAX {
            self.files_scanned = self.files_scanned + 1;
        }
        if self.bytes_scanned <= u64::MAX - size {
            self.bytes_scanned = self.bytes_scanned + size;
        } else {
            self.bytes_scanned = u64::MAX;
        }
    }

    /// Increments the directory count, saturating at the counter's
    /// maximum.
    pub fn increment_directory(&mut self)
        ensures
            final(self).directories_visited == sat_add_usize(old(self).directories_visited, 1),
            final(self).files_scanned == old(self).files_scanned,
            final(self).bytes_scanned == old(self).bytes_scanned,
    {
        if self.directories_visited < usize::MAX {
            self.directories_visited = self.directories_visited + 1;
        }
    }

    /// Returns a snapshot of the current progress.
    pub fn report(&self) -> (r: ProgressReport)
        ensures
            r.files == self.files_scanned,
            r.bytes == self.bytes_scanned,
            r.dirs == self.directories_visited,
    {
        ProgressReport {
            files: self.files_scanned,
            bytes: self.bytes_scanned,
            dirs: self.directories_visited,
        }
    }

    /// Resets all counters to zero.
    pub fn reset(&mut self)
        ensures
            *final(self) == (ScanProgress {
                files_scanned: 0,
                bytes_scanned: 0,
                directories_visited: 0,
            }),
    {
        self.files_scanned = 0;
        self.bytes_scanned = 0;
        self.directories_visited = 0;
    }
}

/// Addition on `usize` saturating at `usize::MAX`.
pub open spec fn sat_add_usize(a: usize, b: usize) -> usize {
    if a + b <= usize::MAX {
        (a + b) as usize
    } else {
        usize::MAX
    }
}

/// Addition on `u64` saturating at `u64::MAX`.
pub open spec fn sat_add_u64(a: u64, b: u64) -> u64 {
    if a + b <= u64::MAX {
        (a + b) as u64
    } else {
        u64::MAX
    }
}

/// Progress with a time-remaining estimate from a bounded, time-windowed
/// history of (time, items processed) samples.
#[derive(Debug)]
pub struct AdvancedProgress {
    total: u64,
    processed: u64,
    start_ms: u64,
    samples: Vec<(u64, u64)>,
}

/// Mathematical model of an [`AdvancedProgress`].
pub struct AdvancedProgressV {
    pub total: u64,
    pub processed: u64,
    pub start_ms: u64,
    pub samples: Seq<(u64, u64)>,
}

impl View for AdvancedProgress {
    type V = AdvancedProgressV;

    closed spec fn view(&self) -> AdvancedProgressV {
        AdvancedProgressV {
            total: self.total,
            processed: self.processed,
            start_ms: self.start_ms,
            samples: self.samples@,
        }
    }
}

/// The throughput window: milliseconds spanned and items processed
/// between the first and the last retained sample.
pub open spec fn spec_window(v: AdvancedProgressV) -> (int, int) {
    if v.samples.len() < 2 {
        (0, 0)
    } else {
        (
            v.samples.last().0 - v.samples.first().0,
            v.samples.last().1 - v.samples.first().1,
        )
    }
}

/// The estimated seconds remaining: the retained window's rate applied
/// to the items left. `None` until two samples at least
/// [`MIN_SAMPLE_SPAN_MS`] apart show positive progress.
pub open spec fn spec_eta_secs(v: AdvancedProgressV) -> Option<u64> {
    let (span_ms, items) = spec_window(v);
    if v.samples.len() < 2 || span_ms < MIN_SAMPLE_SPAN_MS as int || items <= 0 {
        None
    } else {
        let remaining = if v.total >= v.processed {
            v.total - v.processed
        } else {
            0
        };
        let eta = remaining * span_ms / items / 1000;
        if eta > u64::MAX as int {
            Some(u64::MAX)
        } else {
            Some(eta as u64)
        }
    }
}

/// The rendering of an estimate: seconds under a minute, minutes and
/// seconds under an hour, hours and minutes beyond.
pub open spec fn spec_format_eta(eta: Option<u64>) -> Seq<char> {
    match eta {
        None => "calculating..."@,
        Some(s) => if s < 60 {
            dec_of(s as int) + "s"@
        } else if s < 3600 {
            dec_of((s / 60) as int) + "m "@ + dec_of((s % 60) as int) + "s"@
        } else {
            dec_of((s / 3600) as int) + "h "@ + dec_of(((s % 3600) / 60) as int) + "m"@
        },
    }
}

/// The eviction cutoff for a sample recorded now: times older than the
/// retention window fall away.
pub open spec fn spec_cutoff(now_ms: u64) -> u64 {
    if now_ms >= SAMPLE_WINDOW_MS {
        (now_ms - SAMPLE_WINDOW_MS) as u64
    } else {
        0u64
    }
}

/// Eviction from the front: samples older than the cutoff are dropped,
/// but the newest sample always stays.
pub open spec fn spec_evict(samples: Seq<(u64, u64)>, cutoff: u64) -> Seq<(u64, u64)>
    decreases samples.len(),
{
    if samples.len() <= 1 {
        samples
    } else if samples[0].0 < cutoff {
        spec_evict(samples.skip(1), cutoff)
    } else {
        samples
    }
}

/// Recording one sample: append (time, items processed), then evict by
/// the timestamp cutoff.
pub open spec fn spec_record_sample(
    samples: Seq<(u64, u64)>,
    now_ms: u64,
    processed: u64,
) -> Seq<(u64, u64)> {
    spec_evict(samples.push((now_ms, processed)), spec_cutoff(now_ms))
}

impl AdvancedProgress {
    /// Creates a new tracker started at the given time.
    pub fn new(now_ms: u64) -> (r: Self)
        ensures
            r@.total == 0,
            r@.processed == 0,
            r@.start_ms == now_ms,
            r@.samples == Seq::<(u64, u64)>::empty(),
    {
        Self { total: 0, processed: 0, start_ms: now_ms, samples: Vec::new() }
    }

    /// Sets the total number of items to process.
    pub fn set_total(&mut self, total: u64)
        ensures
            final(self)@.total == total,
            final(self)@.processed == old(self)@.processed,
            final(self)@.start_ms == old(self)@.start_ms,
            final(self)@.samples == old(self)@.samples,
    {
        self.total = total;
    }

    /// Returns the number of items processed.
    pub fn get_processed(&self) -> (r: u64)
        ensures
            r == self@.processed,
    {
        self.processed
    }

    /// Returns the total number of items.
    pub fn get_total(&self) -> (r: u64)
        ensures
            r == self@.total,
    {
        self.total
    }

    /// The milliseconds elapsed since the tracker started.
    pub fn elapsed(&self, now_ms: u64) -> (r: u64)
        ensures
            r == if now_ms >= self@.start_ms {
                (now_ms - self@.start_ms) as u64
            } else {
                0u64
            },
    {
        if now_ms >= self.start_ms {
            now_ms - self.start_ms
        } else {
            0
        }
    }

    /// Increments the processed count by one; every hundredth item
    /// records a throughput sample at the given time.
    pub fn increment(&mut self, now_ms: u64)
        ensures
            final(self)@.processed == sat_add_u64(old(self)@.processed, 1),
            final(self)@.total == old(self)@.total,
            final(self)@.start_ms == old(self)@.start_ms,
            final(self)@.samples == if sat_add_u64(old(self)@.processed, 1) % 100 == 0 {
                spec_record_sample(
                    old(self)@.samples,
                    now_ms,
                    sat_add_u64(old(self)@.processed, 1),
                )
            } else {
                old(self)@.samples
            },
    {
        if self.processed < u64::MAX {
            self.processed = self.processed + 1;
        }
        if self.processed % 100 == 0 {
            self.record_sample(now_ms);
        }
    }

    /// Increments the processed count by the given amount and records a
    /// throughput sample at the given time.
    pub fn increment_by(&mut self, amount: u64, now_ms: u64)
        ensures
            final(self)@.processed == sat_add_u64(old(self)@.processed, amount),
            final(self)@.total == old(self)@.total,
            final(self)@.start_ms == old(self)@.start_ms,
            final(self)@.samples == spec_record_sample(
                old(self)@.samples,
                now_ms,
                sat_add_u64(old(self)@.processed, amount),
            ),
    {
        if self.processed <= u64::MAX - amount {
            self.processed = self.processed + amount;
        } else {
            self.processed = u64::MAX;
        }
        self.record_sample(now_ms);
    }

    /// Appends a (time, items) sample and evicts samples older than the
    /// retention window; the newest sample always stays.
    fn record_sample(&mut self, now_ms: u64)
        ensures
            final(self)@.processed == old(self)@.processed,
            final(self)@.total == old(self)@.total,
            final(self)@.start_ms == old(self)@.start_ms,
            final(self)@.samples == spec_record_sample(
                old(self)@.samples,
                now_ms,
                old(self)@.processed,
            ),
    {
        self.samples.push((now_ms, self.processed));
        let cutoff = if now_ms >= SAMPLE_WINDOW_MS {
            now_ms - SAMPLE_WINDOW_MS
        } else {
            0
        };
        let mut fuel: usize = self.samples.len();
        while fuel > 0
            invariant_except_break
                fuel + 1 >= self.samples@.len(),
            invariant
                self.samples@.len() >= 1,
                cutoff == spec_cutoff(now_ms),
                spec_evict(self.samples@, cutoff) == spec_record_sample(
                    old(self)@.samples,
                    now_ms,
                    old(self)@.processed,
                ),
                self.processed == old(self)@.processed,
                self.total == old(self)@.total,
                self.start_ms == old(self)@.start_ms,
            ensures
                self.samples@ == spec_record_sample(
                    old(self)@.samples,
                    now_ms,
                    old(self)@.processed,
                ),
                self.processed == old(self)@.processed,
                self.total == old(self)@.total,
                self.start_ms == old(self)@.start_ms,
            decreases fuel,
        {
            fuel = fuel - 1;
            if self.samples.len() <= 1 {
                break;
            }
            let keep = first_sample_time(&self.samples) >= cutoff;
            if keep {
                break;
            }
            let ghost before = self.samples@;
            self.samples.remove(0);
            proof {
                assert(self.samples@ =~= before.skip(1));
            }
        }
    }

    /// Estimates the seconds remaining until completion, from the
    /// retained throughput window.
    pub fn estimate_eta(&self) -> (r: Option<u64>)
        ensures
            r == spec_eta_secs(self@),
    {
        let n = self.samples.len();
        if n < 2 {
            return None;
        }
        let (t0, i0) = sample_at(&self.samples, 0);
        let (t1, i1) = sample_at(&self.samples, n - 1);
        proof {
            assert(self@.samples.first() == self@.samples[0]);
            assert(self@.samples.last() == self@.samples[n - 1 as int]);
        }
        if t1 < t0 {
            proof {
                assert(spec_window(self@).0 < 0);
            }
            return None;
        }
        let span_ms = t1 - t0;
        if span_ms < MIN_SAMPLE_SPAN_MS {
            return None;
        }
        if i1 <= i0 {
            return None;
        }
        let items = i1 - i0;
        let remaining = if self.total >= self.processed {
            self.total - self.processed
        } else {
            0
        };
        proof {
            assert((remaining as int) * (span_ms as int) <= u128::MAX) by (nonlinear_arith)
                requires
                    remaining <= u64::MAX,
                    span_ms <= u64::MAX,
            ;
        }
        let eta_wide = (remaining as u128) * (span_ms as u128) / (items as u128) / 1000u128;
        if eta_wide > u64::MAX as u128 {
            Some(u64::MAX)
        } else {
            Some(eta_wide as u64)
        }
    }

    /// Formats the time-remaining estimate as a human-readable string.
    pub fn format_eta(&self) -> (r: String)
        ensures
            r@ == spec_format_eta(spec_eta_secs(self@)),
    {
        match self.estimate_eta() {
            None => String::from_str("calculating..."),
            Some(s) => {
                if s < 60 {
                    let mut out = crate::text::u64_to_dec(s);
                    out.append("s");
                    out
                } else if s < 3600 {
                    let mut out = crate::text::u64_to_dec(s / 60);
                    out.append("m ");
                    let sec = crate::text::u64_to_dec(s % 60);
                    out.append(sec.as_str());
                    out.append("s");
                    out
                } else {
                    let mut out = crate::text::u64_to_dec(s / 3600);
                    out.append("h ");
                    let mins = crate::text::u64_to_dec((s % 3600) / 60);
                    out.append(mins.as_str());
                    out.append("m");
                    out
                }
            },
        }
    }
}

/// Reads the time of the first retained sample.
fn first_sample_time(samples: &Vec<(u64, u64)>) -> (r: u64)
    requires
        samples@.len() > 0,
    ensures
        r == samples@[0].0,
{
    let (t, _) = samples[0];
    t
}

/// Reads one sample.
fn sample_at(samples: &Vec<(u64, u64)>, k: usize) -> (r: (u64, u64))
    requires
        k < samples@.len(),
    ensures
        r == samples@[k as int],
{
    let (t, i) = samples[k];
    (t, i)
}

} // verus!
