//! Progress of a file transfer: how much is done, and how long the rest takes.

use crate::message::StreamTag;
use vstd::prelude::*;

verus! {

#[derive(Clone, Copy, Debug, PartialEq, Eq, Structural)]
pub struct ProgressTracker {
    pub tag: StreamTag,
    pub total_bytes: u64,
    pub done_bytes: u64,
    pub file_count: u32,
    pub files_done: u32,
    /// The throughput, which the daemon measures.
    pub bytes_per_sec: u64,
}

/// The smaller of two numbers.
pub open spec fn least(a: int, b: int) -> int {
    if a <= b {
        a
    } else {
        b
    }
}

impl ProgressTracker {
    /// No more is done than there is.
    pub open spec fn wf(self) -> bool {
        self.done_bytes <= self.total_bytes && self.files_done <= self.file_count
    }

    /// The state after more bytes.
    pub open spec fn advanced(self, bytes: u64) -> ProgressTracker {
        ProgressTracker {
            done_bytes: least(self.done_bytes + bytes, self.total_bytes as int) as u64,
            ..self
        }
    }

    /// The state after one more file.
    pub open spec fn completed(self) -> ProgressTracker {
        ProgressTracker {
            files_done: least(self.files_done + 1, self.file_count as int) as u32,
            ..self
        }
    }

    /// The share that is done.
    pub open spec fn share(self) -> (u64, u64) {
        if self.total_bytes == 0 {
            if self.files_done >= self.file_count {
                (1u64, 1u64)
            } else {
                (0u64, 1u64)
            }
        } else {
            (self.done_bytes, self.total_bytes)
        }
    }

    /// How long the rest takes.
    pub open spec fn rest_secs(self) -> Option<u64> {
        if self.bytes_per_sec == 0 {
            None
        } else if self.total_bytes <= self.done_bytes {
            Some(0u64)
        } else {
            Some(((self.total_bytes - self.done_bytes) / self.bytes_per_sec as int) as u64)
        }
    }

    pub fn new(tag: StreamTag, total_bytes: u64, file_count: u32) -> (p: Self)
        ensures
            p == (ProgressTracker {
                tag,
                total_bytes,
                done_bytes: 0,
                file_count,
                files_done: 0,
                bytes_per_sec: 0,
            }),
            p.wf(),
    {
        ProgressTracker { tag, total_bytes, done_bytes: 0, file_count, files_done: 0, bytes_per_sec: 0 }
    }

    /// Counts bytes that arrived, up to the total.
    pub fn advance(&mut self, bytes: u64)
        ensures
            *final(self) == old(self).advanced(bytes),
            old(self).wf() ==> final(self).wf(),
    {
        self.done_bytes = match self.done_bytes.checked_add(bytes) {
            Some(sum) => if sum <= self.total_bytes {
                sum
            } else {
                self.total_bytes
            },
            None => self.total_bytes,
        };
    }

    /// Counts a file that is complete, up to the number of files.
    pub fn complete_file(&mut self)
        ensures
            *final(self) == old(self).completed(),
            old(self).wf() ==> final(self).wf(),
    {
        self.files_done = if self.files_done < self.file_count {
            self.files_done + 1
        } else {
            self.file_count
        };
    }

    /// The share that is done, as numerator and denominator. A transfer without
    /// bytes is done once its files are.
    pub fn fraction(&self) -> (r: (u64, u64))
        ensures
            r == self.share(),
            r.1 > 0,
            self.wf() ==> r.0 <= r.1,
    {
        if self.total_bytes == 0 {
            if self.files_done >= self.file_count {
                (1, 1)
            } else {
                (0, 1)
            }
        } else {
            (self.done_bytes, self.total_bytes)
        }
    }

    /// Whole seconds that the rest takes, once the throughput is known.
    pub fn eta_secs(&self) -> (r: Option<u64>)
        ensures
            r == self.rest_secs(),
    {
        if self.bytes_per_sec == 0 {
            return None;
        }
        let remaining: u64 = if self.total_bytes > self.done_bytes {
            self.total_bytes - self.done_bytes
        } else {
            0
        };
        Some(remaining / self.bytes_per_sec)
    }
}

/// A transfer is done by the share of its bytes that arrived, and one without bytes once
/// its files are complete.
pub proof fn law_shares_go_by_bytes(p: ProgressTracker)
    requires
        p.wf(),
    ensures
        p.total_bytes > 0 ==> p.share().0 == p.done_bytes && p.share().1 == p.total_bytes,
        p.share().0 == p.share().1 <==> if p.total_bytes > 0 {
            p.done_bytes == p.total_bytes
        } else {
            p.files_done == p.file_count
        },
        p.total_bytes == 0 && p.files_done < p.file_count ==> p.share().0 == 0,
{
}

/// In the seconds that are told for the rest no more than the rest arrives, and one second
/// more would be too many; nothing is told before the throughput is known.
pub proof fn law_the_rest_takes_as_long_as_told(p: ProgressTracker)
    requires
        p.wf(),
    ensures
        p.bytes_per_sec == 0 <==> p.rest_secs() is None,
        p.rest_secs() matches Some(s) ==> {
            let rest = p.total_bytes - p.done_bytes;
            s * p.bytes_per_sec <= rest < (s + 1) * p.bytes_per_sec
        },
{
    if p.bytes_per_sec > 0 {
        let rest = p.total_bytes - p.done_bytes;
        let rate = p.bytes_per_sec as int;
        let q = rest / rate;
        assert(q * rate <= rest < (q + 1) * rate) by (nonlinear_arith)
            requires
                rate > 0,
                q == rest / rate,
        ;
        assert(0 <= q <= rest) by (nonlinear_arith)
            requires
                rate > 0,
                rest >= 0,
                q == rest / rate,
        ;
        if rest == 0 {
            assert(q == 0) by (nonlinear_arith)
                requires
                    rate > 0,
                    q == 0int / rate,
            ;
        }
    }
}

/// The smaller of two numbers is one of them and not above the other.
pub proof fn law_the_smaller_of_two(a: int, b: int)
    ensures
        least(a, b) <= a,
        least(a, b) <= b,
        least(a, b) == a || least(a, b) == b,
{
}

/// Bytes and files add up, never beyond what there is, and count apart from each other.
pub proof fn law_progress_adds_up(p: ProgressTracker, a: u64, b: u64)
    requires
        p.wf(),
        a + b <= u64::MAX,
    ensures
        p.done_bytes + a <= p.total_bytes ==> p.advanced(a).done_bytes == p.done_bytes + a,
        p.done_bytes + a > p.total_bytes ==> p.advanced(a).done_bytes == p.total_bytes,
        p.advanced(a).advanced(b) == p.advanced((a + b) as u64),
        p.advanced(a).files_done == p.files_done && p.advanced(a).total_bytes == p.total_bytes,
        p.files_done < p.file_count ==> p.completed().files_done == p.files_done + 1,
        p.files_done == p.file_count ==> p.completed().files_done == p.file_count,
        p.completed().done_bytes == p.done_bytes,
{
}

} // verus!
