//! The decisions of a streaming archive download: the size that the server
//! announces, the bytes counted so far and when progress is reported.

use vstd::prelude::*;
use vstd::string::*;
use crate::events::{DownloadState, DownloadStatus, DownloadStatusView};
use crate::firmware::{FlashError, FlashErrorView, PROGRESS_UPDATE_INTERVAL_MS};
use crate::text::chars_of;

verus! {

/// Whether `c` is an ASCII decimal digit.
pub open spec fn is_digit(c: char) -> bool {
    48 <= c as u32 <= 57
}

/// Whether every character of `text` is an ASCII decimal digit.
pub open spec fn all_digits(text: Seq<char>) -> bool {
    forall|i: int| 0 <= i < text.len() ==> is_digit(#[trigger] text[i])
}

/// The number that a run of decimal digits writes.
pub open spec fn digits_value(digits: Seq<char>) -> nat
    decreases digits.len(),
{
    if digits.len() == 0 {
        0
    } else {
        digits_value(digits.drop_last()) * 10 + ((digits.last() as u32 - 48) as nat)
    }
}

/// The number that `text` writes in decimal, as `u64::from_str` reads it: an
/// optional `+`, then one or more digits whose value fits in 64 bits.
pub open spec fn parsed_u64(text: Seq<char>) -> Option<u64> {
    let digits = if text.len() > 0 && text[0] == '+' {
        text.drop_first()
    } else {
        text
    };
    if digits.len() > 0 && all_digits(digits) && digits_value(digits) <= u64::MAX {
        Some(digits_value(digits) as u64)
    } else {
        None
    }
}

/// The total size that a `content-length` header announces: its value where
/// the header is present and reads as a number, and 0 otherwise.
pub open spec fn announced_size(header: Option<Seq<char>>) -> u64 {
    match header {
        Some(text) => match parsed_u64(text) {
            Some(size) => size,
            None => 0,
        },
        None => 0,
    }
}

proof fn lemma_digits_value_grows(digits: Seq<char>, k: int)
    requires
        0 <= k <= digits.len(),
        all_digits(digits),
    ensures
        digits_value(digits.take(k)) <= digits_value(digits),
    decreases digits.len() - k,
{
    if k < digits.len() {
        lemma_digits_value_grows(digits, k + 1);
        assert(digits.take(k + 1).drop_last() == digits.take(k));
        assert(is_digit(digits[k]));
    } else {
        assert(digits.take(k) == digits);
    }
}

/// Reads a decimal number as `u64::from_str` does.
pub fn parse_u64(text: &str) -> (value: Option<u64>)
    ensures
        value == parsed_u64(text@),
{
    let chars = chars_of(text);
    let start: usize = if chars.len() > 0 && chars[0] == '+' {
        1
    } else {
        0
    };
    let ghost digits = chars@.skip(start as int);
    assert(digits == if text@.len() > 0 && text@[0] == '+' {
        text@.drop_first()
    } else {
        text@
    });
    if chars.len() == start {
        return None;
    }
    let mut value: u64 = 0;
    let mut i: usize = start;
    assert(digits.take(0) == Seq::<char>::empty());
    while i < chars.len()
        invariant
            start <= i <= chars.len(),
            digits == chars@.skip(start as int),
            digits.len() > 0,
            parsed_u64(text@) == if all_digits(digits) && digits_value(digits) <= u64::MAX {
                Some(digits_value(digits) as u64)
            } else {
                None
            },
            all_digits(digits.take(i - start)),
            value == digits_value(digits.take(i - start)),
        decreases chars.len() - i,
    {
        let c = chars[i];
        let n: u32 = c as u32;
        assert(digits[i - start] == c);
        if n < 48 || n > 57 {
            assert(!is_digit(digits[i - start]));
            return None;
        }
        let d: u64 = (n - 48) as u64;
        let ghost next = digits.take(i - start + 1);
        assert(next.drop_last() == digits.take(i - start));
        assert(next.last() == c);
        assert(all_digits(next)) by {
            assert forall|j: int| 0 <= j < next.len() implies is_digit(#[trigger] next[j]) by {
                if j < next.len() - 1 {
                    assert(next[j] == digits.take(i - start)[j]);
                }
            }
        }
        if value > (u64::MAX - d) / 10 {
            proof {
                assert(digits_value(next) > u64::MAX);
                if all_digits(digits) {
                    lemma_digits_value_grows(digits, i - start + 1);
                }
            }
            return None;
        }
        value = value * 10 + d;
        i = i + 1;
    }
    assert(digits.take(i - start) == digits);
    Some(value)
}

/// The total size that a `content-length` header announces, or 0 where the
/// header is absent or does not read as a number.
pub fn content_length_size(header: Option<&str>) -> (size: u64)
    ensures
        size == announced_size(
            match header {
                Some(text) => Some(text@),
                None => None,
            },
        ),
{
    match header {
        Some(text) => match parse_u64(text) {
            Some(size) => size,
            None => 0,
        },
        None => 0,
    }
}

/// The running state of a download.
#[derive(Debug, Clone, Copy, PartialEq, Eq, Structural)]
pub struct DownloadProgress {
    /// The bytes received so far.
    pub bytes_downloaded: u32,
    /// The total size that the server announced, or 0.
    pub size: u64,
    /// When progress was last reported, in milliseconds of a steady clock.
    pub last_update_ms: u64,
}

/// Whether a chunk of `chunk_len` bytes still fits the byte counter.
pub open spec fn chunk_fits(progress: DownloadProgress, chunk_len: int) -> bool {
    progress.bytes_downloaded + chunk_len <= u32::MAX
}

/// Whether enough time has passed at `now_ms` to report progress again.
pub open spec fn update_due(progress: DownloadProgress, now_ms: u64) -> bool {
    now_ms - progress.last_update_ms >= PROGRESS_UPDATE_INTERVAL_MS
}

/// The progress after a chunk that fits has arrived at `now_ms`.
pub open spec fn progress_after(
    progress: DownloadProgress,
    chunk_len: int,
    now_ms: u64,
) -> DownloadProgress {
    DownloadProgress {
        bytes_downloaded: (progress.bytes_downloaded + chunk_len) as u32,
        size: progress.size,
        last_update_ms: if update_due(progress, now_ms) {
            now_ms
        } else {
            progress.last_update_ms
        },
    }
}

/// The status that reports a download under way.
pub open spec fn running_status(progress: DownloadProgress) -> DownloadStatusView {
    DownloadStatusView {
        bytes_downloaded: progress.bytes_downloaded,
        log: None,
        size: progress.size,
        state: DownloadState::Downloading,
    }
}

/// The status that reports a finished download.
pub open spec fn complete_status(progress: DownloadProgress) -> DownloadStatusView {
    DownloadStatusView {
        bytes_downloaded: progress.bytes_downloaded,
        log: Some("Download complete"@),
        size: progress.size,
        state: DownloadState::Complete,
    }
}

impl DownloadProgress {
    /// The state of a download that starts at `now_ms` and whose total size
    /// was announced as `size`.
    pub fn start(size: u64, now_ms: u64) -> (progress: Self)
        ensures
            progress == (DownloadProgress { bytes_downloaded: 0, size, last_update_ms: now_ms }),
    {
        DownloadProgress { bytes_downloaded: 0, size, last_update_ms: now_ms }
    }

    /// Counts a chunk that arrived at `now_ms`. Fails, leaving the state as
    /// it was, where the byte counter cannot hold the new total. Otherwise
    /// returns the status to report, if the last report is at least the
    /// update interval old, and remembers the time of that report.
    pub fn record_chunk(&mut self, chunk_len: usize, now_ms: u64) -> (result: Result<
        Option<DownloadStatus>,
        FlashError,
    >)
        ensures
            match result {
                Ok(report) => {
                    &&& chunk_fits(*old(self), chunk_len as int)
                    &&& *final(self) == progress_after(*old(self), chunk_len as int, now_ms)
                    &&& match report {
                        Some(status) => update_due(*old(self), now_ms) && status@
                            == running_status(*final(self)),
                        None => !update_due(*old(self), now_ms),
                    }
                },
                Err(error) => {
                    &&& !chunk_fits(*old(self), chunk_len as int)
                    &&& *final(self) == *old(self)
                    &&& error@ == FlashErrorView::DownloadTooLarge
                },
            },
    {
        if chunk_len > u32::MAX as usize {
            return Err(FlashError::DownloadTooLarge);
        }
        let chunk: u32 = chunk_len as u32;
        if chunk > u32::MAX - self.bytes_downloaded {
            return Err(FlashError::DownloadTooLarge);
        }
        self.bytes_downloaded = self.bytes_downloaded + chunk;
        if now_ms >= self.last_update_ms && now_ms - self.last_update_ms
            >= PROGRESS_UPDATE_INTERVAL_MS {
            self.last_update_ms = now_ms;
            Ok(
                Some(
                    DownloadStatus {
                        bytes_downloaded: self.bytes_downloaded,
                        log: None,
                        size: self.size,
                        state: DownloadState::Downloading,
                    },
                ),
            )
        } else {
            Ok(None)
        }
    }

    /// The status that reports the end of the download.
    pub fn finish(&self) -> (status: DownloadStatus)
        ensures
            status@ == complete_status(*self),
    {
        DownloadStatus {
            bytes_downloaded: self.bytes_downloaded,
            log: Some(String::from_str("Download complete")),
            size: self.size,
            state: DownloadState::Complete,
        }
    }
}

/// Progress is reported at most once per update interval: after a chunk
/// whose arrival was reported, no chunk that arrives less than the interval
/// later is reported, and the first that arrives at least the interval later
/// is.
pub proof fn lemma_reports_are_spaced(
    progress: DownloadProgress,
    first_len: int,
    first_ms: u64,
    second_len: int,
    second_ms: u64,
)
    requires
        update_due(progress, first_ms),
    ensures
        update_due(progress_after(progress, first_len, first_ms), second_ms) <==> second_ms
            - first_ms >= PROGRESS_UPDATE_INTERVAL_MS,
        !update_due(progress_after(progress, first_len, first_ms), second_ms)
            ==> progress_after(
            progress_after(progress, first_len, first_ms),
            second_len,
            second_ms,
        ).last_update_ms == first_ms,
{
}

} // verus!
