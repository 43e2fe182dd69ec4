//! Run statistics and the number formatting of the summary report.
//!
//! The counters are plain integers with exact contracts; the folding of
//! per-file results into them lives in `crate::pipeline`. The formatting
//! functions render byte counts and durations without floating point:
//! a quantity scaled to a unit is carried as a whole number of hundredths,
//! rounded half to even as the standard decimal formatter rounds.

use vstd::prelude::*;
use vstd::string::*;

verus! {

/// Bytes per kibibyte.
pub const KB: u64 = 1024;

/// Bytes per mebibyte.
pub const MB: u64 = 1024 * 1024;

/// Bytes per gibibyte.
pub const GB: u64 = 1024 * 1024 * 1024;

/// The decimal digit character for a value below ten.
pub open spec fn char_of_digit(d: int) -> char {
    if d == 0 {
        '0'
    } else if d == 1 {
        '1'
    } else if d == 2 {
        '2'
    } else if d == 3 {
        '3'
    } else if d == 4 {
        '4'
    } else if d == 5 {
        '5'
    } else if d == 6 {
        '6'
    } else if d == 7 {
        '7'
    } else if d == 8 {
        '8'
    } else {
        '9'
    }
}

/// The decimal digits of a number, most significant first.
pub open spec fn dec_digits(n: nat) -> Seq<char>
    decreases n,
{
    if n < 10 {
        seq![char_of_digit(n as int)]
    } else {
        dec_digits(n / 10) + seq![char_of_digit((n % 10) as int)]
    }
}

/// A number below one hundred as exactly two digits.
pub open spec fn two_digits(n: nat) -> Seq<char> {
    seq![char_of_digit((n / 10) as int), char_of_digit((n % 10) as int)]
}

/// A number below one thousand as exactly three digits.
pub open spec fn three_digits(n: nat) -> Seq<char> {
    seq![char_of_digit((n / 100) as int), char_of_digit(((n / 10) % 10) as int), char_of_digit(
        (n % 10) as int,
    )]
}

/// `num / den` rounded to the nearest whole number, ties to the even
/// neighbour: how the standard decimal formatter rounds.
pub open spec fn round_half_even(num: int, den: int) -> int {
    let q = num / den;
    let r = num % den;
    if 2 * r < den {
        q
    } else if 2 * r > den {
        q + 1
    } else if q % 2 == 0 {
        q
    } else {
        q + 1
    }
}

/// A byte count scaled to a unit, in hundredths of that unit.
pub open spec fn scaled_hundredths(bytes: nat, unit: nat) -> int {
    round_half_even((bytes * 100) as int, unit as int)
}

/// A count of hundredths written as a decimal fraction: `d.dd`.
pub open spec fn hundredths_text(h: int) -> Seq<char> {
    dec_digits((h / 100) as nat) + "."@ + two_digits((h % 100) as nat)
}

/// A byte count made readable: scaled to the largest of GB, MB and KB
/// that it reaches, with two decimals, or as plain bytes below one KB.
pub open spec fn format_bytes_spec(bytes: nat) -> Seq<char> {
    if bytes >= GB {
        hundredths_text(scaled_hundredths(bytes, GB as nat)) + " GB"@
    } else if bytes >= MB {
        hundredths_text(scaled_hundredths(bytes, MB as nat)) + " MB"@
    } else if bytes >= KB {
        hundredths_text(scaled_hundredths(bytes, KB as nat)) + " KB"@
    } else {
        dec_digits(bytes) + " B"@
    }
}

/// A duration in milliseconds made readable: hours and minutes, minutes
/// and seconds, seconds with milliseconds, or milliseconds alone.
pub open spec fn format_duration_spec(ms: nat) -> Seq<char> {
    let secs = ms / 1000;
    let millis = ms % 1000;
    if secs >= 3600 {
        dec_digits(secs / 3600) + "시간 "@ + dec_digits((secs % 3600) / 60) + "분"@
    } else if secs >= 60 {
        dec_digits(secs / 60) + "분 "@ + dec_digits(secs % 60) + "초"@
    } else if secs > 0 {
        dec_digits(secs) + "."@ + three_digits(millis) + "초"@
    } else {
        dec_digits(millis) + "ms"@
    }
}

/// The one-character text of a decimal digit.
fn digit_str(d: u64) -> (r: &'static str)
    requires
        d < 10,
    ensures
        r@ == seq![char_of_digit(d as int)],
{
    let r: &'static str = if d == 0 {
        "0"
    } else if d == 1 {
        "1"
    } else if d == 2 {
        "2"
    } else if d == 3 {
        "3"
    } else if d == 4 {
        "4"
    } else if d == 5 {
        "5"
    } else if d == 6 {
        "6"
    } else if d == 7 {
        "7"
    } else if d == 8 {
        "8"
    } else {
        "9"
    };
    proof {
        reveal_strlit("0");
        reveal_strlit("1");
        reveal_strlit("2");
        reveal_strlit("3");
        reveal_strlit("4");
        reveal_strlit("5");
        reveal_strlit("6");
        reveal_strlit("7");
        reveal_strlit("8");
        reveal_strlit("9");
        assert(r@ =~= seq![char_of_digit(d as int)]);
    }
    r
}

/// A number rendered in decimal.
pub fn u64_to_dec(n: u64) -> (r: String)
    ensures
        r@ == dec_digits(n as nat),
    decreases n,
{
    if n < 10 {
        digit_str(n).to_owned()
    } else {
        let mut s = u64_to_dec(n / 10);
        s.append(digit_str(n % 10));
        s
    }
}

/// A number below one hundred rendered as two digits.
fn two_digit_str(n: u64) -> (r: String)
    requires
        n < 100,
    ensures
        r@ == two_digits(n as nat),
{
    let mut s = digit_str(n / 10).to_owned();
    s.append(digit_str(n % 10));
    proof {
        assert(s@ =~= two_digits(n as nat));
    }
    s
}

/// A number below one thousand rendered as three digits.
fn three_digit_str(n: u64) -> (r: String)
    requires
        n < 1000,
    ensures
        r@ == three_digits(n as nat),
{
    let mut s = digit_str(n / 100).to_owned();
    s.append(digit_str((n / 10) % 10));
    s.append(digit_str(n % 10));
    proof {
        assert(s@ =~= three_digits(n as nat));
    }
    s
}

/// The `d.dd` text of a byte count scaled to one unit.
fn hundredths_string(bytes: u64, unit: u64) -> (r: String)
    requires
        unit == KB || unit == MB || unit == GB,
    ensures
        r@ == hundredths_text(scaled_hundredths(bytes as nat, unit as nat)),
{
    let num: u128 = (bytes as u128) * 100;
    let den: u128 = unit as u128;
    let q: u128 = num / den;
    let rem: u128 = num % den;
    let h: u128 = if 2 * rem < den {
        q
    } else if 2 * rem > den {
        q + 1
    } else if q % 2 == 0 {
        q
    } else {
        q + 1
    };
    proof {
        assert(h == round_half_even(num as int, den as int));
        assert(h <= q + 1);
    }
    let whole: u64 = (h / 100) as u64;
    let frac: u64 = (h % 100) as u64;
    let mut s = u64_to_dec(whole);
    s.append(".");
    let fs = two_digit_str(frac);
    s.append(fs.as_str());
    proof {
        reveal_strlit(".");
        assert(s@ =~= hundredths_text(h as int));
    }
    s
}

/// Render a byte count in its largest reached unit with two decimals.
pub fn format_bytes(bytes: u64) -> (r: String)
    ensures
        r@ == format_bytes_spec(bytes as nat),
{
    if bytes >= GB {
        let mut s = hundredths_string(bytes, GB);
        s.append(" GB");
        s
    } else if bytes >= MB {
        let mut s = hundredths_string(bytes, MB);
        s.append(" MB");
        s
    } else if bytes >= KB {
        let mut s = hundredths_string(bytes, KB);
        s.append(" KB");
        s
    } else {
        let mut s = u64_to_dec(bytes);
        s.append(" B");
        s
    }
}

/// Render a duration given in milliseconds.
pub fn format_duration(ms: u64) -> (r: String)
    ensures
        r@ == format_duration_spec(ms as nat),
{
    let secs = ms / 1000;
    let millis = ms % 1000;
    if secs >= 3600 {
        let mut s = u64_to_dec(secs / 3600);
        s.append("시간 ");
        let m = u64_to_dec((secs % 3600) / 60);
        s.append(m.as_str());
        s.append("분");
        s
    } else if secs >= 60 {
        let mut s = u64_to_dec(secs / 60);
        s.append("분 ");
        let m = u64_to_dec(secs % 60);
        s.append(m.as_str());
        s.append("초");
        s
    } else if secs > 0 {
        let mut s = u64_to_dec(secs);
        s.append(".");
        let m = three_digit_str(millis);
        s.append(m.as_str());
        s.append("초");
        proof {
            reveal_strlit(".");
        }
        s
    } else {
        let mut s = u64_to_dec(millis);
        s.append("ms");
        s
    }
}

#[verifier::external_type_specification]
#[verifier::external_body]
pub struct ExInstant(std::time::Instant);

/// Relies on std::time::Instant::now: a moment of the monotonic clock.
/// The value depends on the clock, so nothing is promised of it.
#[verifier::external_body]
fn instant_now() -> std::time::Instant {
    std::time::Instant::now()
}

/// Relies on std::time::Instant::elapsed: how long ago the moment was,
/// here in whole milliseconds. The answer depends on the clock, so
/// nothing is promised of it.
#[verifier::external_body]
fn instant_elapsed_millis(start: &std::time::Instant) -> u64 {
    u64::try_from(start.elapsed().as_millis()).unwrap_or(u64::MAX)
}

/// The counters of one run. Workers report into one instance; the
/// orchestrator reads it after all files are folded in.
#[derive(Debug)]
pub struct Statistics {
    /// How many files the run set out to process.
    pub total_files: usize,
    /// Files converted (or found valid) so far.
    pub success_count: usize,
    /// Files that failed so far.
    pub error_count: usize,
    /// Bytes of source files read so far.
    pub total_bytes_read: u64,
    /// Bytes of output written so far.
    pub total_bytes_written: u64,
    /// Files that failed validation so far.
    pub validation_failed: usize,
    /// When the run started; nothing when the instance was not stamped.
    pub start_time: Option<std::time::Instant>,
}

impl Statistics {
    /// A fresh instance for a run over `total_files` files, stamped with
    /// the current moment.
    pub fn new(total_files: usize) -> (r: Self)
        ensures
            r.total_files == total_files,
            r.success_count == 0,
            r.error_count == 0,
            r.total_bytes_read == 0,
            r.total_bytes_written == 0,
            r.validation_failed == 0,
            r.start_time is Some,
    {
        Self {
            total_files,
            success_count: 0,
            error_count: 0,
            total_bytes_read: 0,
            total_bytes_written: 0,
            validation_failed: 0,
            start_time: Some(instant_now()),
        }
    }

    /// Count one more success.
    pub fn increment_success(&mut self)
        requires
            old(self).success_count < usize::MAX,
        ensures
            final(self).success_count == old(self).success_count + 1,
            final(self).total_files == old(self).total_files,
            final(self).error_count == old(self).error_count,
            final(self).total_bytes_read == old(self).total_bytes_read,
            final(self).total_bytes_written == old(self).total_bytes_written,
            final(self).validation_failed == old(self).validation_failed,
    {
        self.success_count = self.success_count + 1;
    }

    /// Count one more failed file.
    pub fn increment_error(&mut self)
        requires
            old(self).error_count < usize::MAX,
        ensures
            final(self).error_count == old(self).error_count + 1,
            final(self).total_files == old(self).total_files,
            final(self).success_count == old(self).success_count,
            final(self).total_bytes_read == old(self).total_bytes_read,
            final(self).total_bytes_written == old(self).total_bytes_written,
            final(self).validation_failed == old(self).validation_failed,
    {
        self.error_count = self.error_count + 1;
    }

    /// Count one more file that failed validation.
    pub fn increment_validation_failed(&mut self)
        requires
            old(self).validation_failed < usize::MAX,
        ensures
            final(self).validation_failed == old(self).validation_failed + 1,
            final(self).total_files == old(self).total_files,
            final(self).success_count == old(self).success_count,
            final(self).error_count == old(self).error_count,
            final(self).total_bytes_read == old(self).total_bytes_read,
            final(self).total_bytes_written == old(self).total_bytes_written,
    {
        self.validation_failed = self.validation_failed + 1;
    }

    /// Account for bytes read from a source file.
    pub fn add_bytes_read(&mut self, bytes: u64)
        requires
            old(self).total_bytes_read + bytes <= u64::MAX,
        ensures
            final(self).total_bytes_read == old(self).total_bytes_read + bytes,
            final(self).total_files == old(self).total_files,
            final(self).success_count == old(self).success_count,
            final(self).error_count == old(self).error_count,
            final(self).total_bytes_written == old(self).total_bytes_written,
            final(self).validation_failed == old(self).validation_failed,
    {
        self.total_bytes_read = self.total_bytes_read + bytes;
    }

    /// Account for bytes written to the output.
    pub fn add_bytes_written(&mut self, bytes: u64)
        requires
            old(self).total_bytes_written + bytes <= u64::MAX,
        ensures
            final(self).total_bytes_written == old(self).total_bytes_written + bytes,
            final(self).total_files == old(self).total_files,
            final(self).success_count == old(self).success_count,
            final(self).error_count == old(self).error_count,
            final(self).total_bytes_read == old(self).total_bytes_read,
            final(self).validation_failed == old(self).validation_failed,
    {
        self.total_bytes_written = self.total_bytes_written + bytes;
    }

    /// How many files succeeded so far.
    pub fn get_success_count(&self) -> (r: usize)
        ensures
            r == self.success_count,
    {
        self.success_count
    }

    /// How many files failed so far.
    pub fn get_error_count(&self) -> (r: usize)
        ensures
            r == self.error_count,
    {
        self.error_count
    }

    /// How many files failed validation so far.
    pub fn get_validation_failed(&self) -> (r: usize)
        ensures
            r == self.validation_failed,
    {
        self.validation_failed
    }

    /// Milliseconds since the run started; zero when the instance was
    /// never stamped. What a stamped instance answers depends on the
    /// clock, so only the unstamped case is pinned.
    pub fn elapsed(&self) -> (r: u64)
        ensures
            self.start_time is None ==> r == 0,
    {
        match &self.start_time {
            Some(start) => instant_elapsed_millis(start),
            None => 0,
        }
    }
}

} // verus!
