//! Connection statistics: byte and frame counters, and their summary for the logs.

use std::time::{Duration, Instant};

use vstd::prelude::*;

use crate::text::{decimal_string, spec_decimal};

verus! {

#[verifier::external_type_specification]
#[verifier::external_body]
pub struct ExInstant(Instant);

/// The current instant, from `Instant::now`.
///
/// Trusted for nothing: the clock's reading is not described.
#[verifier::external_body]
fn instant_now() -> Instant {
    Instant::now()
}

/// The time since `start`, from `Instant::elapsed`.
///
/// Trusted for nothing: the clock's reading is not described.
#[verifier::external_body]
fn instant_elapsed(start: &Instant) -> Duration {
    start.elapsed()
}

/// The whole seconds that a duration holds: what `Duration::as_secs` returns for it.
pub uninterp spec fn duration_whole_secs(d: Duration) -> u64;

/// The whole seconds of a duration, from `Duration::as_secs`.
///
/// Trusted: the result is a function of the duration alone. A `Duration` is opaque here,
/// so which number of seconds that is stays unsaid.
#[verifier::external_body]
fn duration_as_secs(d: &Duration) -> (secs: u64)
    ensures
        secs == duration_whole_secs(*d),
{
    d.as_secs()
}

/// `a + b`, wrapping around at 2^64, as a counter that is shared between tasks does.
pub open spec fn wrap_add(a: u64, b: u64) -> u64 {
    if a + b > u64::MAX {
        (a + b - 0x1_0000_0000_0000_0000) as u64
    } else {
        (a + b) as u64
    }
}

/// Counters of a relay connection: totals since it started, and the same counts for the
/// current reporting period.
pub struct ConnectionStats {
    pub total_bytes_sent: u64,
    pub total_bytes_received: u64,
    pub x11_connections_active: u32,
    pub total_compression_saved: u64,
    pub total_compression_frames: u64,
    pub total_incremental_saved: u64,
    pub total_incremental_frames: u64,
    pub total_incremental_fallback: u64,
    pub period_bytes_sent: u64,
    pub period_bytes_received: u64,
    pub period_compression_saved: u64,
    pub period_compression_frames: u64,
    pub period_incremental_saved: u64,
    pub period_incremental_frames: u64,
    pub period_incremental_fallback: u64,
    pub start_time: Instant,
}

/// One set of counters, totals or period.
pub struct StatsSnapshot {
    pub bytes_sent: u64,
    pub bytes_received: u64,
    pub compression_saved: u64,
    pub compression_frames: u64,
    pub incremental_saved: u64,
    pub incremental_frames: u64,
    pub incremental_fallback: u64,
}

pub open spec fn spec_total_stats(s: ConnectionStats) -> StatsSnapshot {
    StatsSnapshot {
        bytes_sent: s.total_bytes_sent,
        bytes_received: s.total_bytes_received,
        compression_saved: s.total_compression_saved,
        compression_frames: s.total_compression_frames,
        incremental_saved: s.total_incremental_saved,
        incremental_frames: s.total_incremental_frames,
        incremental_fallback: s.total_incremental_fallback,
    }
}

pub open spec fn spec_period_stats(s: ConnectionStats) -> StatsSnapshot {
    StatsSnapshot {
        bytes_sent: s.period_bytes_sent,
        bytes_received: s.period_bytes_received,
        compression_saved: s.period_compression_saved,
        compression_frames: s.period_compression_frames,
        incremental_saved: s.period_incremental_saved,
        incremental_frames: s.period_incremental_frames,
        incremental_fallback: s.period_incremental_fallback,
    }
}

/// Every counter is zero.
pub open spec fn all_zero(s: ConnectionStats) -> bool {
    &&& s.total_bytes_sent == 0
    &&& s.total_bytes_received == 0
    &&& s.x11_connections_active == 0
    &&& s.total_compression_saved == 0
    &&& s.total_compression_frames == 0
    &&& s.total_incremental_saved == 0
    &&& s.total_incremental_frames == 0
    &&& s.total_incremental_fallback == 0
    &&& period_zero(s)
}

/// Every counter of the current period is zero.
pub open spec fn period_zero(s: ConnectionStats) -> bool {
    &&& s.period_bytes_sent == 0
    &&& s.period_bytes_received == 0
    &&& s.period_compression_saved == 0
    &&& s.period_compression_frames == 0
    &&& s.period_incremental_saved == 0
    &&& s.period_incremental_frames == 0
    &&& s.period_incremental_fallback == 0
}

/// The totals and the connection count are the same in both.
pub open spec fn same_totals(a: ConnectionStats, b: ConnectionStats) -> bool {
    &&& a.total_bytes_sent == b.total_bytes_sent
    &&& a.total_bytes_received == b.total_bytes_received
    &&& a.x11_connections_active == b.x11_connections_active
    &&& a.total_compression_saved == b.total_compression_saved
    &&& a.total_compression_frames == b.total_compression_frames
    &&& a.total_incremental_saved == b.total_incremental_saved
    &&& a.total_incremental_frames == b.total_incremental_frames
    &&& a.total_incremental_fallback == b.total_incremental_fallback
}

/// The period counters are the same in both.
pub open spec fn same_period(a: ConnectionStats, b: ConnectionStats) -> bool {
    &&& a.period_bytes_sent == b.period_bytes_sent
    &&& a.period_bytes_received == b.period_bytes_received
    &&& a.period_compression_saved == b.period_compression_saved
    &&& a.period_compression_frames == b.period_compression_frames
    &&& a.period_incremental_saved == b.period_incremental_saved
    &&& a.period_incremental_frames == b.period_incremental_frames
    &&& a.period_incremental_fallback == b.period_incremental_fallback
}

/// `a` and `b` differ at most in their compression and incremental counters.
pub open spec fn same_transfer(a: ConnectionStats, b: ConnectionStats) -> bool {
    &&& a.total_bytes_sent == b.total_bytes_sent
    &&& a.total_bytes_received == b.total_bytes_received
    &&& a.period_bytes_sent == b.period_bytes_sent
    &&& a.period_bytes_received == b.period_bytes_received
    &&& a.x11_connections_active == b.x11_connections_active
}

pub open spec fn same_compression(a: ConnectionStats, b: ConnectionStats) -> bool {
    &&& a.total_compression_saved == b.total_compression_saved
    &&& a.total_compression_frames == b.total_compression_frames
    &&& a.period_compression_saved == b.period_compression_saved
    &&& a.period_compression_frames == b.period_compression_frames
}

pub open spec fn same_incremental(a: ConnectionStats, b: ConnectionStats) -> bool {
    &&& a.total_incremental_saved == b.total_incremental_saved
    &&& a.total_incremental_frames == b.total_incremental_frames
    &&& a.total_incremental_fallback == b.total_incremental_fallback
    &&& a.period_incremental_saved == b.period_incremental_saved
    &&& a.period_incremental_frames == b.period_incremental_frames
    &&& a.period_incremental_fallback == b.period_incremental_fallback
}

impl Default for ConnectionStats {
    fn default() -> (s: ConnectionStats)
        ensures
            all_zero(s),
    {
        ConnectionStats::new()
    }
}

impl ConnectionStats {
    pub fn new() -> (s: ConnectionStats)
        ensures
            all_zero(s),
    {
        ConnectionStats {
            total_bytes_sent: 0,
            total_bytes_received: 0,
            x11_connections_active: 0,
            total_compression_saved: 0,
            total_compression_frames: 0,
            total_incremental_saved: 0,
            total_incremental_frames: 0,
            total_incremental_fallback: 0,
            period_bytes_sent: 0,
            period_bytes_received: 0,
            period_compression_saved: 0,
            period_compression_frames: 0,
            period_incremental_saved: 0,
            period_incremental_frames: 0,
            period_incremental_fallback: 0,
            start_time: instant_now(),
        }
    }

    pub fn add_bytes_sent(&mut self, n: u64)
        ensures
            final(self).total_bytes_sent == wrap_add(old(self).total_bytes_sent, n),
            final(self).period_bytes_sent == wrap_add(old(self).period_bytes_sent, n),
            final(self).total_bytes_received == old(self).total_bytes_received,
            final(self).period_bytes_received == old(self).period_bytes_received,
            final(self).x11_connections_active == old(self).x11_connections_active,
            same_compression(*final(self), *old(self)),
            same_incremental(*final(self), *old(self)),
    {
        self.total_bytes_sent = self.total_bytes_sent.wrapping_add(n);
        self.period_bytes_sent = self.period_bytes_sent.wrapping_add(n);
    }

    pub fn add_bytes_received(&mut self, n: u64)
        ensures
            final(self).total_bytes_received == wrap_add(old(self).total_bytes_received, n),
            final(self).period_bytes_received == wrap_add(old(self).period_bytes_received, n),
            final(self).total_bytes_sent == old(self).total_bytes_sent,
            final(self).period_bytes_sent == old(self).period_bytes_sent,
            final(self).x11_connections_active == old(self).x11_connections_active,
            same_compression(*final(self), *old(self)),
            same_incremental(*final(self), *old(self)),
    {
        self.total_bytes_received = self.total_bytes_received.wrapping_add(n);
        self.period_bytes_received = self.period_bytes_received.wrapping_add(n);
    }

    /// Counts one compressed frame that saved `saved` bytes; a frame that saved nothing is
    /// not counted.
    pub fn add_compression_saved(&mut self, saved: u64)
        ensures
            saved > 0 ==> final(self).total_compression_saved == wrap_add(old(self).total_compression_saved, saved)
                && final(self).total_compression_frames == wrap_add(old(self).total_compression_frames, 1)
                && final(self).period_compression_saved == wrap_add(old(self).period_compression_saved, saved)
                && final(self).period_compression_frames == wrap_add(old(self).period_compression_frames, 1),
            saved == 0 ==> same_compression(*final(self), *old(self)),
            same_transfer(*final(self), *old(self)),
            same_incremental(*final(self), *old(self)),
    {
        if saved > 0 {
            self.total_compression_saved = self.total_compression_saved.wrapping_add(saved);
            self.total_compression_frames = self.total_compression_frames.wrapping_add(1);
            self.period_compression_saved = self.period_compression_saved.wrapping_add(saved);
            self.period_compression_frames = self.period_compression_frames.wrapping_add(1);
        }
    }

    /// Counts one incremental frame that saved `saved` bytes; a frame that saved nothing is
    /// not counted.
    pub fn add_incremental_saved(&mut self, saved: u64)
        ensures
            saved > 0 ==> final(self).total_incremental_saved == wrap_add(old(self).total_incremental_saved, saved)
                && final(self).total_incremental_frames == wrap_add(old(self).total_incremental_frames, 1)
                && final(self).period_incremental_saved == wrap_add(old(self).period_incremental_saved, saved)
                && final(self).period_incremental_frames == wrap_add(old(self).period_incremental_frames, 1),
            saved == 0 ==> same_incremental(*final(self), *old(self)),
            final(self).total_incremental_fallback == old(self).total_incremental_fallback,
            final(self).period_incremental_fallback == old(self).period_incremental_fallback,
            same_transfer(*final(self), *old(self)),
            same_compression(*final(self), *old(self)),
    {
        if saved > 0 {
            self.total_incremental_saved = self.total_incremental_saved.wrapping_add(saved);
            self.total_incremental_frames = self.total_incremental_frames.wrapping_add(1);
            self.period_incremental_saved = self.period_incremental_saved.wrapping_add(saved);
            self.period_incremental_frames = self.period_incremental_frames.wrapping_add(1);
        }
    }

    /// Counts a frame sent in full where an incremental one was tried.
    pub fn add_incremental_full_fallback(&mut self)
        ensures
            final(self).total_incremental_fallback == wrap_add(old(self).total_incremental_fallback, 1),
            final(self).period_incremental_fallback == wrap_add(old(self).period_incremental_fallback, 1),
            final(self).total_incremental_saved == old(self).total_incremental_saved,
            final(self).total_incremental_frames == old(self).total_incremental_frames,
            final(self).period_incremental_saved == old(self).period_incremental_saved,
            final(self).period_incremental_frames == old(self).period_incremental_frames,
            same_transfer(*final(self), *old(self)),
            same_compression(*final(self), *old(self)),
    {
        self.total_incremental_fallback = self.total_incremental_fallback.wrapping_add(1);
        self.period_incremental_fallback = self.period_incremental_fallback.wrapping_add(1);
    }

    pub fn inc_x11_connections(&mut self)
        ensures
            final(self).x11_connections_active == if old(self).x11_connections_active == u32::MAX {
                0
            } else {
                (old(self).x11_connections_active + 1) as u32
            },
            final(self).total_bytes_sent == old(self).total_bytes_sent,
            final(self).total_bytes_received == old(self).total_bytes_received,
            same_period(*final(self), *old(self)),
            same_compression(*final(self), *old(self)),
            same_incremental(*final(self), *old(self)),
    {
        self.x11_connections_active = self.x11_connections_active.wrapping_add(1);
    }

    /// One X11 connection fewer; the count never goes below zero.
    pub fn dec_x11_connections(&mut self)
        ensures
            final(self).x11_connections_active == if old(self).x11_connections_active == 0 {
                0
            } else {
                (old(self).x11_connections_active - 1) as u32
            },
            final(self).total_bytes_sent == old(self).total_bytes_sent,
            final(self).total_bytes_received == old(self).total_bytes_received,
            same_period(*final(self), *old(self)),
            same_compression(*final(self), *old(self)),
            same_incremental(*final(self), *old(self)),
    {
        if let Some(v) = self.x11_connections_active.checked_sub(1) {
            self.x11_connections_active = v;
        }
    }

    /// Starts a new reporting period: the period counters return to zero, the totals stay.
    pub fn reset_period(&mut self)
        ensures
            period_zero(*final(self)),
            same_totals(*final(self), *old(self)),
    {
        self.period_bytes_sent = 0;
        self.period_bytes_received = 0;
        self.period_compression_saved = 0;
        self.period_compression_frames = 0;
        self.period_incremental_saved = 0;
        self.period_incremental_frames = 0;
        self.period_incremental_fallback = 0;
    }

    pub fn get_total_stats(&self) -> (r: StatsSnapshot)
        ensures
            r == spec_total_stats(*self),
    {
        StatsSnapshot {
            bytes_sent: self.total_bytes_sent,
            bytes_received: self.total_bytes_received,
            compression_saved: self.total_compression_saved,
            compression_frames: self.total_compression_frames,
            incremental_saved: self.total_incremental_saved,
            incremental_frames: self.total_incremental_frames,
            incremental_fallback: self.total_incremental_fallback,
        }
    }

    pub fn get_period_stats(&self) -> (r: StatsSnapshot)
        ensures
            r == spec_period_stats(*self),
    {
        StatsSnapshot {
            bytes_sent: self.period_bytes_sent,
            bytes_received: self.period_bytes_received,
            compression_saved: self.period_compression_saved,
            compression_frames: self.period_compression_frames,
            incremental_saved: self.period_incremental_saved,
            incremental_frames: self.period_incremental_frames,
            incremental_fallback: self.period_incremental_fallback,
        }
    }
}

// ----- formatting -----

/// `num / den` rounded to the nearest integer, ties to the even one.
pub open spec fn round_half_even(num: nat, den: nat) -> nat {
    let q = num / den;
    let r = num % den;
    if 2 * r > den {
        q + 1
    } else if 2 * r < den {
        q
    } else if q % 2 == 0 {
        q
    } else {
        q + 1
    }
}

/// The distance between neighbouring `f64` values around an integer below 2^64.
pub open spec fn f64_unit(b: nat) -> nat {
    if b < 0x20_0000_0000_0000 {
        1
    } else if b < 0x40_0000_0000_0000 {
        2
    } else if b < 0x80_0000_0000_0000 {
        4
    } else if b < 0x100_0000_0000_0000 {
        8
    } else if b < 0x200_0000_0000_0000 {
        16
    } else if b < 0x400_0000_0000_0000 {
        32
    } else if b < 0x800_0000_0000_0000 {
        64
    } else if b < 0x1000_0000_0000_0000 {
        128
    } else if b < 0x2000_0000_0000_0000 {
        256
    } else if b < 0x4000_0000_0000_0000 {
        512
    } else if b < 0x8000_0000_0000_0000 {
        1024
    } else {
        2048
    }
}

/// The value of `b as f64`: `b` rounded to the nearest `f64`, ties to even.
pub open spec fn f64_round(b: nat) -> nat {
    round_half_even(b, f64_unit(b)) * f64_unit(b)
}

/// `v / den` written with one decimal, rounded to nearest with ties to even.
pub open spec fn one_decimal(v: nat, den: nat) -> Seq<char> {
    let t = round_half_even(v * 10, den);
    spec_decimal(t / 10) + "."@ + spec_decimal(t % 10)
}

/// A byte count as people read it: bytes, or KB, MB or GB with one decimal.
pub open spec fn spec_format_bytes(b: u64) -> Seq<char> {
    if b < 1024 {
        spec_decimal(b as nat) + " B"@
    } else if b < 1048576 {
        one_decimal(b as nat, 1024) + " KB"@
    } else if b < 1073741824 {
        one_decimal(b as nat, 1048576) + " MB"@
    } else {
        one_decimal(f64_round(b as nat), 1073741824) + " GB"@
    }
}

fn round_half_even_u128(num: u128, den: u128) -> (r: u128)
    requires
        0 < den <= 0x1_0000_0000_0000_0000,
        num <= 0x1_0000_0000_0000_0000_0000,
    ensures
        r == round_half_even(num as nat, den as nat),
{
    let q = num / den;
    let r = num % den;
    if 2 * r > den {
        q + 1
    } else if 2 * r < den {
        q
    } else if q % 2 == 0 {
        q
    } else {
        q + 1
    }
}

fn f64_unit_exec(b: u64) -> (u: u128)
    ensures
        u == f64_unit(b as nat),
        1 <= u <= 2048,
{
    if b < 0x20_0000_0000_0000 {
        1
    } else if b < 0x40_0000_0000_0000 {
        2
    } else if b < 0x80_0000_0000_0000 {
        4
    } else if b < 0x100_0000_0000_0000 {
        8
    } else if b < 0x200_0000_0000_0000 {
        16
    } else if b < 0x400_0000_0000_0000 {
        32
    } else if b < 0x800_0000_0000_0000 {
        64
    } else if b < 0x1000_0000_0000_0000 {
        128
    } else if b < 0x2000_0000_0000_0000 {
        256
    } else if b < 0x4000_0000_0000_0000 {
        512
    } else if b < 0x8000_0000_0000_0000 {
        1024
    } else {
        2048
    }
}

fn one_decimal_string(v: u128, den: u128, suffix: &str) -> (s: String)
    requires
        1024 <= den <= 1073741824,
        v <= 0x1_0000_0000_0000_1000,
    ensures
        s@ == one_decimal(v as nat, den as nat) + suffix@,
{
    assert(v * 10 <= 0x1_0000_0000_0000_0000_0000) by (nonlinear_arith)
        requires v <= 0x1_0000_0000_0000_1000;
    let t = round_half_even_u128(v * 10, den);
    assert((v as int * 10) / (den as int) <= (v as int * 10) / 1024) by (nonlinear_arith)
        requires den >= 1024, v >= 0;
    assert(t / 10 <= u64::MAX);
    let whole = decimal_string((t / 10) as u64);
    let frac = decimal_string((t % 10) as u64);
    let mut s = whole;
    s.append(".");
    s.append(frac.as_str());
    s.append(suffix);
    s
}

/// A byte count as people read it: bytes, or KB, MB or GB with one decimal.
pub fn format_bytes(bytes: u64) -> (s: String)
    ensures
        s@ == spec_format_bytes(bytes),
{
    if bytes < 1024 {
        let mut s = decimal_string(bytes);
        s.append(" B");
        s
    } else if bytes < 1048576 {
        one_decimal_string(bytes as u128, 1024, " KB")
    } else if bytes < 1073741824 {
        one_decimal_string(bytes as u128, 1048576, " MB")
    } else {
        let unit = f64_unit_exec(bytes);
        let q = round_half_even_u128(bytes as u128, unit);
        assert(q * unit <= 0x1_0000_0000_0000_1000) by (nonlinear_arith)
            requires q as int <= (bytes as int) / (unit as int) + 1, 1 <= unit <= 2048, bytes <= u64::MAX;
        one_decimal_string(q * unit, 1073741824, " GB")
    }
}

/// A duration in whole seconds as people read it: `1d2h3m4s`, leading zero units left out.
pub open spec fn spec_format_duration(total: u64) -> Seq<char> {
    let days = total / 86400;
    let hours = (total % 86400) / 3600;
    let mins = (total % 3600) / 60;
    let secs = total % 60;
    if days > 0 {
        spec_decimal(days as nat) + "d"@ + spec_decimal(hours as nat) + "h"@ + spec_decimal(mins as nat) + "m"@
            + spec_decimal(secs as nat) + "s"@
    } else if hours > 0 {
        spec_decimal(hours as nat) + "h"@ + spec_decimal(mins as nat) + "m"@ + spec_decimal(secs as nat) + "s"@
    } else if mins > 0 {
        spec_decimal(mins as nat) + "m"@ + spec_decimal(secs as nat) + "s"@
    } else {
        spec_decimal(secs as nat) + "s"@
    }
}

fn push_unit(s: &mut String, n: u64, unit: &str)
    ensures
        final(s)@ == old(s)@ + spec_decimal(n as nat) + unit@,
{
    let d = decimal_string(n);
    s.append(d.as_str());
    s.append(unit);
}

/// A duration in whole seconds as people read it.
pub fn format_duration_secs(total_secs: u64) -> (s: String)
    ensures
        s@ == spec_format_duration(total_secs),
{
    let days = total_secs / 86400;
    let hours = (total_secs % 86400) / 3600;
    let mins = (total_secs % 3600) / 60;
    let secs = total_secs % 60;
    let mut s = String::new();
    if days > 0 {
        push_unit(&mut s, days, "d");
        push_unit(&mut s, hours, "h");
        push_unit(&mut s, mins, "m");
    } else if hours > 0 {
        push_unit(&mut s, hours, "h");
        push_unit(&mut s, mins, "m");
    } else if mins > 0 {
        push_unit(&mut s, mins, "m");
    }
    push_unit(&mut s, secs, "s");
    s
}

/// A duration as people read it, by its whole seconds.
pub fn format_duration(d: Duration) -> (s: String)
    ensures
        s@ == spec_format_duration(duration_whole_secs(d)),
{
    let secs = duration_as_secs(&d);
    format_duration_secs(secs)
}

// ----- the summary -----

pub open spec fn compression_text(s: StatsSnapshot) -> Seq<char> {
    spec_decimal(s.compression_frames as nat) + " frames"@ + if s.compression_saved > 0 {
        ", saved "@ + spec_format_bytes(s.compression_saved)
    } else {
        Seq::empty()
    }
}

pub open spec fn incremental_text(s: StatsSnapshot) -> Seq<char> {
    spec_decimal(s.incremental_frames as nat) + " frames"@ + (if s.incremental_saved > 0 {
        ", saved "@ + spec_format_bytes(s.incremental_saved)
    } else {
        Seq::empty()
    }) + if s.incremental_fallback > 0 {
        ", "@ + spec_decimal(s.incremental_fallback as nat) + " fallbacks"@
    } else {
        Seq::empty()
    }
}

/// The summary lines for one set of counters; none where every counter is zero.
pub open spec fn transfer_lines(prefix: Seq<char>, s: StatsSnapshot) -> Seq<Seq<char>> {
    let has_transfer = s.bytes_sent > 0 || s.bytes_received > 0;
    let has_compression = s.compression_saved > 0 || s.compression_frames > 0;
    let has_incremental = s.incremental_saved > 0 || s.incremental_frames > 0 || s.incremental_fallback > 0;
    if !(has_transfer || has_compression || has_incremental) {
        Seq::empty()
    } else {
        seq!["  "@ + prefix + ":"@] + (if has_transfer {
            seq!["    Sent: "@ + spec_format_bytes(s.bytes_sent), "    Recv: "@ + spec_format_bytes(s.bytes_received)]
        } else {
            Seq::empty()
        }) + (if has_compression {
            seq!["    Compressed: "@ + compression_text(s)]
        } else {
            Seq::empty()
        }) + if has_incremental {
            seq!["    Incremental: "@ + incremental_text(s)]
        } else {
            Seq::empty()
        }
    }
}

pub open spec fn summary_lines(s: ConnectionStats, uptime_secs: u64) -> Seq<Seq<char>> {
    let active = s.x11_connections_active;
    seq![" "@ + spec_decimal(active as nat) + " active X11 "@ + if active == 1 {
        "connection"@
    } else {
        "connections"@
    }] + transfer_lines("Total"@, spec_total_stats(s)) + transfer_lines("Period"@, spec_period_stats(s))
        + seq!["  Uptime: "@ + spec_format_duration(uptime_secs)]
}

/// A block of transfer statistics with any traffic opens with its heading, then reports
/// the bytes sent under `Sent` and the bytes received under `Recv`; then the compressed
/// frames and the bytes compression saved, and last the incremental frames, the bytes
/// they saved and the fallbacks to full frames, where there are any.
pub proof fn lemma_transfer_lines_report(prefix: Seq<char>, s: StatsSnapshot)
    requires
        s.bytes_sent > 0 || s.bytes_received > 0,
    ensures
        transfer_lines(prefix, s).len() >= 3,
        transfer_lines(prefix, s)[0] == "  "@ + prefix + ":"@,
        transfer_lines(prefix, s)[1] == "    Sent: "@ + spec_format_bytes(s.bytes_sent),
        transfer_lines(prefix, s)[2] == "    Recv: "@ + spec_format_bytes(s.bytes_received),
        s.compression_saved > 0 || s.compression_frames > 0 ==> transfer_lines(prefix, s)[3] == "    Compressed: "@
            + spec_decimal(s.compression_frames as nat) + " frames"@ + (if s.compression_saved > 0 {
            ", saved "@ + spec_format_bytes(s.compression_saved)
        } else {
            Seq::empty()
        }),
        s.incremental_saved > 0 || s.incremental_frames > 0 || s.incremental_fallback > 0 ==> transfer_lines(
            prefix,
            s,
        ).last() == "    Incremental: "@ + spec_decimal(s.incremental_frames as nat) + " frames"@ + (if s.incremental_saved
            > 0 {
            ", saved "@ + spec_format_bytes(s.incremental_saved)
        } else {
            Seq::empty()
        }) + (if s.incremental_fallback > 0 {
            ", "@ + spec_decimal(s.incremental_fallback as nat) + " fallbacks"@
        } else {
            Seq::empty()
        }),
{
}

/// The summary reports, under `Total`, the bytes sent and received since the statistics
/// started, and under `Period` those of the current period: each counter under its own
/// label. Its last line is the uptime.
pub proof fn lemma_summary_reports_traffic(s: ConnectionStats, uptime_secs: u64)
    ensures
        summary_lines(s, uptime_secs).len() >= 2,
        summary_lines(s, uptime_secs).last() == "  Uptime: "@ + spec_format_duration(uptime_secs),
        s.total_bytes_sent > 0 || s.total_bytes_received > 0 ==> {
            &&& summary_lines(s, uptime_secs)[1] == "  Total:"@
            &&& summary_lines(s, uptime_secs)[2] == "    Sent: "@ + spec_format_bytes(s.total_bytes_sent)
            &&& summary_lines(s, uptime_secs)[3] == "    Recv: "@ + spec_format_bytes(s.total_bytes_received)
        },
        (s.total_bytes_sent > 0 || s.total_bytes_received > 0) && s.total_compression_saved == 0
            && s.total_compression_frames == 0 && s.total_incremental_saved == 0 && s.total_incremental_frames == 0
            && s.total_incremental_fallback == 0 && (s.period_bytes_sent > 0 || s.period_bytes_received > 0) ==> {
            &&& summary_lines(s, uptime_secs)[4] == "  Period:"@
            &&& summary_lines(s, uptime_secs)[5] == "    Sent: "@ + spec_format_bytes(s.period_bytes_sent)
            &&& summary_lines(s, uptime_secs)[6] == "    Recv: "@ + spec_format_bytes(s.period_bytes_received)
        },
{
    let total = transfer_lines("Total"@, spec_total_stats(s));
    let period = transfer_lines("Period"@, spec_period_stats(s));
    let first = seq![" "@ + spec_decimal(s.x11_connections_active as nat) + " active X11 "@
        + if s.x11_connections_active == 1 { "connection"@ } else { "connections"@ }];
    let last = seq!["  Uptime: "@ + spec_format_duration(uptime_secs)];
    assert(summary_lines(s, uptime_secs) == first + total + period + last);
    if s.total_bytes_sent > 0 || s.total_bytes_received > 0 {
        lemma_transfer_lines_report("Total"@, spec_total_stats(s));
        assert(("  "@ + "Total"@ + ":"@) =~= "  Total:"@) by {
            reveal_strlit("  ");
            reveal_strlit("Total");
            reveal_strlit(":");
            reveal_strlit("  Total:");
        }
        if s.total_compression_saved == 0 && s.total_compression_frames == 0 && s.total_incremental_saved == 0
            && s.total_incremental_frames == 0 && s.total_incremental_fallback == 0 && (s.period_bytes_sent > 0
            || s.period_bytes_received > 0) {
            assert(total.len() == 3);
            lemma_transfer_lines_report("Period"@, spec_period_stats(s));
            assert(("  "@ + "Period"@ + ":"@) =~= "  Period:"@) by {
                reveal_strlit("  ");
                reveal_strlit("Period");
                reveal_strlit(":");
                reveal_strlit("  Period:");
            }
        }
    }
}

/// The lines joined with newlines between them.
pub open spec fn join_lines(lines: Seq<Seq<char>>) -> Seq<char>
    decreases lines.len(),
{
    if lines.len() == 0 {
        Seq::empty()
    } else if lines.len() == 1 {
        lines[0]
    } else {
        join_lines(lines.drop_last()) + "\n"@ + lines.last()
    }
}

pub open spec fn string_views(v: Seq<String>) -> Seq<Seq<char>> {
    v.map_values(|s: String| s@)
}

fn push_line(lines: &mut Vec<String>, line: String)
    ensures
        string_views(final(lines)@) == string_views(old(lines)@).push(line@),
{
    lines.push(line);
    assert(string_views(lines@) =~= string_views(old(lines)@).push(line@));
}

fn join_with_newlines(lines: &Vec<String>) -> (s: String)
    ensures
        s@ == join_lines(string_views(lines@)),
{
    let ghost v = string_views(lines@);
    let mut s = String::new();
    let mut i: usize = 0;
    while i < lines.len()
        invariant
            v == string_views(lines@),
            i <= lines@.len(),
            s@ == join_lines(v.take(i as int)),
        decreases lines@.len() - i,
    {
        proof {
            assert(v.take(i + 1).drop_last() =~= v.take(i as int));
        }
        if i != 0 {
            s.append("\n");
        }
        s.append(lines[i].as_str());
        proof {
            if i == 0 {
                assert(Seq::<char>::empty() + v[0] =~= v.take(1)[0]);
            }
        }
        i = i + 1;
    }
    assert(v.take(i as int) =~= v);
    s
}

impl ConnectionStats {
    fn append_transfer_stats_lines(&self, lines: &mut Vec<String>, prefix: &str, stats: StatsSnapshot)
        ensures
            string_views(final(lines)@) == string_views(old(lines)@) + transfer_lines(prefix@, stats),
    {
        let has_transfer = stats.bytes_sent > 0 || stats.bytes_received > 0;
        let has_compression = stats.compression_saved > 0 || stats.compression_frames > 0;
        let has_incremental = stats.incremental_saved > 0 || stats.incremental_frames > 0
            || stats.incremental_fallback > 0;
        let ghost start = string_views(lines@);
        if has_transfer || has_compression || has_incremental {
            let mut head = "  ".to_owned();
            head.append(prefix);
            head.append(":");
            push_line(lines, head);
            let ghost after_head = string_views(lines@);
            if stats.bytes_sent > 0 || stats.bytes_received > 0 {
                let mut sent = "    Sent: ".to_owned();
                sent.append(format_bytes(stats.bytes_sent).as_str());
                push_line(lines, sent);
                let mut recv = "    Recv: ".to_owned();
                recv.append(format_bytes(stats.bytes_received).as_str());
                push_line(lines, recv);
            }
            let ghost after_transfer = string_views(lines@);
            assert(after_head =~= start + seq!["  "@ + prefix@ + ":"@]);
            assert(after_transfer =~= after_head + if has_transfer {
                seq!["    Sent: "@ + spec_format_bytes(stats.bytes_sent), "    Recv: "@ + spec_format_bytes(stats.bytes_received)]
            } else {
                Seq::<Seq<char>>::empty()
            });
            if has_compression {
                let mut comp = decimal_string(stats.compression_frames);
                comp.append(" frames");
                if stats.compression_saved > 0 {
                    comp.append(", saved ");
                    comp.append(format_bytes(stats.compression_saved).as_str());
                }
                assert(comp@ =~= compression_text(stats));
                let mut line = "    Compressed: ".to_owned();
                line.append(comp.as_str());
                push_line(lines, line);
            }
            let ghost after_compression = string_views(lines@);
            assert(after_compression =~= after_transfer + if has_compression {
                seq!["    Compressed: "@ + compression_text(stats)]
            } else {
                Seq::<Seq<char>>::empty()
            });
            if has_incremental {
                let mut inc = decimal_string(stats.incremental_frames);
                inc.append(" frames");
                if stats.incremental_saved > 0 {
                    inc.append(", saved ");
                    inc.append(format_bytes(stats.incremental_saved).as_str());
                }
                if stats.incremental_fallback > 0 {
                    inc.append(", ");
                    inc.append(decimal_string(stats.incremental_fallback).as_str());
                    inc.append(" fallbacks");
                }
                assert(inc@ =~= incremental_text(stats));
                let mut line = "    Incremental: ".to_owned();
                line.append(inc.as_str());
                push_line(lines, line);
            }
            assert(string_views(lines@) =~= after_compression + if has_incremental {
                seq!["    Incremental: "@ + incremental_text(stats)]
            } else {
                Seq::<Seq<char>>::empty()
            });
            assert(string_views(lines@) =~= start + transfer_lines(prefix@, stats));
        } else {
            assert(string_views(lines@) =~= start + transfer_lines(prefix@, stats));
        }
    }

    /// The summary for the logs, given the uptime in whole seconds.
    pub fn summary_with_uptime(&self, uptime_secs: u64) -> (s: String)
        ensures
            s@ == join_lines(summary_lines(*self, uptime_secs)),
    {
        let active = self.x11_connections_active;
        let conn_str = if active == 1 { "connection" } else { "connections" };
        let mut first = " ".to_owned();
        first.append(decimal_string(active as u64).as_str());
        first.append(" active X11 ");
        first.append(conn_str);
        let mut lines: Vec<String> = Vec::new();
        push_line(&mut lines, first);
        self.append_transfer_stats_lines(&mut lines, "Total", self.get_total_stats());
        self.append_transfer_stats_lines(&mut lines, "Period", self.get_period_stats());
        let mut last = "  Uptime: ".to_owned();
        last.append(format_duration_secs(uptime_secs).as_str());
        push_line(&mut lines, last);
        assert(string_views(lines@) =~= summary_lines(*self, uptime_secs));
        join_with_newlines(&lines)
    }

    /// The summary for the logs, with the time since these statistics started.
    pub fn summary(&self) -> (s: String)
        ensures
            exists|uptime_secs: u64| s@ == join_lines(summary_lines(*self, uptime_secs)),
    {
        let uptime = instant_elapsed(&self.start_time);
        let secs = duration_as_secs(&uptime);
        self.summary_with_uptime(secs)
    }
}

} // verus!
