//! Timing constants and the per-variant tables of SPI byte patterns.
//!
//! The SPI peripheral is clocked at 15.6 MHz, so one SPI bit lasts 64 ns.
//!
//! WS2812 (tolerance of each period: 150 ns either way):
//! - logical 0: 350 ns high, 800 ns low; sent as 5 high and 11 low SPI bits
//!   (320 ns / 704 ns)
//! - logical 1: 700 ns high, 600 ns low; sent as 9 high and 7 low SPI bits
//!   (576 ns / 448 ns)
//!
//! WS2813:
//! - logical 0: 220..380 ns high, 580 ns..1.6 us low; sent as 4 high and 12 low
//!   SPI bits (256 ns / 768 ns)
//! - logical 1: 580 ns..1.6 us high, 220..420 ns low; sent as 10 high and 6 low
//!   SPI bits (640 ns / 384 ns)
//!
//! So one data bit is encoded in two SPI bytes. Both chips take the channels
//! in the order green, red, blue, most significant bit first, and latch after
//! the line has stayed low for the reset period (more than 280 us on WS2813).
use vstd::prelude::*;

verus! {

/// The frequency the SPI device is configured with.
pub const PI_SPI_HZ: u32 = 15_600_000;

/// Nanoseconds it takes to send one SPI bit at `PI_SPI_HZ`.
pub const PI_SPI_NS_PER_BIT: u64 = 64;

/// Minimum duration of the low period that latches a frame.
pub const TRESET_NS: u64 = 300_000;

/// `ceil(a / b)` over the naturals.
pub open spec fn ceil_div(a: nat, b: nat) -> nat
    recommends
        b > 0,
{
    ((a + b - 1) as nat / b) as nat
}

/// Number of zero bytes of latch padding: the reset duration divided by the
/// transport period, rounded up, plus one byte of margin.
pub open spec fn spec_reset_byte_count(treset_ns: nat, period_ns: nat) -> nat {
    ceil_div(treset_ns, period_ns) + 1
}

/// Count of zero transport bytes that keeps the line low for at least
/// `treset_ns` when each byte lasts `period_ns`, with one byte of margin.
pub fn reset_byte_count(treset_ns: u64, period_ns: u64) -> (r: u64)
    requires
        period_ns > 0,
        spec_reset_byte_count(treset_ns as nat, period_ns as nat) <= u64::MAX,
    ensures
        r == spec_reset_byte_count(treset_ns as nat, period_ns as nat),
        (r - 1) * period_ns >= treset_ns,
        (r - 2) * period_ns < treset_ns,
{
    let q: u64 = treset_ns / period_ns;
    let rem: u64 = treset_ns % period_ns;
    proof {
        let t = treset_ns as int;
        let p = period_ns as int;
        assert(t == q * p + rem) by (nonlinear_arith)
            requires q == t / p, rem == t % p, p > 0;
        if rem == 0 {
            assert((t + p - 1) / p == q) by (nonlinear_arith)
                requires t == q * p, p > 0;
        } else {
            assert((t + p - 1) / p == q + 1) by (nonlinear_arith)
                requires t == q * p + rem, 0 < rem < p, p > 0;
        }
    }
    let up: u64 = if rem == 0 { q } else { q + 1 };
    let r: u64 = up + 1;
    proof {
        let t = treset_ns as int;
        let p = period_ns as int;
        assert(up * p >= t && (up - 1) * p < t) by (nonlinear_arith)
            requires t == q * p + rem, 0 <= rem < p, up == (if rem == 0 { q as int } else { q + 1 }), p > 0;
    }
    r
}

/// LED chip generations with their own pulse timings.
#[derive(Clone, Copy, Debug, PartialEq, Eq, Structural)]
pub enum LedVariant {
    Ws2812,
    Ws2813,
}

/// Order in which a pixel's channels are shifted into the chip.
#[derive(Clone, Copy, Debug, PartialEq, Eq, Structural)]
pub enum ChannelOrder {
    /// Green, red, blue.
    Grb,
    /// Red, green, blue.
    Rgb,
}

/// Mathematical content of a `TimingTable`.
pub struct TimingModel {
    pub zero: Seq<u8>,
    pub one: Seq<u8>,
    pub reset: nat,
    pub order: ChannelOrder,
}

impl TimingModel {
    /// Number of transport bytes per data bit.
    pub open spec fn bytes_per_data_bit(self) -> nat {
        self.zero.len()
    }

    /// Both patterns have the same non-zero length and tell 0 from 1.
    pub open spec fn wf(self) -> bool {
        &&& self.zero.len() >= 1
        &&& self.one.len() == self.zero.len()
        &&& self.zero != self.one
    }
}

/// The SPI byte patterns that stand for a logical 0 and a logical 1 on one
/// LED variant, the count of zero bytes that latches a frame, and the order
/// in which the chip takes a pixel's channels.
pub struct TimingTable {
    pub zero_pattern: Vec<u8>,
    pub one_pattern: Vec<u8>,
    pub reset_byte_count: u64,
    pub channel_order: ChannelOrder,
}

impl View for TimingTable {
    type V = TimingModel;

    open spec fn view(&self) -> TimingModel {
        TimingModel {
            zero: self.zero_pattern@,
            one: self.one_pattern@,
            reset: self.reset_byte_count as nat,
            order: self.channel_order,
        }
    }
}

/// Latch padding of every variant: `TRESET_NS` at 64 ns per transport unit.
pub open spec fn spec_variant_reset() -> nat {
    spec_reset_byte_count(TRESET_NS as nat, PI_SPI_NS_PER_BIT as nat)
}

/// The table of each variant.
pub open spec fn spec_variant_table(v: LedVariant) -> TimingModel {
    match v {
        LedVariant::Ws2812 => TimingModel {
            zero: seq![0xF8u8, 0x00u8],
            one: seq![0xFFu8, 0x80u8],
            reset: spec_variant_reset(),
            order: ChannelOrder::Grb,
        },
        LedVariant::Ws2813 => TimingModel {
            zero: seq![0xF0u8, 0x00u8],
            one: seq![0xFFu8, 0xC0u8],
            reset: spec_variant_reset(),
            order: ChannelOrder::Grb,
        },
    }
}

impl TimingTable {
    /// A table from its parts; `None` unless both patterns have the same
    /// non-zero length and differ.
    pub fn new(
        zero_pattern: Vec<u8>,
        one_pattern: Vec<u8>,
        reset_byte_count: u64,
        channel_order: ChannelOrder,
    ) -> (r: Option<TimingTable>)
        ensures
            (TimingModel {
                zero: zero_pattern@,
                one: one_pattern@,
                reset: reset_byte_count as nat,
                order: channel_order,
            }).wf() <==> r is Some,
            r matches Some(t) ==> t.zero_pattern@ == zero_pattern@ && t.one_pattern@ == one_pattern@
                && t.reset_byte_count == reset_byte_count && t.channel_order == channel_order,
    {
        let n = zero_pattern.len();
        if n == 0 || one_pattern.len() != n {
            return None;
        }
        let mut i: usize = 0;
        while i < n
            invariant
                n == zero_pattern@.len() == one_pattern@.len(),
                i <= n,
                forall|j: int| 0 <= j < i ==> zero_pattern@[j] == one_pattern@[j],
            decreases n - i,
        {
            if zero_pattern[i] != one_pattern[i] {
                return Some(TimingTable { zero_pattern, one_pattern, reset_byte_count, channel_order });
            }
            i += 1;
        }
        assert(zero_pattern@ =~= one_pattern@);
        None
    }

    /// The fixed table of an LED variant.
    pub fn for_variant(v: LedVariant) -> (r: TimingTable)
        ensures
            r@ == spec_variant_table(v),
            r@.wf(),
    {
        assert(((300_000nat + 64 - 1) as nat / 64nat) == 4688) by (nonlinear_arith);
        let reset = reset_byte_count(TRESET_NS, PI_SPI_NS_PER_BIT);
        let r = match v {
            LedVariant::Ws2812 => TimingTable {
                zero_pattern: vec![0xF8u8, 0x00u8],
                one_pattern: vec![0xFFu8, 0x80u8],
                reset_byte_count: reset,
                channel_order: ChannelOrder::Grb,
            },
            LedVariant::Ws2813 => TimingTable {
                zero_pattern: vec![0xF0u8, 0x00u8],
                one_pattern: vec![0xFFu8, 0xC0u8],
                reset_byte_count: reset,
                channel_order: ChannelOrder::Grb,
            },
        };
        assert(r@.zero =~= spec_variant_table(v).zero);
        assert(r@.one =~= spec_variant_table(v).one);
        assert(r@.zero[0] != r@.one[0]);
        r
    }

    /// Number of transport bytes that carry one data bit.
    pub fn bytes_per_data_bit(&self) -> (r: usize)
        ensures
            r == self@.bytes_per_data_bit(),
    {
        self.zero_pattern.len()
    }
}

} // verus!
