//! The SPI side of a strip: the settings the SPI device must run with, and an
//! adapter that turns a strip's colors into one complete frame.
//!
//! Opening the device and writing to it happen outside this library; the
//! frame is handed to the device in a single write, because a pause between
//! two writes would be read by the LEDs as a latch or would stretch a pulse.
use crate::encoding::{encode_rgb_slice, spec_encode_strip};
use crate::timings::{
    spec_variant_table, LedVariant, TimingModel, TimingTable, PI_SPI_HZ,
};
use vstd::prelude::*;

verus! {

/// SPI mode 0: clock idle low, data sampled on the rising edge.
pub const SPI_MODE_0: u8 = 0;

/// How the SPI device is to be configured before any frame is sent.
#[derive(Clone, Copy, Debug, PartialEq, Eq, Structural)]
pub struct SpiSettings {
    pub bits_per_word: u8,
    pub max_speed_hz: u32,
    pub mode: u8,
}

/// Eight bits per word, `PI_SPI_HZ`, mode 0: the clock that the timing
/// tables are made for.
pub fn spi_settings() -> (r: SpiSettings)
    ensures
        r.bits_per_word == 8,
        r.max_speed_hz == PI_SPI_HZ,
        r.mode == SPI_MODE_0,
{
    SpiSettings { bits_per_word: 8, max_speed_hz: PI_SPI_HZ, mode: SPI_MODE_0 }
}

/// Mathematical content of an adapter: the device name and the table.
pub struct AdapterModel {
    pub device: Seq<char>,
    pub table: TimingModel,
}

/// Adapter that connects an application to WS28xx LEDs on an SPI device:
/// it knows the device name and the LED variant, and builds whole frames.
pub struct WS28xxSpiAdapter {
    device: String,
    table: TimingTable,
}

impl View for WS28xxSpiAdapter {
    type V = AdapterModel;

    closed spec fn view(&self) -> AdapterModel {
        AdapterModel { device: self.device@, table: self.table@ }
    }
}

impl WS28xxSpiAdapter {
    #[verifier::type_invariant]
    spec fn inv(&self) -> bool {
        self.table@.wf()
    }

    /// Adapter for WS2812 LEDs on the SPI device `dev` (such as
    /// "/dev/spidev0.0").
    pub fn new(dev: &str) -> (r: WS28xxSpiAdapter)
        ensures
            r@.device == dev@,
            r@.table == spec_variant_table(LedVariant::Ws2812),
    {
        WS28xxSpiAdapter::with_variant(dev, LedVariant::Ws2812)
    }

    /// Adapter for LEDs of variant `v` on the SPI device `dev`.
    pub fn with_variant(dev: &str, v: LedVariant) -> (r: WS28xxSpiAdapter)
        ensures
            r@.device == dev@,
            r@.table == spec_variant_table(v),
    {
        let table = TimingTable::for_variant(v);
        let r = WS28xxSpiAdapter { device: dev.to_string(), table };
        assert(r@.device == dev@ && r@.table == spec_variant_table(v));
        r
    }

    /// Name of the SPI device.
    pub fn device(&self) -> (r: &str)
        ensures
            r@ == self@.device,
    {
        self.device.as_str()
    }

    /// The timing table of the adapter's LED variant.
    pub fn table(&self) -> (r: &TimingTable)
        ensures
            r@ == self@.table,
            r@.wf(),
    {
        proof {
            use_type_invariant(self);
        }
        &self.table
    }

    /// The complete frame that sets the strip to `rgb_data`, first pixel
    /// first, latch padding included.
    pub fn encode_frame(&self, rgb_data: &[(u8, u8, u8)]) -> (r: Vec<u8>)
        ensures
            r@ == spec_encode_strip(self@.table, rgb_data@),
    {
        proof {
            use_type_invariant(self);
        }
        encode_rgb_slice(&self.table, rgb_data)
    }
}

} // verus!
