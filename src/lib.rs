//! Driver logic for WS2812 / WS2813 RGB LED strips fed through an SPI peripheral.
//!
//! Each data bit of a color channel becomes a short run of SPI bytes whose
//! high and low periods, clocked out at a fixed rate, meet the LED's pulse
//! timings. A whole strip update is encoded into one buffer, followed by a
//! run of zero bytes that latches the colors.
pub mod adapter_spi;
pub mod encoding;
pub mod timings;
