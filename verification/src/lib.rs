//! Verified core of a small SPI LCD display system: the RGB565 pixel codec,
//! the ST7789 panel driver that turns a bitmap into the controller's
//! command/data byte protocol, and the decision logic of the image-hosting
//! HTTP service. Hardware access, networking and file I/O live outside the
//! library and only exchange plain values with it.

pub mod codec;
pub mod driver;
pub mod frame;
pub mod pattern;
pub mod picker;
pub mod protocol;
pub mod service;
