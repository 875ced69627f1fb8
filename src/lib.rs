//! Battery charge management for a USB-attached keyboard: device discovery over the
//! device tree, battery level acquisition, and threshold-driven charge control.
pub mod text;
pub mod solaar;
pub mod usb;
pub mod decision;
pub mod control;
pub mod power;
pub mod hidpp;
pub mod config;
