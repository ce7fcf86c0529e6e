//! Core logic of a three-button programmable USB HID keypad.
//!
//! The crate verifies the three subsystems at the heart of the firmware:
//! the wear-leveled flash configuration store, the two-interface HID class
//! state machine with its control-channel command decoding, and the key
//! matrix that turns debounced button states into boot-keyboard input
//! reports.  Hardware access (USB endpoints, the flash peripheral, GPIO
//! sampling) stays outside; the library works on plain values and models
//! the configuration page as data.

pub mod cmd_queue;
pub mod descriptors;
pub mod flash;
pub mod hid;
pub mod key_code;
pub mod matrix;
pub mod packets;
pub mod scan;

pub use key_code::KbHidReport;
pub use key_code::KeyCode;
