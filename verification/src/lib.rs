//! State synchronisation for a control panel of a Pixotope device: decoding
//! of the device's answers, the catalogue of color spaces, the snapshot of
//! the last known state, and the diff that each poll runs against it.

pub mod cameras;
pub mod color_space;
pub mod common;
pub mod decode;
pub mod input_output;
pub mod json;
pub mod state;
pub mod text;
