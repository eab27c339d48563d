//! Native backend core of a GUI toolkit: UTF-8 boundary arithmetic, per-widget text-input
//! state with caret, selection and IME overlay, the widget registry, the host's editing
//! events and buffer reads, the text side of caret measurement, a reference-counted image
//! cache, and the status values reported to the host.

pub mod boundary;
pub mod events;
pub mod images;
pub mod manager;
pub mod measure;
pub mod status;
pub mod text_input;
