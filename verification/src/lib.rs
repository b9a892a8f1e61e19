//! Verified core of a DXF/DWG benchmark harness: scale presets, the layout of
//! the generated drawings, input-file classification, runner-output framing
//! and the Markdown report.
pub mod custom;
pub mod generators;
pub mod gui;
pub mod report;
pub mod runners;
pub mod text;
