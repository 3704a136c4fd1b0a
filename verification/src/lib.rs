//! Microphone management for PipeWire desktops: DeepFilterNet noise
//! suppression, microphone selection, and the Shure MV7's hardware DSP over
//! USB HID.
//!
//! The library holds the logic: the MV7's command protocol (`mv7`), reading
//! the PipeWire tools' output (`pipewire`), the noise-suppression procedures
//! as state machines (`noise`), the decisions behind the command-line
//! commands (`commands`), and the text handling they share (`text`). Running
//! commands, touching files and talking to the device are left to the
//! caller.

pub mod text;
pub mod mv7;
pub mod pipewire;
pub mod noise;
pub mod commands;
