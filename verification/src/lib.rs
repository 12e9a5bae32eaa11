//! Core of a flexible metronome: tempo values, the structure of a musical
//! composition (movements, sections, bars, repetitions), its expansion into a
//! performance sequence, bar lookup, and validation.

pub mod tempo;
pub mod text;
pub mod strings;
pub mod beats;
pub mod composition;
pub mod meter;
pub mod ticker;
pub mod publisher;
pub mod performance;
pub mod bar_reference;
pub mod reader;
pub mod yaml_form;
pub mod flutter;
pub mod tempo_sequence;
pub mod section;
pub mod yaml_doc;
pub mod ticks;
pub mod measure;
