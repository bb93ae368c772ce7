//! Reading and writing SubStation Alpha subtitle scripts (`.ssa`, `.ass`).
//!
//! A script is text in sections: `[Script Info]` holds properties, the styles
//! and the events are tables whose columns a `Format:` line declares, and
//! `[Fonts]` and `[Graphics]` list names. [`file::File`] is a whole script;
//! [`file::File::parse_text`] reads one and [`file::File::to_string`] writes
//! one.
//!
//! Every function comes with a contract over a model of its data: a text is
//! a `Seq<char>`, a record is a sequence of slots, and so on. The models and
//! what is proved of them stand beside the functions; [`text`], [`num`],
//! [`assoc`] and [`record`] hold what the others share.

pub mod assoc;
pub mod error;
pub mod events;
pub mod file;
pub mod float_text;
pub mod fonts;
pub mod graphics;
pub mod num;
pub mod parser;
pub mod record;
pub mod script_info;
pub mod styles;
pub mod text;
pub mod timecode;
pub mod value;
pub mod version;

pub use timecode::format_duration;
pub use timecode::Duration;
