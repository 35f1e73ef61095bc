//! Core logic of the DragonFox terminal assistant and its small editor:
//! text utilities, the syntax highlighter's tokenizer, the chat request and
//! reply handling, and the editor's state machine.

pub mod text;
pub mod highlighter;
pub mod ai;
pub mod ide;
