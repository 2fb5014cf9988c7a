//! A verified mbox viewer core: a regex-driven, stateful line-highlighting
//! engine, the mailbox model it annotates, and the pure decision logic of
//! the surrounding terminal interface.

pub mod highlight;
pub mod mbox;
pub mod pattern;
pub mod text;
pub mod ui;
