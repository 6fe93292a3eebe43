//! A verified core for a small chat-platform reaction bot.
//!
//! The library holds the bot's logic: parsing a message reference out of a
//! URL or bare ID, building interaction reply payloads, filtering and
//! rendering reaction summaries, the registered command schema, and the
//! decision taken for each gateway event. The surrounding process (gateway
//! connection, HTTP calls, async dispatch) lives outside the library and
//! exchanges plain values with it.

pub mod commands;
pub mod digits;
pub mod dispatch;
pub mod parse;
pub mod render;
pub mod reply;
pub mod rinfo;
pub mod summary;
pub mod tokens;
