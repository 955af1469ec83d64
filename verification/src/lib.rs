pub mod classify;
pub mod codec;
pub mod emit;
pub mod envelope;
pub mod groups;
pub mod parse;
pub mod pipeline;
pub mod scan;
pub mod server;
