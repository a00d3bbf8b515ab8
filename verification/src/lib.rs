pub mod chars;
pub mod clock;
pub mod codec;
pub mod laws;
pub mod report;
pub mod roundtrip;
pub mod model;
pub mod parse;
pub mod time;
pub mod tracker;
