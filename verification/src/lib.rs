//! Streams that arrive as NATS messages. One PUB is one Stream, the subject
//! kept beside it.
//!
//! NATS is a bus with a server in the middle, subjects with wildcards, and a
//! text protocol a person can read. A Receive Location connects to the server,
//! subscribes to a subject and takes what the server delivers; a Send Location
//! connects and publishes. Either may instead accept clients directly through
//! [`Session`], which is one client's worth of server.
//!
//! What is here is core NATS: at-most-once, no acknowledgement. It decides what
//! bytes mean and what is to be written next; the bytes themselves are moved by
//! whoever holds the connection. The origin of a Stream carries what the line
//! knew: `nats://server/subject?sid=1`.
//!
//! * [`wire`]: lines, and how they are encoded and read.
//! * [`client`] and [`session`]: the two ends of a connection.
//! * [`location`]: where a Location speaks, and what it hands up.
//! * [`vocabulary`] and [`forms`]: what words, numbers and lines look like, and
//!   what is read off every text and every run of bytes.
//! * [`answers`]: what either end does with every line.
//! * [`models`]: what the models that contracts speak of keep of a value.
//! * [`framing`] and [`laws`]: what holds of all of these together.

pub mod answers;
pub mod client;
pub mod error;
pub mod forms;
pub mod framing;
pub mod laws;
pub mod location;
pub mod models;
pub mod session;
pub mod step;
pub mod text;
pub mod vocabulary;
pub mod wire;

pub use client::Client;
pub use error::Error;
pub use location::NatsTransport;
pub use session::Event;
pub use session::Session;
pub use step::Arrived;
pub use step::Step;
pub use wire::Line;
