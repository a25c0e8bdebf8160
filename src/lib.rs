// Session engine for a web chat protocol: the login handshake's parsing, the
// authenticated session and its request bodies, the sync cursor, the contact
// and group directory, the sync loop's decisions and the message dispatcher.

pub mod text;
pub mod cursor;
pub mod directory;
pub mod parse;
pub mod session;
pub mod dispatch;
pub mod sync;
pub mod outgoing;
pub mod events;
pub mod headers;
