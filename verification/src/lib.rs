pub mod arp;
pub mod codec;
pub mod connection;
pub mod health;
pub mod ident;
pub mod json;
pub mod store;
pub mod text;
pub mod wol;

pub use connection::{Connection, ConnectionConfig};
pub use health::{HealthResult, HealthStatus};
pub use ident::ConnectionId;
pub use json::Json;
pub use store::{ConfigStorage, StorageError};
pub use wol::{WakeError, WolError, WolPacket};
