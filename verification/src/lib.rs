//! A client-side codec for the memcached text and meta protocols.
//!
//! Commands are rendered to the exact bytes a server expects, replies are
//! decoded from an in-memory byte stream, a batch of commands is replayed
//! against the stream of its replies, and keys are routed to one of several
//! connections by their CRC32.

pub mod batch;
pub mod client;
pub mod commands;
pub mod decode;
pub mod dispatch;
pub mod encode;
pub mod laws;
pub mod meta;
pub mod model;
pub mod pipeline;
pub mod shard;
pub mod stream;
pub mod text;
pub mod types;

pub use crate::batch::Pipeline;
pub use crate::client::WatchStream;
pub use crate::model::Error;
pub use crate::shard::ClientCrc32;
pub use crate::stream::Connection;
pub use crate::types::Item;
pub use crate::types::LruArg;
pub use crate::types::LruCrawlerArg;
pub use crate::types::LruCrawlerCrawlArg;
pub use crate::types::LruCrawlerMetadumpArg;
pub use crate::types::LruCrawlerMgdumpArg;
pub use crate::types::LruMode;
pub use crate::types::MaFlag;
pub use crate::types::MaItem;
pub use crate::types::MaMode;
pub use crate::types::MdFlag;
pub use crate::types::MdItem;
pub use crate::types::MgFlag;
pub use crate::types::MgItem;
pub use crate::types::MsFlag;
pub use crate::types::MsItem;
pub use crate::types::MsMode;
pub use crate::types::PipelineResponse;
pub use crate::types::SlabsAutomoveArg;
pub use crate::types::StatsArg;
pub use crate::types::WatchArg;
