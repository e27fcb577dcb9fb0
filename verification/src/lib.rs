pub mod accumulator;
pub mod columns;
pub mod filter;
pub mod message;
pub mod record;
pub mod schema;
pub mod stream;

pub use crate::schema::get_arrow_schema;
pub use crate::stream::log2arrow_ipc_stream_writer;
