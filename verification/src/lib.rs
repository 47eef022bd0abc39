//! Typed row streams over the PostgreSQL binary bulk-export protocol.
//!
//! A source names connections and, for each, the relations to export. The
//! rows of a relation are asked for by one `COPY ... TO STDOUT (FORMAT
//! BINARY)` command whose columns follow from the type of the rows, and are
//! decoded from the chunks that the export delivers.

pub mod binary_copy;
pub mod buffer;
pub mod data;
pub mod error;
pub mod export;
pub mod identifier;
pub mod params;
pub mod relation;
pub mod source;

pub use binary_copy::BinaryCopyOutStream;
pub use data::read_be_i32;
pub use data::read_value;
pub use data::DecodeError;
pub use data::PostgresData;
pub use error::IoError;
pub use error::IoErrorKind;
pub use error::PostgresError;
pub use identifier::Names;
pub use params::ConnectParams;
pub use relation::Source;
pub use relation::Table;
pub use source::Assignment;
pub use source::Postgres;
pub use source::RowError;
