//! Decoding of tabular query results from a cloud data warehouse's HTTP API
//! into strongly typed records, with lazy streaming of multi-partition
//! result sets.
//!
//! Every cell on the wire is either absent or a string; type semantics are
//! implicit (timestamps as decimal seconds since the epoch, dates as integer
//! days since the epoch, timezone offsets in minutes). This crate turns that
//! loosely typed, partitioned wire format into typed, ordered records, and
//! proves the decoding rules correct.

use vstd::prelude::*;

pub mod civil;
pub mod datetime;
pub mod error;
pub mod numstr;
pub mod pagination;
pub mod partitions;
pub mod paths;
pub mod query;
pub mod record;
pub mod response;
pub mod row;
pub mod scan;
pub mod selectable;
pub mod uuid_val;
pub mod value;

pub use crate::datetime::Date;
pub use crate::datetime::Timestamp;
pub use crate::error::CredentialsError;
pub use crate::error::Error;
pub use crate::error::Error as DeserializeError;
pub use crate::error::FromRowError;
pub use crate::pagination::Page;
pub use crate::pagination::PageState;
pub use crate::pagination::Pagination;
pub use crate::partitions::Partition;
pub use crate::partitions::PartitionStep;
pub use crate::partitions::Partitions;
pub use crate::query::sql;
pub use crate::query::Binding;
pub use crate::query::BindingKind;
pub use crate::query::QueryBuilder;
pub use crate::query::SnowflakeQuery;
pub use crate::query::StatementParameters;
pub use crate::record::ColumnType;
pub use crate::record::FieldSpec;
pub use crate::record::Value;
pub use crate::response::MetaData;
pub use crate::response::PartitionInfo;
pub use crate::response::Response;
pub use crate::response::ResponseInfo;
pub use crate::response::RowType;
pub use crate::row::FromRow;
pub use crate::row::RawRow;
pub use crate::row::Row;
pub use crate::row::RowAccess;
pub use crate::selectable::Selectable;
pub use crate::uuid_val::UuidVal;
pub use crate::value::FromValue;

verus! {

/// A private key in PEM form.
pub struct PrivateKey(pub String);

/// A public key in PEM form.
pub struct PublicKey(pub String);

} // verus!
