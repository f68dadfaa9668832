//! Streams JSON documents into a document store through its bulk API: batching, the
//! bulk request format, retries under throttling, and the reading of bulk responses.
use vstd::prelude::*;

pub mod action;
pub mod auth;
pub mod bulk_response;
pub mod client;
pub mod dispatch;
pub mod document;
pub mod encoder;
pub mod known_host;
pub mod retry;
pub mod target;
pub mod text;

pub use action::BulkAction;
pub use auth::{Auth, AuthError};
pub use client::{ClientError, ElasticsearchBuilder, Header, HeaderKind};
pub use bulk_response::{BulkItem, BulkResponse, CausedBy, ErrorCause, ErrorType, ResponseError, ResponseItem};
pub use dispatch::{Batch, ElasticsearchOutput, OutputError, BATCH_SIZE};
pub use document::{Document, Field, FieldValue};
pub use encoder::{encode_batch, EncodingError};
pub use known_host::KnownHost;
pub use retry::{Reply, RetryState, TaskStep};
pub use text::comma_formatted;
pub use target::{classify_input, classify_output, InputError, InputKind, OutputKind};
