//! A concurrent HTTP load-generation library: a request description built
//! from a JSON configuration, a single-writer tally of response status codes,
//! the dispatch bookkeeping for a bounded or unbounded run, and renderers for
//! the final tally.

pub mod aggregator;
pub mod assoc;
pub mod config;
pub mod output;
pub mod sender;
pub mod stresster;
pub mod tally;
pub mod text;
pub mod types;

pub use aggregator::{counting_machine, Aggregator};
pub use config::{build_request_data, parse_request_config, ConfigDoc, HeadersField, TextField};
pub use output::{produce_output, JSONProducer, OutputProducer, RenderedOutput, TableProducer};
pub use sender::{command_for_outcome, Outcome, TRANSPORT_ERROR_CODE};
pub use stresster::{Stresster, CHANNEL_CAPACITY};
pub use tally::Tally;
pub use types::{Command, ConfigError, HttpMethods, OutputFormat, RequestData};
