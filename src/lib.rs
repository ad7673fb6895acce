//! Verified core of a metrics ingestion service: the wire model, metric-name
//! normalisation, the per-batch SQL schema, CSV row layout, the schema
//! controller that reacts to missing tables and columns, the custom-type
//! bootstrap decision, the fan-out bus and the OpenTelemetry shape mapping.

pub mod bus;
pub mod config;
pub mod controller;
pub mod errors;
pub mod grouping;
pub mod model;
pub mod order;
pub mod otlp;
pub mod receiver;
pub mod registry;
pub mod rows;
pub mod schema;
pub mod text;
pub mod writer;
