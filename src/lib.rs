//! A client for a GraphQL indexer's developer-reward records: it builds the
//! request for an era, judges the HTTP answer and reads the reward amount
//! out of a fixed-shape JSON response.
pub mod request;
pub mod response;
pub mod indexer;
pub mod guarantees;
