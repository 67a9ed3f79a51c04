//! What holds of the library as a whole: laws that relate several of its functions, proved over
//! the specifications that the functions meet.
pub mod clients;
pub mod filter;
pub mod headers;
pub mod hello;
pub mod limits;
pub mod messages;
pub mod networks;
pub mod pages;
pub mod paths;
pub mod pipeline;
pub mod scores;
pub mod setup;
pub mod signals;
pub mod stages;
pub mod targets;
pub mod texts;
pub mod tls;
pub mod tokens;
pub mod views;
