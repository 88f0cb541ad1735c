pub mod api;
pub mod context;
pub mod decimal;
pub mod detail;
pub mod feed;
pub mod json;
pub mod keys;
pub mod kline;
pub mod meta;
pub mod number;
pub mod order;
pub mod pool;
pub mod pools;
pub mod rest;
pub mod search;
pub mod sse;
pub mod stream;
pub mod text;
pub mod types;
pub mod watch;
pub mod watchlist;
