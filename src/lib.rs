//! Client-side core of a transparency-log backed package registry: log
//! validators, the checkpoint synchronizer, the publish pipeline and the
//! namespace resolver, with their contracts.

pub mod digest;
pub mod encoding;
pub mod signing;
pub mod error;
pub mod checkpoint;
pub mod record;
pub mod validator;
pub mod sync;
pub mod resolver;
pub mod publish;
pub mod client;
pub mod versions;
pub mod memory;
