//! What holds of the library as a whole, written out from the configuration, the
//! call and the reply that each operation is given.

pub mod breaker;
pub mod call;
pub mod course;
pub mod models;
pub mod settings;
pub mod text;
pub mod transport;
