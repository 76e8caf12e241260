//! Data-oblivious algorithms over homomorphically encrypted integers,
//! together with an operation-cost model that predicts the homomorphic
//! work each algorithm performs from its public control structure alone.
//!
//! The encrypted-integer capability lives behind the trusted boundary in
//! [`fhe`]; everything above it — the oblivious primitives, the four
//! algorithms and the cost model — is verified: each function's contract
//! pins the value its result decrypts to, and the number of homomorphic
//! operations it issues as a function of public sizes alone.

pub mod cost;
pub mod db;
pub mod fhe;
pub mod floyd;
pub mod oblivious;
pub mod sort;
pub mod tree;
pub mod workloads;
