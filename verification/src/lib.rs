//! A small feed-forward neural-network engine: dense matrices with
//! elementwise and algebraic operations, activation and loss selectors,
//! a forward/backward/update cycle and a training session.
//!
//! Every scalar is a type parameter: the engine fixes the shapes, the
//! order of every combination and the bookkeeping of the layers, while
//! the caller supplies the scalar operations as closures.

pub mod activations;
pub mod combine;
pub mod data_loader;
pub mod dense_network;
pub mod dense_session;
pub mod high_freq_computation;
pub mod losses;
pub mod matrix;
pub mod network_format;
pub mod network_operations;
pub mod shapes;
pub mod text;
