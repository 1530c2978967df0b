//! Symbolic computation graphs for transformer-style networks: tensor
//! metadata, operator shape inference, a scoped graph builder and the
//! tensor-parallel weight rewriter.

pub mod arg;
pub mod ctx;
pub mod dim;
pub mod dtype;
pub mod graph;
pub mod nn;
pub mod op;
pub mod tensor;

pub use arg::Arg;
pub use ctx::nn_ctx::Context;
pub use ctx::{GraphBuilder, OpLib};
pub use dim::Dim;
pub use dtype::Dtype;
pub use graph::NNGraph;
pub use nn::{NNError, NuralNetwork};
pub use op::{Op, OpError, Operator};
pub use tensor::{Tensor, TensorMeta};
