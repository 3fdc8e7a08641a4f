//! A minimal inference-time neural-network layer framework: tensors with
//! verified shape arithmetic, a `Layer` capability contract, affine and
//! flattening layers, a loader that reconciles requested parameter shapes
//! against whatever a weight archive stores, and an ordered model that
//! chains layers into a single forward pass.
pub mod flatten;
pub mod linear;
pub mod model;
pub mod tensor;
pub mod traits;
pub mod weight_loader;
