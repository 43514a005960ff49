//! Lowering of checked functions to MIR.

pub mod arc;
pub mod assignment;
pub mod atomics;
pub mod call;
pub mod call_laws;
pub mod cleanup;
pub mod context;
pub mod effects;
pub mod emission;
pub mod execution;
pub mod infer;
pub mod kinds;
pub mod laws;
pub mod loan_laws;
pub mod loans;
pub mod method_laws;
pub mod methods;
pub mod mutex;
pub mod outline;
pub mod ownership;
pub mod refusals;
pub mod safety;
pub mod safety_laws;
pub mod setup;
pub mod spsc;
pub mod state;
pub mod task_laws;
pub mod threads;
pub mod values;
