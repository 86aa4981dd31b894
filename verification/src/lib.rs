//! Bookkeeping core of a mixture of probabilistic PCA components.
//!
//! A mixture owns an ordered, non-empty list of components that all emit
//! vectors of one dimension, and one log-weight per component. This crate
//! keeps that layout consistent, accounts for the free parameters of the
//! mixture, and lines up per-component results with the log-weights and with
//! each other, sample by sample and component by component. The numeric
//! kernels that consume those line-ups work on floating point values and are
//! supplied by the caller.

pub mod component;
pub mod mixture;
pub mod table;
