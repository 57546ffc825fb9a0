//! An hp-adaptive finite-element discretization engine for two-dimensional
//! electromagnetic eigenvalue problems.
//!
//! The crate builds a mesh of refinable rectangular elements, attaches
//! hierarchical polynomial basis functions to each, and assembles two global
//! symmetric sparse matrices from per-element bilinear-form integrals, ready
//! for an external sparse generalized-eigenvalue solver.
//!
//! Real-valued quantities travel through the verified code as raw IEEE-754
//! bit patterns (see [`scalar`]), with the arithmetic itself behind a small
//! set of trusted primitives; the structural logic — mesh topology,
//! refinement, caching, sparse accumulation — is specified and proved.

pub mod aij;
pub mod basis;
pub mod domain;
pub mod eigenproblem;
pub mod elem;
pub mod element;
pub mod integration;
pub mod mesh;
pub mod refinement;
pub mod scalar;
pub mod space;
pub mod sparse_matrix;
