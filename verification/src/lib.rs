//! Test discovery, impact selection and result bookkeeping for a Python
//! test runner, with their contracts proved by Verus.

pub mod collector;
pub mod coverage;
pub mod fingerprint;
pub mod impact;
pub mod pattern;
pub mod pipeline;
pub mod runner;
pub mod text;

