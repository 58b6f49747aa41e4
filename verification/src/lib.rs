//! Constraint algebra behind the finite floating-point types.
#![allow(unused_imports)]

use vstd::prelude::*;

pub mod text;
pub mod conditions;
pub mod float_key;
pub mod config_types;
pub mod config;
pub mod arithmetic;
pub mod conversion;
pub mod constants;
pub mod unary_ops;
pub mod doc_generator;
pub mod generator;
pub mod input;
