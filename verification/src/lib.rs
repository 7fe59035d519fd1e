//! A marshaling layer between contract code and the host that runs it.
//!
//! The host offers a few primitives that move bytes through buffers of
//! fixed size and answer with an integer.  This library holds what a
//! contract needs on top of them, proved correct with Verus:
//!
//! - `reader`: reassembling a value that the host hands over page by page;
//! - `types` and `value`: the codec between native values and bytes;
//! - `frame`: packing the arguments of a call into another contract;
//! - `codegen`: planning and running the entry point of a typed function;
//! - `function`, `argument`, `abi` and `syntax`: extracting the catalog of a
//!   contract's entry points from its declarations;
//! - `api`: what the answers of the host's primitives mean;
//! - `basic`: a small contract built on the layer.
//!
//! The library makes no call to the host itself.  Where work alternates
//! between the host and the contract, the library decides and describes
//! what to ask next; the caller asks.

pub mod abi;
pub mod api;
pub mod argument;
pub mod basic;
pub mod big_endian;
pub mod codegen;
pub mod error;
pub mod frame;
pub mod function;
pub mod reader;
pub mod syntax;
pub mod types;
pub mod utils;
pub mod value;
