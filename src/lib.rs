//! Planning logic for building and packaging a Ferron web server distribution:
//! which toolchain to request, how to select the target and feature modules,
//! and what goes into the distributable ZIP archive.

pub mod archive;
pub mod compile;
pub mod toolchain;
