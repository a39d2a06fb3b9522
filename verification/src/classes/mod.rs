//! Decoded-object interpreters built on the value-tree query surface.

pub mod p_ptr;
