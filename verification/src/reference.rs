//! The kinds of entry of a dex file's constant pool.

use vstd::prelude::*;

verus! {

/// The table of the constant pool that an index points into.
#[derive(Clone, Copy, Debug, PartialEq, Eq, Structural, Hash)]
pub enum Type {
    String,
    Type,
    Field,
    Method,
    MethodHandle,
    Prototype,
    CallSite,
}

} // verus!
