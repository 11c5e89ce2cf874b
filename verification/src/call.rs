//! The call envelope: a module name, a function name, and an encodable
//! argument payload, handed as one unit to an external submission service.

use crate::codec::Encodable;
use vstd::prelude::*;

verus! {

/// A dispatchable module call. The names are drawn from exactly one schema
/// version's constant tables, and `args` is that version's argument struct
/// for the named function.
pub struct Call<T: Encodable> {
    /// Module name
    pub module: &'static str,
    /// Function name
    pub function: &'static str,
    /// Call arguments
    pub args: T,
}

impl<T: Encodable> Call<T> {
    /// Create a module call.
    pub fn new(module: &'static str, function: &'static str, args: T) -> (c: Call<T>)
        ensures
            c.module == module,
            c.function == function,
            c.args == args,
    {
        Call { module, function, args }
    }

    /// The bytes the submission service transmits for `args`.
    pub fn encode_args(&self) -> (r: Vec<u8>)
        ensures
            r@ == self.args.enc(),
    {
        crate::codec::encode(&self.args)
    }
}

} // verus!
