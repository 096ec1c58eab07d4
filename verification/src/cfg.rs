//! The control-flow graph of a function.

use crate::ast::{Block, Body, Function, FunctionBody, FunctionKey};
use vstd::prelude::*;

verus! {

/// The label of the first block and the blocks, where the function has a body.
pub fn function_cfg(function: &Function) -> (r: Option<(usize, &Vec<Block>)>)
    ensures
        match function.body {
            FunctionBody::Defined(body) => r == Some((body.start, &body.blocks)),
            FunctionBody::Native => r is None,
        },
{
    match &function.body {
        FunctionBody::Defined(body) => Some((body.start, &body.blocks)),
        FunctionBody::Native => None,
    }
}

/// The body of a function that is not native.
pub fn build_cfg(function: &Function) -> (r: Option<&Body>)
    ensures
        match function.body {
            FunctionBody::Defined(body) => r == Some(&body),
            FunctionBody::Native => r is None,
        },
{
    match &function.body {
        FunctionBody::Defined(body) => Some(body),
        FunctionBody::Native => None,
    }
}

/// The name of a function as text.
pub fn function_name_text(key: &FunctionKey) -> (r: String)
    ensures
        r@ == key.name@,
{
    key.name.clone()
}

} // verus!
