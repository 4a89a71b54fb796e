//! The terminal that the command runs in, as JSON.

use crate::context;
use crate::context::{context_json, detected, Env};
use crate::json;
use crate::json::json_text_pretty;
use vstd::prelude::*;

verus! {

/// The terminal that variables tell of, as indented JSON.
pub fn run(env: &Env) -> (r: Result<String, String>)
    ensures
        match r {
            Ok(s) => json_text_pretty(context_json(detected(*env))) == Ok::<
                Seq<char>,
                Seq<char>,
            >(s@),
            Err(e) => json_text_pretty(context_json(detected(*env))) == Err::<
                Seq<char>,
                Seq<char>,
            >(e@),
        },
{
    let found = context::detect(env).to_json();
    json::render_pretty(&found)
}

} // verus!
