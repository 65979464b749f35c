pub mod bind;
pub mod encoding;
pub mod error;
pub mod eval;
pub mod from_csv;
pub mod host;
pub mod hostread;
pub mod open_cmd;
pub mod parse;
pub mod registry;
pub mod response;
pub mod signature;
pub mod value;

use vstd::prelude::*;
use crate::error::Outcome;
use crate::eval::{create_default_context, default_registry_ok, eval_post, evaluate};
use crate::host::Host;
use crate::registry::CommandRegistry;
use crate::response::{encode_response, json_of_outcome};

verus! {

/// The entry point for one line of shell syntax: builds a fresh context
/// holding the default command set, evaluates the line against it, and
/// serializes the outcome for the host. The context lives only inside this
/// call, so concurrent invocations observe nothing of each other.
pub fn run_nu<H: Host>(line: &str, host: &H) -> (r: String)
    ensures
        exists|out: Outcome, reg: CommandRegistry|
            {
                &&& #[trigger] json_of_outcome(out) == r@
                &&& #[trigger] default_registry_ok(reg)
                &&& eval_post(line@, reg, out)
            },
{
    match create_default_context() {
        Err(m) => {
            let o = Outcome::InternalError(m);
            encode_response(&o)
        },
        Ok(ctx) => {
            let out = evaluate(line, &ctx, host);
            let r = encode_response(&out);
            proof {
                assert(json_of_outcome(out) == r@ && default_registry_ok(ctx.registry)
                    && eval_post(line@, ctx.registry, out));
            }
            r
        },
    }
}

} // verus!
