use vstd::prelude::*;

verus! {

/// The capability through which the engine reaches the host's file store.
/// The embedding environment implements it; the engine only consumes it.
///
/// `read_file` hands back the raw text of the host's read callback: a JSON
/// object wrapping either the file's bytes or a host-side failure message.
/// The interface fixes the exact compact form — `{"Ok":{"data":[8,13]}}`
/// with decimal bytes, or `{"Err":"msg"}` with only `\"` and `\\` escaped,
/// and no whitespace anywhere — which is what a standard serializer emits
/// for such a result. Nothing is assumed of the response here: the engine
/// validates whatever comes back and treats every other shape as a failed
/// open, so the verified guarantees hold for any host behaviour.
pub trait Host {
    fn read_file(&self, path: &String) -> String;
}

} // verus!
