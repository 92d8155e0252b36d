use vstd::prelude::*;
use vstd::utf8::*;
use crate::command_registry::{dispatch_spec, run_command, CommandOutcome, CommandRegistry};

pub mod test;

verus! {

/// Relies on `core::str::from_utf8`: the bytes read as text exactly when they
/// are well-formed UTF-8.
#[verifier::external_body]
fn utf8_text(bytes: &[u8]) -> (r: Option<&str>)
    ensures
        match r {
            Some(s) => valid_utf8(bytes@) && s@ == decode_utf8(bytes@),
            None => !valid_utf8(bytes@),
        },
{
    core::str::from_utf8(bytes).ok()
}

/// Dispatches a finished input line, as the bytes the line editor collected.
/// Bytes that are not UTF-8 give `None` ("failed to parse command");
/// otherwise the line is resolved as `run_command` does.
pub fn handle_command<W: Copy, N: Copy>(registry: &CommandRegistry<W, N>, command_bytes: &[u8]) -> (r:
    Option<CommandOutcome<W, N>>)
    requires
        registry.wf(),
    ensures
        r is None <==> !valid_utf8(command_bytes@),
        r matches Some(o) ==> dispatch_spec(registry.view(), decode_utf8(command_bytes@), o),
{
    match utf8_text(command_bytes) {
        Some(line) => Some(run_command(registry, line)),
        None => None,
    }
}

} // verus!
