//! Settings and commands of the committed code generation.

use crate::text;
use vstd::prelude::*;

verus! {

/// Generation knobs of a project's generated surfaces.
#[derive(Debug, PartialEq, Eq)]
pub struct GenerateConfig {
    /// The function that generated HTTP handlers dispatch to.
    pub http_dispatch_fn: String,
    /// The state type of generated HTTP handlers.
    pub http_state_type: String,
    /// What generated event-stream bindings are prefixed with.
    pub sse_binding_prefix: String,
    /// The name of the generator in generated files.
    pub generator_name: String,
}

/// Generation knobs for this project: generated HTTP handlers dispatch to the
/// shared operation executor with the application state.
pub fn rite_generate_config() -> (r: GenerateConfig)
    ensures
        r.http_dispatch_fn@ == "crate::dispatch::execute_operation_http"@,
        r.http_state_type@ == "crate::AppState"@,
        r.sse_binding_prefix@ == "super::"@,
        r.generator_name@ == "hydra (rite)"@,
{
    GenerateConfig {
        http_dispatch_fn: "crate::dispatch::execute_operation_http".to_owned(),
        http_state_type: "crate::AppState".to_owned(),
        sse_binding_prefix: "super::".to_owned(),
        generator_name: "hydra (rite)".to_owned(),
    }
}

/// What the generator is asked to do.
#[derive(Debug, Clone, Copy, PartialEq, Eq, Structural)]
pub enum CodegenCommand {
    /// Write the generated files.
    Write,
    /// Check that the committed files are what would be generated.
    Check,
}

/// The command that the first argument names; checking where there is none.
pub open spec fn command_named(argument: Option<Seq<char>>) -> Option<CodegenCommand> {
    match argument {
        None => Some(CodegenCommand::Check),
        Some(name) => if name == "write"@ {
            Some(CodegenCommand::Write)
        } else if name == "check"@ {
            Some(CodegenCommand::Check)
        } else {
            None
        },
    }
}

/// The command that the first argument names; checking where there is none.
pub fn codegen_command(argument: Option<&str>) -> (r: Option<CodegenCommand>)
    ensures
        r == command_named(
            match argument {
                Some(name) => Some(name@),
                None => None,
            },
        ),
{
    match argument {
        None => Some(CodegenCommand::Check),
        Some(name) => if text::same(name, "write") {
            Some(CodegenCommand::Write)
        } else if text::same(name, "check") {
            Some(CodegenCommand::Check)
        } else {
            None
        },
    }
}

/// The generator writes only when told to, checks when told to or told nothing, and
/// takes no other command.
pub proof fn commands_are_two(name: Seq<char>)
    ensures
        command_named(None) == Some(CodegenCommand::Check),
        command_named(Some(name)) == Some(CodegenCommand::Write) <==> name == "write"@,
        command_named(Some(name)) == Some(CodegenCommand::Check) <==> name == "check"@,
        name != "write"@ && name != "check"@ ==> command_named(Some(name)) is None,
{
    reveal_strlit("write");
    reveal_strlit("check");
    assert("write"@[0] == 'w' && "check"@[0] == 'c');
}

} // verus!
