use vstd::prelude::*;

verus! {

broadcast use vstd::string::to_string_from_display_ensures_for_str;

/// The answer to a request to create a configuration.
#[derive(Debug)]
pub enum CreateConfig {
    Succes { id: String },
    Error { error_msg: String },
}

/// A command sent to the configuration service.
#[derive(Debug)]
pub enum ConfigCommand {
    CreateConfig { description: String, name: String },
}

/// The id that a creation request is answered with.
pub open spec fn placeholder_id() -> Seq<char> {
    "xxxx-xxx-xxx-xxxx"@
}

/// Answers a creation command. The command is not acted upon yet: every
/// command is answered with success and the placeholder id.
pub fn create_config(command: &ConfigCommand) -> (r: CreateConfig)
    ensures
        r matches CreateConfig::Succes { id } && id@ == placeholder_id(),
{
    CreateConfig::Succes { id: "xxxx-xxx-xxx-xxxx".to_string() }
}

/// The greeting served at the root path.
#[derive(Debug)]
pub struct HelloWorldResponse {
    pub message: String,
}

/// Answers the root path with the greeting.
pub fn hello_world() -> (r: HelloWorldResponse)
    ensures
        r.message@ == "Hello world!"@,
{
    HelloWorldResponse { message: "Hello world!".to_string() }
}

} // verus!
