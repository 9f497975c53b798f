//! YAML configuration: sources, entities, bindings and routing rules, and
//! their validation into a `CompiledConfig`.

pub mod errors;
pub mod secret;
pub mod routing;
pub mod source;
pub mod config_file;
pub mod compiled;
pub mod loader;
