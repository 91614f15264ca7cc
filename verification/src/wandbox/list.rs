use vstd::prelude::*;

verus! {

/// The compilers that the compile service offers.
#[derive(Debug)]
pub struct Response(pub Vec<Compiler>);

/// One compiler that the compile service offers.
#[derive(Debug)]
pub struct Compiler {
    pub compiler_option_raw: bool,
    pub runtime_option_raw: bool,
    pub display_compile_command: String,
    pub switches: Vec<Switch>,
    pub name: String,
    pub version: String,
    pub language: String,
    pub display_name: String,
    pub templates: Vec<String>,
}

/// A switch that a compiler can be run with: one that is on or off, or a
/// choice among several options.
#[derive(Debug)]
#[allow(inconsistent_fields)]
pub enum Switch {
    Single { default: bool, name: String, display_flags: String, display_name: String },
    Select { default: String, options: Vec<SwitchOption> },
}

/// One option of a switch that offers a choice.
#[derive(Debug)]
pub struct SwitchOption {
    pub name: String,
    pub display_flags: String,
    pub display_name: String,
}

} // verus!
