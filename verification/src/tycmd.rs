//! How the discovery tool is invoked.

use vstd::prelude::*;
use vstd::string::*;

verus! {

/// The name under which the discovery tool is bundled.
pub const TYCMD_SIDECAR: &'static str = "tycmd";

/// The two ways of asking the tool for the devices.
#[derive(Debug, Clone, Copy, PartialEq, Eq, Structural)]
pub enum InvokeTyCmd {
    /// Report the current devices once, then exit.
    List,
    /// Report the devices and every later change, without end.
    Watch,
}

/// The arguments that ask the tool for the devices.
pub open spec fn arguments_of(command: InvokeTyCmd) -> Seq<Seq<char>> {
    match command {
        InvokeTyCmd::List => seq!["list"@, "--verbose"@, "--output"@, "json"@],
        InvokeTyCmd::Watch => seq!["list"@, "--verbose"@, "--watch"@, "--output"@, "json"@],
    }
}

/// The views of a list of texts.
pub open spec fn names_view(names: Seq<&'static str>) -> Seq<Seq<char>> {
    Seq::new(names.len(), |i: int| names[i]@)
}

/// The arguments that ask the tool for the devices.
pub fn tycmd_arguments(command: InvokeTyCmd) -> (arguments: Vec<&'static str>)
    ensures
        names_view(arguments@) == arguments_of(command),
{
    let mut arguments: Vec<&'static str> = Vec::new();
    arguments.push("list");
    arguments.push("--verbose");
    match command {
        InvokeTyCmd::List => {},
        InvokeTyCmd::Watch => {
            arguments.push("--watch");
        },
    }
    arguments.push("--output");
    arguments.push("json");
    assert(names_view(arguments@) =~= arguments_of(command));
    arguments
}

/// Whether the tool's events are read no further: a listing is over after
/// the first event that was handled, a watch never is.
pub fn stops_after(command: InvokeTyCmd, handled: bool) -> (stop: bool)
    ensures
        stop == (command == InvokeTyCmd::List && handled),
{
    match command {
        InvokeTyCmd::List => handled,
        InvokeTyCmd::Watch => false,
    }
}

/// The provider of devices that asks the discovery tool.
#[derive(Debug, Clone, Copy, PartialEq, Eq, Structural)]
pub struct TycmdProvider;

impl TycmdProvider {
    /// The invocations that a start makes, in order: the current devices
    /// are listed first, then the changes are watched.
    pub fn startup_commands(&self) -> (commands: Vec<InvokeTyCmd>)
        ensures
            commands@ == seq![InvokeTyCmd::List, InvokeTyCmd::Watch],
    {
        let mut commands: Vec<InvokeTyCmd> = Vec::new();
        commands.push(InvokeTyCmd::List);
        commands.push(InvokeTyCmd::Watch);
        assert(commands@ =~= seq![InvokeTyCmd::List, InvokeTyCmd::Watch]);
        commands
    }
}

impl Default for TycmdProvider {
    fn default() -> (provider: Self)
        ensures
            provider == TycmdProvider,
    {
        TycmdProvider
    }
}

} // verus!
