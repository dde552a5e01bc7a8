//! The `version` command: the proxy's version, for the console only.
use vstd::prelude::*;
use vstd::string::StringExecFns;

verus! {

/// The command that tells the proxy's version.
pub struct VersionCommand;

impl VersionCommand {
    /// The word that runs this command.
    pub fn get_label(&self) -> (r: &'static str)
        ensures
            r@ == "version"@,
    {
        "version"
    }

    /// The other words that run this command.
    pub fn get_aliases(&self) -> (r: Vec<&'static str>)
        ensures
            r@.map_values(|a: &str| a@) == seq!["ver"@],
    {
        let mut v: Vec<&'static str> = Vec::new();
        v.push("ver");
        assert(v@.map_values(|a: &str| a@) =~= seq!["ver"@]);
        v
    }

    /// Only the console may run this command.
    pub fn is_console_only(&self) -> (r: bool)
        ensures
            r,
    {
        true
    }

    /// The answer: the version the proxy runs.
    pub fn execute(&self, version: &str) -> (r: String)
        ensures
            r@ == "version: "@ + version@,
    {
        let mut out = String::from_str("version: ");
        out.append(version);
        out
    }
}

} // verus!
