//! The `proxy` command and its subcommands.
use crate::command::lower_of;
use crate::command::lowercase;
use crate::command::same_text;
use vstd::prelude::*;
use vstd::string::StringExecFns;

verus! {

/// The command with which an operator asks about the proxy.
pub struct ProxyCommand;

/// The answer to the subcommand `word`, already lowered.
pub open spec fn subcommand_reply(word: Seq<char>, version: Seq<char>) -> Seq<char> {
    if word == "version"@ || word == "ver"@ {
        "Rift version "@ + version
    } else if word == "stop"@ || word == "end"@ || word == "kill"@ || word == "shutdown"@ {
        "Stopping the proxy server.."@
    } else if word == "list"@ {
        "Players: "@
    } else {
        "Unknown proxy command."@
    }
}

/// The answer to the `proxy` command with these arguments: the last argument,
/// lowered, picks the subcommand.
pub open spec fn proxy_reply(arguments: Seq<Seq<char>>, version: Seq<char>) -> Seq<char> {
    if arguments.len() == 0 {
        "You are on proxy Test."@
    } else {
        subcommand_reply(lower_of(arguments.last()), version)
    }
}

impl ProxyCommand {
    /// The word that runs this command.
    pub fn get_label(&self) -> (r: &'static str)
        ensures
            r@ == "proxy"@,
    {
        "proxy"
    }

    /// The other words that run this command.
    pub fn get_aliases(&self) -> (r: Vec<&'static str>)
        ensures
            r@.map_values(|a: &str| a@) == seq!["rift"@],
    {
        let mut v: Vec<&'static str> = Vec::new();
        v.push("rift");
        assert(v@.map_values(|a: &str| a@) =~= seq!["rift"@]);
        v
    }

    /// Players may run this command too.
    pub fn is_console_only(&self) -> (r: bool)
        ensures
            !r,
    {
        false
    }

    /// The answer to the subcommand `word`, already lowered.
    pub fn reply_to(&self, word: &str, version: &str) -> (r: String)
        ensures
            r@ == subcommand_reply(word@, version@),
    {
        if same_text(word, "version") || same_text(word, "ver") {
            let mut out = String::from_str("Rift version ");
            out.append(version);
            out
        } else if same_text(word, "stop") || same_text(word, "end") || same_text(word, "kill")
            || same_text(word, "shutdown") {
            String::from_str("Stopping the proxy server..")
        } else if same_text(word, "list") {
            String::from_str("Players: ")
        } else {
            String::from_str("Unknown proxy command.")
        }
    }

    /// The answer to the command with these arguments.
    pub fn execute(&self, arguments: &Vec<String>, version: &str) -> (r: String)
        ensures
            r@ == proxy_reply(arguments@.map_values(|a: String| a@), version@),
    {
        if arguments.len() == 0 {
            return String::from_str("You are on proxy Test.");
        }
        let last = arguments.len() - 1;
        let lowered = lowercase(arguments[last].as_str());
        self.reply_to(lowered.as_str(), version)
    }
}

} // verus!
