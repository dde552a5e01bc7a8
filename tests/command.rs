use rift::command::is_named;
use rift::command::matches_command;
use rift::command::proxy::ProxyCommand;
use rift::command::same_text;
use rift::command::version::VersionCommand;

#[test]
fn command_words() {
    let proxy = ProxyCommand;
    assert_eq!(proxy.get_label(), "proxy");
    assert_eq!(proxy.get_aliases(), vec!["rift"]);
    assert!(!proxy.is_console_only());
    assert!(matches_command("PROXY", proxy.get_label(), &proxy.get_aliases()));
    assert!(matches_command("Rift", proxy.get_label(), &proxy.get_aliases()));
    assert!(!matches_command("prox", proxy.get_label(), &proxy.get_aliases()));
    let version = VersionCommand;
    assert_eq!(version.get_label(), "version");
    assert_eq!(version.get_aliases(), vec!["ver"]);
    assert!(version.is_console_only());
    assert!(is_named("ver", version.get_label(), &version.get_aliases()));
    assert!(!is_named("VER", version.get_label(), &version.get_aliases()));
}

#[test]
fn proxy_command_replies() {
    let proxy = ProxyCommand;
    let args = |v: &[&str]| v.iter().map(|s| s.to_string()).collect::<Vec<String>>();
    assert_eq!(proxy.execute(&args(&[]), "0.1.0"), "You are on proxy Test.");
    assert_eq!(proxy.execute(&args(&["VERSION"]), "0.1.0"), "Rift version 0.1.0");
    assert_eq!(proxy.execute(&args(&["x", "ver"]), "0.1.0"), "Rift version 0.1.0");
    assert_eq!(proxy.execute(&args(&["Shutdown"]), "0.1.0"), "Stopping the proxy server..");
    assert_eq!(proxy.execute(&args(&["list"]), "0.1.0"), "Players: ");
    assert_eq!(proxy.execute(&args(&["list", "nope"]), "0.1.0"), "Unknown proxy command.");
    assert_eq!(proxy.reply_to("kill", "1"), "Stopping the proxy server..");
    assert_eq!(VersionCommand.execute("0.1.0"), "version: 0.1.0");
}

#[test]
fn text_equality() {
    assert!(same_text("abc", "abc"));
    assert!(!same_text("abc", "abd"));
    assert!(!same_text("\u{e9}", "e"));
}
