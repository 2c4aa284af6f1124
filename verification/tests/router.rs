use zenoh_plugin_rest::router::{flag_given, merge_listeners, merge_peers, plugin_lookup_enabled};
use zenoh_plugin_rest::{plugins_from_args, router_settings};

fn strings(v: &[&str]) -> Vec<String> {
    v.iter().map(|s| s.to_string()).collect()
}

#[test]
fn plugins_named_on_the_command_line() {
    let args = strings(&["zenohd", "-P", "a.so", "--plugin=b.so", "--plugin", "c.so", "-l", "tcp/x", "-P"]);
    assert_eq!(plugins_from_args(&args), strings(&["a.so", "b.so", "c.so"]));
    assert_eq!(plugins_from_args(&strings(&["zenohd"])), Vec::<String>::new());
    assert_eq!(plugins_from_args(&strings(&["--plugin="])), strings(&[""]));
    assert_eq!(plugins_from_args(&strings(&["-P", "-P", "x"])), strings(&["-P"]));
}

#[test]
fn flags() {
    let args = strings(&["zenohd", "--no-timestamp"]);
    assert!(flag_given(&args, "--no-timestamp"));
    assert!(!flag_given(&args, "--plugin-nolookup"));
    assert!(plugin_lookup_enabled(&args));
    assert!(!plugin_lookup_enabled(&strings(&["--plugin-nolookup"])));
}

#[test]
fn peers() {
    assert_eq!(merge_peers(&strings(&["tcp/a:1", "tcp/b:2"]), None), "tcp/a:1,tcp/b:2");
    assert_eq!(merge_peers(&strings(&["tcp/a:1"]), Some("tcp/c:3")), "tcp/a:1,tcp/c:3");
    assert_eq!(merge_peers(&strings(&[]), Some("tcp/c:3")), ",tcp/c:3");
    assert_eq!(merge_peers(&strings(&[]), None), "");
}

#[test]
fn listeners() {
    assert_eq!(merge_listeners(&strings(&["tcp/0.0.0.0:7447"]), Some("udp/x:1")), ",udp/x:1");
    assert_eq!(merge_listeners(&strings(&["tcp/0.0.0.0:7447"]), None), "tcp/0.0.0.0:7447");
    assert_eq!(merge_listeners(&strings(&["tcp/a:1"]), Some("udp/x:1")), "tcp/a:1,udp/x:1");
}

#[test]
fn settings() {
    let r = router_settings(
        &strings(&["zenohd", "--no-timestamp"]),
        &strings(&["tcp/p:1"]),
        &strings(&["tcp/0.0.0.0:7447"]),
        None,
        None,
    );
    assert_eq!(r.mode, "router");
    assert_eq!(r.peer, "tcp/p:1");
    assert_eq!(r.listener, "tcp/0.0.0.0:7447");
    assert_eq!(r.add_timestamp, "false");
    let r = router_settings(&strings(&["zenohd"]), &strings(&[]), &strings(&["tcp/l:1"]), Some("tcp/q:2"), Some("tcp/m:3"));
    assert_eq!(r.peer, ",tcp/q:2");
    assert_eq!(r.listener, "tcp/l:1,tcp/m:3");
    assert_eq!(r.add_timestamp, "true");
}
