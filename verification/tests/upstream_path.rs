//! The sockets of upstream agents.

use cache_warden_cli::daemon::upstream_path::{
    is_group_container_path, link_is_current, link_name, resolve_upstream_path,
    sanitize_component, state_upstreams_dir,
};

#[test]
fn non_group_container_path_is_returned_verbatim() {
    let p = "/tmp/some-agent.sock";
    assert_eq!(resolve_upstream_path(p, None), p);
}

#[test]
fn linux_path_is_returned_verbatim() {
    // The ~/.1password/agent.sock Linux path is not a Group Container.
    let p = "/home/user/.1password/agent.sock";
    assert_eq!(resolve_upstream_path(p, None), p);
}

#[test]
fn a_group_container_is_reached_through_its_link() {
    let target = "/Users/u/Library/Group Containers/2BUA8C4S2C.com.1password/t/agent.sock";
    let link = "/Users/u/.local/state/cache-warden/upstreams/x.sock".to_string();
    assert!(is_group_container_path(target));
    assert_eq!(resolve_upstream_path(target, Some(link.clone())), link);
    // Without a link the path is used as it is.
    assert_eq!(resolve_upstream_path(target, None), target);
    // A link for any other path is not taken.
    assert_eq!(resolve_upstream_path("/tmp/a.sock", Some(link)), "/tmp/a.sock");
}

#[test]
fn link_names_hold_nothing_but_plain_characters() {
    assert_eq!(sanitize_component("agent.sock"), "agent");
    assert_eq!(sanitize_component("my agent:1.sock"), "my_agent_1");
    assert_eq!(sanitize_component("a-b_c"), "a-b_c");
    assert_eq!(sanitize_component("x.sock.sock"), "x");
    assert_eq!(sanitize_component(""), "agent");
    assert_eq!(sanitize_component(".sock"), "agent");
    assert_eq!(sanitize_component("../x"), "___x");
}

#[test]
fn two_sockets_never_share_a_link() {
    assert_eq!(link_name("/a/b/agent.sock", None), "agent.p-_a_b_agent.sock");
    assert_eq!(link_name("/", None), "agent.p-_");
    assert_eq!(link_name("/a b/_x", None), "_x.p-_a=32=b_=95=x");
    let one = "/Users/u/Library/Group Containers/2BUA8C4S2C.com.1password/t/agent.sock";
    let other = "/Users/u/Library/Group Containers/X.org.example/t/agent.sock";
    let home = Some("/Users/u");
    assert_eq!(link_name(one, home), "agent.g-2BUA8C4S2C.com.1password_t_agent.sock");
    assert_eq!(link_name(other, home), "agent.g-X.org.example_t_agent.sock");
    // What another user has there is named in full.
    assert_eq!(
        link_name(one, Some("/Users/v")),
        "agent.p-_Users_u_Library_Group=32=Containers_2BUA8C4S2C.com.1password_t_agent.sock"
    );
}

#[test]
fn a_link_is_kept_only_for_its_own_target() {
    assert!(link_is_current(&Some("/a/b".to_string()), "/a//b/"));
    assert!(!link_is_current(&Some("/a/c".to_string()), "/a/b"));
    assert!(!link_is_current(&None, "/a/b"));
}

#[test]
fn links_stand_in_the_state_directory() {
    assert_eq!(
        state_upstreams_dir(Some("/state"), Some("/home/u")),
        Some("/state/cache-warden/upstreams".to_string())
    );
    assert_eq!(
        state_upstreams_dir(None, Some("/home/u")),
        Some("/home/u/.local/state/cache-warden/upstreams".to_string())
    );
    assert_eq!(state_upstreams_dir(None, None), None);
}
