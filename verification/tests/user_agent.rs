use spiceai::user_agent::{
    get_os_release, get_platform_os_string, os_arch_name, os_type_name, SpiceUserAgent,
    UserAgentError,
};

#[test]
fn test_spice_user_agent_display() {
    let agent = SpiceUserAgent::default()
        .with_client_name("spice")
        .with_client_version("0.1.0")
        .with_client_system("macos")
        .with_platform_name("spiced")
        .with_platform_version("0.1.0")
        .with_platform_system("macos")
        .with_extensions(
            vec![
                ("key1".to_string(), "value1".to_string()),
                ("key2".to_string(), "value2".to_string()),
            ].into_iter().collect()
        );

    assert_eq!(agent.to_string(), "spice/0.1.0 (macos) spiced/0.1.0 (macos) key1/value1 key2/value2");
}

#[test]
fn test_spice_user_agent_try_from() {
    let agent = SpiceUserAgent::default()
        .with_client_name("spice")
        .with_client_version("0.1.0")
        .with_client_system("macos")
        .with_platform_name("spiced")
        .with_platform_version("0.1.0")
        .with_platform_system("macos")
        .with_extensions(
            vec![
                ("key1".to_string(), "value1".to_string()),
                ("key2".to_string(), "value2".to_string()),
            ].into_iter().collect()
        );

    let agent_str = agent.to_string();
    let parsed_agent = SpiceUserAgent::try_from(agent_str).expect("Failed to parse agent string");

    assert_eq!(agent, parsed_agent);

    let agent_str = "spice/0.1.0 key1/value1";
    let parsed_agent = SpiceUserAgent::try_from(agent_str.to_string()).expect("Failed to parse agent string");
    let agent = SpiceUserAgent::default()
        .with_client_name("spice")
        .with_client_version("0.1.0")
        .with_extensions(
            vec![
                ("key1".to_string(), "value1".to_string()),
            ].into_iter().collect()
        );
    assert_eq!(agent, parsed_agent);

    let agent_str = "spice/0.1.0 (macos) spiced/0.1.0 (macos) key1/value1 key2/value2";
    let parsed_agent = SpiceUserAgent::try_from(agent_str.to_string()).expect("Failed to parse agent string");
    let agent = SpiceUserAgent::default()
        .with_client_name("spice")
        .with_client_version("0.1.0")
        .with_client_system("macos")
        .with_platform_name("spiced")
        .with_platform_version("0.1.0")
        .with_platform_system("macos")
        .with_extensions(
            vec![
                ("key1".to_string(), "value1".to_string()),
                ("key2".to_string(), "value2".to_string()),
            ].into_iter().collect()
        );
    assert_eq!(agent, parsed_agent);
}

#[test]
fn test_spice_user_agent_merge() {
    let client = SpiceUserAgent::default()
        .with_client_name("spicebench")
        .with_client_version("0.1.0")
        .with_client_system("macos")
        .with_extensions(
            vec![
                ("key1".to_string(), "value1".to_string()),
                ("key2".to_string(), "value2".to_string()),
            ].into_iter().collect()
        );
    let platform = SpiceUserAgent::default()
        .with_platform_name("spiced")
        .with_platform_version("0.1.0")
        .with_platform_system("macos");

    let merged = platform.merge_client(&client);
    let expected = SpiceUserAgent::default()
        .with_client_name("spicebench")
        .with_client_version("0.1.0")
        .with_client_system("macos")
        .with_platform_name("spiced")
        .with_platform_version("0.1.0")
        .with_platform_system("macos")
        .with_extensions(
            vec![
                ("key1".to_string(), "value1".to_string()),
                ("key2".to_string(), "value2".to_string()),
            ].into_iter().collect()
        );
    assert_eq!(expected, merged);
}

#[test]
fn user_agent_parse_errors() {
    assert_eq!(SpiceUserAgent::try_from("   ".to_string()), Err(UserAgentError::MissingClientInfo));
    assert_eq!(SpiceUserAgent::try_from("spice".to_string()), Err(UserAgentError::MissingClientVersion));
}

#[test]
fn user_agent_parse_ignores_extra_slash_pieces_and_unknown_words() {
    let a = SpiceUserAgent::try_from("c/1/2 word (sys) k/v/w".to_string()).unwrap();
    assert_eq!(a.client_name, "c");
    assert_eq!(a.client_version, "1");
    assert_eq!(a.client_system.as_deref(), Some("sys"));
    // a lone name/version with no platform system is an extension
    assert_eq!(a.extensions, vec![("k".to_string(), "v".to_string())]);
    assert_eq!(a.platform_name.as_deref(), Some("spiced"));
}

#[test]
fn user_agent_extension_insert_keeps_position() {
    let a = SpiceUserAgent::default()
        .with_extension("a", "1")
        .with_extension("b", "2")
        .with_extension("a", "3");
    assert_eq!(a.extensions, vec![("a".to_string(), "3".to_string()), ("b".to_string(), "2".to_string())]);
    assert_eq!(a.to_string(), "unknown/unknown spiced/0.1.0 a/3 b/2");
}

#[test]
fn user_agent_merge_overrides_platform_extensions() {
    let platform = SpiceUserAgent::default().with_extension("k", "p").with_extension("x", "1");
    let client = SpiceUserAgent::default().with_client_name("cli").with_extension("k", "c");
    let merged = platform.merge_client(&client);
    assert_eq!(merged.client_name, "cli");
    assert_eq!(merged.extensions, vec![("k".to_string(), "c".to_string()), ("x".to_string(), "1".to_string())]);
}

#[test]
fn os_names_and_platform_string() {
    assert_eq!(os_type_name("macos"), "Darwin");
    assert_eq!(os_type_name("dragonfly"), "DragonFlyBSD");
    assert_eq!(os_type_name(""), "unknown");
    assert_eq!(os_type_name("haiku"), "haiku");
    assert_eq!(os_arch_name("x86"), "i386");
    assert_eq!(os_arch_name("x86_64"), "x86_64");
    assert_eq!(os_arch_name(""), "unknown");
    assert_eq!(get_os_release(Some("  6.1.0-13\n".to_string())), "6.1.0-13");
    assert_eq!(get_os_release(None), "unknown");
    assert_eq!(get_platform_os_string("Linux", "6.1", "x86_64"), "Linux/6.1 x86_64");
    let agent = SpiceUserAgent::for_platform_system("Linux/6.1 x86_64");
    assert_eq!(agent.to_string(), "unknown/unknown spiced/0.1.0 (Linux/6.1 x86_64)");
}

#[test]
fn user_agent_text_reads_back_as_itself() {
    let agent = SpiceUserAgent::default()
        .with_client_name("bench")
        .with_client_version("2.3")
        .with_client_system("linux")
        .with_platform_name("spiced")
        .with_platform_version("1.0")
        .with_platform_system("Linux/6.1_x86_64")
        .with_extension("a", "1")
        .with_extension("b", "2");
    let text = agent.to_string();
    assert_eq!(text, "bench/2.3 (linux) spiced/1.0 (Linux/6.1_x86_64) a/1 b/2");
    let parsed = SpiceUserAgent::try_from(text).expect("text parses");
    assert_eq!(parsed, agent);
}

#[test]
fn user_agent_extension_insert_reads_back() {
    let agent = SpiceUserAgent::default()
        .with_extension("k", "v1")
        .with_extension("other", "x")
        .with_extension("k", "v2");
    assert_eq!(
        agent.extensions,
        vec![
            ("k".to_string(), "v2".to_string()),
            ("other".to_string(), "x".to_string()),
        ]
    );
}
