use mcserver::config::{extract_motd, parse_server_config};

#[test]
fn empty_content_gives_defaults() {
    let c = parse_server_config("");
    assert_eq!(c.rcon_port, "25575");
    assert_eq!(c.rcon_password, "");
}

#[test]
fn absent_keys_give_defaults() {
    let c = parse_server_config("motd=hello\nserver-port=25565\n");
    assert_eq!(c.rcon_port, "25575");
    assert_eq!(c.rcon_password, "");
}

#[test]
fn both_keys_are_read() {
    let c = parse_server_config("rcon.port=25580\nrcon.password=secret\n");
    assert_eq!(c.rcon_port, "25580");
    assert_eq!(c.rcon_password, "secret");
}

#[test]
fn last_occurrence_wins() {
    let c = parse_server_config("rcon.port=1\nrcon.port=2\nrcon.password=a\nrcon.password=b");
    assert_eq!(c.rcon_port, "2");
    assert_eq!(c.rcon_password, "b");
}

#[test]
fn crlf_line_endings_are_stripped() {
    let c = parse_server_config("rcon.port=25580\r\nrcon.password=secret\r\n");
    assert_eq!(c.rcon_port, "25580");
    assert_eq!(c.rcon_password, "secret");
}

#[test]
fn malformed_values_pass_through() {
    let c = parse_server_config("rcon.port=not a number\nrcon.password= spaced ");
    assert_eq!(c.rcon_port, "not a number");
    assert_eq!(c.rcon_password, " spaced ");
}

#[test]
fn indented_keys_do_not_match() {
    let c = parse_server_config("  rcon.port=1\n#rcon.password=x\n");
    assert_eq!(c.rcon_port, "25575");
    assert_eq!(c.rcon_password, "");
}

#[test]
fn empty_password_line_reads_as_disabled() {
    let c = parse_server_config("rcon.password=\nrcon.port=25575\n");
    assert_eq!(c.rcon_password, "");
    assert!(!c.rcon_enabled());
}

#[test]
fn nonempty_password_enables_rcon() {
    let c = parse_server_config("rcon.password=x");
    assert!(c.rcon_enabled());
}

#[test]
fn motd_is_extracted() {
    let m = extract_motd("#comment\n\nmotd=A Minecraft Server\nmotd=second\n");
    assert_eq!(m, "A Minecraft Server");
}

#[test]
fn motd_line_is_trimmed_before_matching() {
    let m = extract_motd("   motd=hello world  \n");
    assert_eq!(m, "hello world");
}

#[test]
fn motd_absent_gives_empty() {
    let m = extract_motd("rcon.port=25575\n# motd=commented out\n");
    assert_eq!(m, "");
}
