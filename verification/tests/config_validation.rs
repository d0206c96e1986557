use mtcp::config::ClientConfig;
use mtcp::config::Config;
use mtcp::config::ConfigError;
use mtcp::config::Mode;
use mtcp::config::ServerConfig;

fn server_section() -> ServerConfig {
    ServerConfig {
        listen_ip: String::from("0.0.0.0"),
        listen_port: 9000,
        backend_ip: String::from("127.0.0.1"),
        backend_port: 8080,
        connection_pool_size: 4,
        buffer_size: 4096,
    }
}

fn client_section() -> ClientConfig {
    ClientConfig {
        local_listen_ip: String::from("127.0.0.1"),
        local_listen_port: 7000,
        server_ip: String::from("10.0.0.1"),
        server_port: 9000,
        connection_pool_size: 4,
        buffer_size: 4096,
        enable_zero_rtt: true,
    }
}

#[test]
fn server_mode_with_section_is_accepted() {
    let cfg = Config { mode: Mode::Server, server: Some(server_section()), client: None };
    assert!(cfg.validate().is_ok());
}

#[test]
fn client_mode_with_section_is_accepted() {
    let cfg = Config { mode: Mode::Client, server: None, client: Some(client_section()) };
    assert!(cfg.validate().is_ok());
}

#[test]
fn server_mode_without_section_is_rejected() {
    let cfg = Config { mode: Mode::Server, server: None, client: Some(client_section()) };
    assert_eq!(cfg.validate(), Err(ConfigError::MissingServerSection));
}

#[test]
fn client_mode_without_section_is_rejected() {
    let cfg = Config { mode: Mode::Client, server: Some(server_section()), client: None };
    assert_eq!(cfg.validate(), Err(ConfigError::MissingClientSection));
}

#[test]
fn error_messages_name_the_missing_section() {
    assert_eq!(
        ConfigError::MissingServerSection.message(),
        "Server mode requires server configuration"
    );
    assert_eq!(
        ConfigError::MissingClientSection.message(),
        "Client mode requires client configuration"
    );
}
