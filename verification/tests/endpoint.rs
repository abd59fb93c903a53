use serve_core::endpoint::EndpointForm;
use serve_core::{Endpoint, UnixDomainSocket};

fn bare(path: &str) -> UnixDomainSocket {
    UnixDomainSocket { path: path.to_string(), mode: None, owner: None, group: None }
}

#[test]
fn path_parses_as_unix_socket() {
    let parsed = Endpoint::from_str("/run/app.sock").unwrap();
    assert_eq!(parsed, Endpoint::Unix(bare("/run/app.sock")));
}

#[test]
fn unix_socket_keeps_exact_path_and_sets_nothing_else() {
    for path in ["/", "//", "/tmp/a b/c.sock", "/tmp/../x", "/ünïcode/ß.sock", "/trailing/"] {
        match Endpoint::from_str(path).unwrap() {
            Endpoint::Unix(socket) => {
                assert_eq!(socket.path, path);
                assert_eq!(socket.mode, None);
                assert_eq!(socket.owner, None);
                assert_eq!(socket.group, None);
            }
            Endpoint::Inet(_) => panic!("{path} was read as a network address"),
        }
    }
}

#[test]
fn anything_else_parses_as_network_address_unchanged() {
    for address in ["127.0.0.1:8080", "[::1]:80", "localhost:0", "not an address", "relative/path", " /x", "ü/x"] {
        assert_eq!(Endpoint::from_str(address).unwrap(), Endpoint::Inet(address.to_string()));
    }
}

#[test]
fn empty_string_is_a_network_address() {
    assert_eq!(Endpoint::from_str("").unwrap(), Endpoint::Inet(String::new()));
}

#[test]
fn parse_through_the_trait_agrees() {
    let endpoint: Endpoint = "/var/run/s.sock".parse().unwrap();
    assert_eq!(endpoint, Endpoint::Unix(bare("/var/run/s.sock")));
    let endpoint: Endpoint = "0.0.0.0:443".parse().unwrap();
    assert_eq!(endpoint, Endpoint::Inet("0.0.0.0:443".to_string()));
    let socket: UnixDomainSocket = "anything".parse().unwrap();
    assert_eq!(socket, bare("anything"));
}

#[test]
fn socket_from_str_takes_any_string_as_path() {
    assert_eq!(UnixDomainSocket::from_str("/a").unwrap(), bare("/a"));
    assert_eq!(UnixDomainSocket::from_str("").unwrap(), bare(""));
}

#[test]
fn default_socket_is_empty() {
    assert_eq!(UnixDomainSocket::default(), bare(""));
}

#[test]
fn network_address_is_written_as_text() {
    let endpoint = Endpoint::Inet("127.0.0.1:80".to_string());
    assert_eq!(endpoint.serialize(), EndpointForm::Text("127.0.0.1:80".to_string()));
}

#[test]
fn bare_socket_collapses_to_its_path() {
    let endpoint = Endpoint::Unix(bare("/run/x.sock"));
    assert_eq!(endpoint.serialize(), EndpointForm::Text("/run/x.sock".to_string()));
}

#[test]
fn socket_with_any_setting_is_written_as_table() {
    let with_mode = UnixDomainSocket { mode: Some(0o660), ..bare("/run/x.sock") };
    let with_owner = UnixDomainSocket { owner: Some("www".to_string()), ..bare("/run/x.sock") };
    let with_group = UnixDomainSocket { group: Some("33".to_string()), ..bare("/run/x.sock") };
    for socket in [with_mode, with_owner, with_group] {
        let endpoint = Endpoint::Unix(socket.clone());
        assert_eq!(endpoint.serialize(), EndpointForm::Table(socket));
    }
}

#[test]
fn text_form_is_read_as_address_string() {
    assert_eq!(
        Endpoint::deserialize(EndpointForm::Text("/run/x.sock".to_string())),
        Endpoint::Unix(bare("/run/x.sock"))
    );
    assert_eq!(
        Endpoint::deserialize(EndpointForm::Text("[::]:8080".to_string())),
        Endpoint::Inet("[::]:8080".to_string())
    );
    assert_eq!(Endpoint::deserialize(EndpointForm::Text(String::new())), Endpoint::Inet(String::new()));
}

#[test]
fn table_form_is_read_as_the_socket_it_holds() {
    let socket = UnixDomainSocket {
        path: "relative.sock".to_string(),
        mode: Some(0o600),
        owner: Some("root".to_string()),
        group: None,
    };
    assert_eq!(Endpoint::deserialize(EndpointForm::Table(socket.clone())), Endpoint::Unix(socket));
}

#[test]
fn written_form_reads_back() {
    let endpoints = [
        Endpoint::Inet("127.0.0.1:80".to_string()),
        Endpoint::Inet(String::new()),
        Endpoint::Unix(bare("/a")),
        Endpoint::Unix(UnixDomainSocket { mode: Some(0), ..bare("/a") }),
        Endpoint::Unix(UnixDomainSocket { owner: Some("1".to_string()), ..bare("b") }),
    ];
    for endpoint in endpoints {
        assert_eq!(Endpoint::deserialize(endpoint.serialize()), endpoint);
    }
}

#[test]
fn duplicates_are_equal() {
    let socket = UnixDomainSocket {
        path: "/p".to_string(),
        mode: Some(0o644),
        owner: Some("o".to_string()),
        group: Some("g".to_string()),
    };
    assert_eq!(socket.duplicate(), socket);
    let endpoint = Endpoint::Unix(socket);
    assert_eq!(endpoint.duplicate(), endpoint);
    let endpoint = Endpoint::Inet("x:1".to_string());
    assert_eq!(endpoint.duplicate(), endpoint);
}
