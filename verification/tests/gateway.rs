use bollard_stubs::models::{ContainerCreateResponse, ContainerWaitExitError, ContainerWaitResponse};
use nova::docker::container::{
    CreateContainerConfig, CreateContainerOptions, StartContainerOptions, WaitContainerOptions,
};
use nova::docker::errors::Error;
use nova::docker::uri::Uri;
use nova::docker::utils::{decimal_text, join, remove_first, starts_with};
use nova::docker::{
    ClientType, ClientVersion, Docker, Method, Request, API_DEFAULT_MAJOR_VERSION,
    API_DEFAULT_MINOR_VERSION, DEFAULT_DOCKER_HOST, DEFAULT_SOCKET, DEFAULT_TIMEOUT,
};
use std::cmp::Ordering;
use std::sync::atomic::AtomicUsize;
use std::time::Duration;

const HEX_SOCKET: &str = "2f7661722f72756e2f646f636b65722e736f636b";

fn version(major_version: usize, minor_version: usize) -> ClientVersion {
    ClientVersion { major_version, minor_version }
}

fn docker() -> Docker {
    Docker::connect_with_unix_defaults(None).unwrap()
}

fn pairs(list: &[(&str, &str)]) -> Vec<(String, String)> {
    list.iter().map(|(k, v)| (k.to_string(), v.to_string())).collect()
}

#[test]
fn unix_uri_has_hex_authority_and_versioned_path() {
    let uri = Uri::parse(
        "/var/run/docker.sock",
        &ClientType::Unix,
        "/containers/create",
        None,
        &version(1, 42),
    )
    .unwrap();
    let parsed: http::Uri = uri.as_str().parse().unwrap();
    assert_eq!(parsed.scheme_str(), Some("unix"));
    assert_eq!(parsed.authority().unwrap().as_str(), hex::encode("/var/run/docker.sock"));
    assert_eq!(parsed.authority().unwrap().as_str(), HEX_SOCKET);
    assert!(parsed.path().starts_with("/v1.42/containers/create"));
    assert_eq!(uri.as_str(), format!("unix://{}/v1.42/containers/create", HEX_SOCKET));
}

#[test]
fn uri_with_a_query() {
    let uri = Uri::parse(
        "/var/run/docker.sock",
        &ClientType::Unix,
        "/containers/create",
        Some(pairs(&[("name", "my step"), ("platform", "linux/amd64")])),
        &version(1, 42),
    )
    .unwrap();
    assert_eq!(
        uri.as_str(),
        format!(
            "unix://{}/v1.42/containers/create?name=my+step&platform=linux%2Famd64",
            HEX_SOCKET
        )
    );
    let parsed: http::Uri = uri.as_str().parse().unwrap();
    assert_eq!(parsed.query(), Some("name=my+step&platform=linux%2Famd64"));
}

#[test]
fn uri_with_an_empty_query() {
    let uri =
        Uri::parse("/s", &ClientType::Unix, "/p", Some(Vec::new()), &version(0, 0)).unwrap();
    assert_eq!(uri.as_str(), "unix://2f73/v0.0/p?");
}

#[test]
fn query_replaces_what_the_path_brought() {
    let uri = Uri::parse(
        "/s",
        &ClientType::Unix,
        "/p?old=1#frag",
        Some(pairs(&[("new", "2")])),
        &version(1, 42),
    )
    .unwrap();
    assert_eq!(uri.as_str(), "unix://2f73/v1.42/p?new=2#frag");
}

#[test]
fn uri_is_normalised_as_a_url() {
    let uri =
        Uri::parse("/s", &ClientType::Unix, "/a b/../c", None, &version(10, 7)).unwrap();
    assert_eq!(uri.as_str(), "unix://2f73/v10.7/c");
}

#[test]
fn socket_host_is_hexadecimal() {
    assert_eq!(Uri::socket_host("/var/run/docker.sock", &ClientType::Unix), HEX_SOCKET);
    assert_eq!(Uri::socket_host("", &ClientType::Unix), "");
    assert_eq!(Uri::socket_host("\u{e9}\n", &ClientType::Unix), "c3a90a");
    assert_eq!(Uri::socket_scheme(&ClientType::Unix), "unix");
}

#[test]
fn versions_are_written_and_ordered() {
    assert_eq!(version(1, 42).to_string(), "1.42");
    assert_eq!(version(0, 0).to_string(), "0.0");
    assert_eq!(version(12, 305).to_string(), "12.305");
    assert_eq!(version(1, 42).partial_cmp(&version(1, 42)), Some(Ordering::Equal));
    assert_eq!(version(1, 42).partial_cmp(&version(1, 43)), Some(Ordering::Less));
    assert_eq!(version(2, 0).partial_cmp(&version(1, 43)), Some(Ordering::Greater));
    assert!(version(1, 9) < version(1, 10));
    assert!(version(1, 99) < version(2, 0));
    assert!(version(3, 1) >= version(3, 1));
    let shared = (AtomicUsize::new(1), AtomicUsize::new(42));
    assert_eq!(ClientVersion::from(&shared), version(1, 42));
}

#[test]
fn numbers_in_decimal() {
    assert_eq!(decimal_text(0), "0");
    assert_eq!(decimal_text(9), "9");
    assert_eq!(decimal_text(10), "10");
    assert_eq!(decimal_text(1234567890), "1234567890");
    assert_eq!(decimal_text(usize::MAX), usize::MAX.to_string());
}

#[test]
fn text_helpers() {
    assert_eq!(join(&Vec::new(), " "), "");
    assert_eq!(join(&vec!["a".to_string()], " "), "a");
    assert_eq!(join(&vec!["a".to_string(), "".to_string(), "c".to_string()], ", "), "a, , c");
    assert!(starts_with("unix:///x", "unix://"));
    assert!(starts_with("abc", ""));
    assert!(!starts_with("unix:/", "unix://"));
    assert!(!starts_with("tcp://unix://", "unix://"));
    assert_eq!(remove_first("unix:///var/run", "unix://"), "/var/run");
    assert_eq!(remove_first("a-unix://b-unix://c", "unix://"), "a-b-unix://c");
    assert_eq!(remove_first("/var/run", "unix://"), "/var/run");
    assert_eq!(remove_first("aaa", "aa"), "a");
    assert_eq!(remove_first("\u{e9}x\u{e9}", "x"), "\u{e9}\u{e9}");
    assert_eq!(remove_first("abc", ""), "abc");
    assert_eq!(remove_first("", "abc"), "");
}

#[test]
fn default_connection() {
    assert_eq!(DEFAULT_SOCKET, "unix:///var/run/docker.sock");
    assert_eq!(DEFAULT_DOCKER_HOST, DEFAULT_SOCKET);
    let docker = docker();
    assert_eq!(docker.timeout(), Duration::from_secs(120));
    assert_eq!(DEFAULT_TIMEOUT, 120);
    assert_eq!(docker.client_version(), version(1, 42));
    assert_eq!(
        docker.client_version(),
        version(API_DEFAULT_MAJOR_VERSION, API_DEFAULT_MINOR_VERSION)
    );
    let request = docker.start_container("x", None).unwrap();
    assert_eq!(request.uri, format!("unix://{}/v1.42/containers/x/start", HEX_SOCKET));
}

#[test]
fn connection_from_the_named_host() {
    let named = Docker::connect_with_unix_defaults(Some("unix:///tmp/d.sock".to_string())).unwrap();
    let request = named.start_container("x", None).unwrap();
    assert_eq!(
        request.uri,
        format!("unix://{}/v1.42/containers/x/start", hex::encode("/tmp/d.sock"))
    );
    // Anything that is no address on a local socket is passed over.
    let other = Docker::connect_with_unix_defaults(Some("tcp://1.2.3.4:2375".to_string())).unwrap();
    let request = other.start_container("x", None).unwrap();
    assert_eq!(request.uri, format!("unix://{}/v1.42/containers/x/start", HEX_SOCKET));
}

#[test]
fn connection_to_a_path() {
    let docker = Docker::connect_with_unix("/run/x.sock", 5, &version(1, 40)).unwrap();
    assert_eq!(docker.timeout(), Duration::from_secs(5));
    assert_eq!(docker.client_version(), version(1, 40));
    let request = docker.wait_container("c", None).unwrap();
    assert_eq!(
        request.uri,
        format!("unix://{}/v1.40/containers/c/wait", hex::encode("/run/x.sock"))
    );
    let copy = docker.clone();
    assert_eq!(copy.timeout(), Duration::from_secs(5));
    assert_eq!(copy.client_version(), version(1, 40));
}

#[test]
fn timeouts_count_whole_seconds() {
    let mut docker = docker().with_timeout(Duration::from_millis(2999));
    assert_eq!(docker.timeout(), Duration::from_secs(2));
    docker.set_timeout(Duration::from_secs(7));
    assert_eq!(docker.timeout(), Duration::from_secs(7));
    docker.set_timeout(Duration::from_nanos(1));
    assert_eq!(docker.timeout(), Duration::from_secs(0));
}

#[test]
fn create_request() {
    let body = Docker::serialize_payload(Some(Ok("{\"Image\":\"x\"}".to_string())));
    let request = docker()
        .create_container(Some(CreateContainerOptions::new("build".to_string(), None)), body)
        .unwrap();
    assert_eq!(
        request,
        Request {
            method: Method::Post,
            uri: format!("unix://{}/v1.42/containers/create?name=build", HEX_SOCKET),
            headers: vec![("content-type".to_string(), "application/json".to_string())],
            body: b"{\"Image\":\"x\"}".to_vec(),
        }
    );
    let with_platform = docker()
        .create_container(
            Some(CreateContainerOptions::new("b".to_string(), Some("linux".to_string()))),
            Ok(Vec::new()),
        )
        .unwrap();
    assert_eq!(
        with_platform.uri,
        format!("unix://{}/v1.42/containers/create?name=b&platform=linux", HEX_SOCKET)
    );
    let plain = docker().create_container(None, Ok(vec![1, 2])).unwrap();
    assert_eq!(plain.uri, format!("unix://{}/v1.42/containers/create", HEX_SOCKET));
    assert_eq!(plain.body, vec![1, 2]);
}

#[test]
fn start_request() {
    let request = docker()
        .start_container("abc", Some(StartContainerOptions::new("ctrl-c".to_string())))
        .unwrap();
    assert_eq!(
        request,
        Request {
            method: Method::Post,
            uri: format!("unix://{}/v1.42/containers/abc/start?detachKeys=ctrl-c", HEX_SOCKET),
            headers: vec![("content-type".to_string(), "application/json".to_string())],
            body: Vec::new(),
        }
    );
}

#[test]
fn wait_request() {
    let request = docker()
        .wait_container("abc", Some(WaitContainerOptions::new("not-running".to_string())))
        .unwrap();
    assert_eq!(
        request,
        Request {
            method: Method::Post,
            uri: format!(
                "unix://{}/v1.42/containers/abc/wait?condition=not-running",
                HEX_SOCKET
            ),
            headers: vec![("content-type".to_string(), "application/json".to_string())],
            body: Vec::new(),
        }
    );
}

#[test]
fn labels_with_a_repeated_key_are_told() {
    let config = |labels: &[(&str, &str)]| {
        CreateContainerConfig::new(
            "image".to_string(),
            false,
            pairs(labels),
            Vec::new(),
            String::new(),
        )
    };
    assert!(config(&[]).labels_distinct());
    assert!(config(&[("nova", "")]).labels_distinct());
    assert!(config(&[("a", "1"), ("b", "1"), ("c", "1")]).labels_distinct());
    assert!(!config(&[("a", "1"), ("a", "2")]).labels_distinct());
    assert!(!config(&[("a", "1"), ("b", "2"), ("a", "1")]).labels_distinct());
    assert!(!config(&[("b", ""), ("a", ""), ("c", ""), ("c", "")]).labels_distinct());
}

#[test]
fn option_pairs() {
    assert_eq!(
        CreateContainerOptions::new("n".to_string(), None).to_query(),
        pairs(&[("name", "n")])
    );
    assert_eq!(
        CreateContainerOptions::new("n".to_string(), Some("p".to_string())).to_query(),
        pairs(&[("name", "n"), ("platform", "p")])
    );
    assert_eq!(
        StartContainerOptions::new("k".to_string()).to_query(),
        pairs(&[("detachKeys", "k")])
    );
    assert_eq!(
        WaitContainerOptions::new("removed".to_string()).to_query(),
        pairs(&[("condition", "removed")])
    );
}

#[test]
fn request_errors_come_in_order() {
    let payload_error = || Err(Error::JsonSerdeError { message: "bad".to_string() });
    // A payload that could not be serialized fails the request.
    assert_eq!(
        docker().create_container(None, payload_error()),
        Err(Error::JsonSerdeError { message: "bad".to_string() })
    );
    // An address that HTTP refuses is told before the payload is.
    let long = "a".repeat(70_000);
    match docker().build_request(&format!("/{}", long), Method::Get, None, payload_error()) {
        Err(Error::InvalidURIError { message }) => assert!(!message.is_empty()),
        other => panic!("{:?}", other),
    }
    // With an address that HTTP takes, the payload decides.
    assert_eq!(
        docker().build_request("/x", Method::Get, None, payload_error()),
        Err(Error::JsonSerdeError { message: "bad".to_string() })
    );
    assert_eq!(
        docker().build_request("/x", Method::Delete, None, Ok(vec![0])).unwrap().method,
        Method::Delete
    );
}

#[test]
fn payloads() {
    assert_eq!(Docker::serialize_payload(None), Ok(Vec::new()));
    assert_eq!(
        Docker::serialize_payload(Some(Ok("{\"a\":\"\u{e9}\"}".to_string()))),
        Ok("{\"a\":\"\u{e9}\"}".as_bytes().to_vec())
    );
    assert_eq!(
        Docker::serialize_payload(Some(Err("key must be a string".to_string()))),
        Err(Error::JsonSerdeError { message: "key must be a string".to_string() })
    );
}

#[test]
fn statuses() {
    for status in [200u16, 201, 204, 299, 304, 101] {
        assert!(Docker::status_is_success(status), "{}", status);
        assert_eq!(Docker::process_response(status, b"ignored"), Ok(()));
        assert_eq!(Docker::process_into_unit(status, b"{\"message\":\"x\"}"), Ok(()));
    }
    for status in [0u16, 100, 102, 199, 300, 303, 305, 400, 404, 409, 500, 65535] {
        assert!(!Docker::status_is_success(status), "{}", status);
        assert_eq!(
            Docker::process_response(status, b""),
            Err(Error::DockerResponseServerError { status_code: status, message: String::new() })
        );
    }
}

#[test]
fn server_errors_carry_the_message_or_the_body() {
    let error = |message: &str| {
        Err(Error::DockerResponseServerError { status_code: 404, message: message.to_string() })
    };
    assert_eq!(
        Docker::process_response(404, b"{\"message\":\"No such container: x\"}"),
        error("No such container: x")
    );
    assert_eq!(
        Docker::process_response(404, b"{\"message\":\"m\",\"more\":[1]}"),
        error("m")
    );
    assert_eq!(Docker::process_response(404, b"page not found"), error("page not found"));
    assert_eq!(Docker::process_response(404, b"{\"msg\":\"m\"}"), error("{\"msg\":\"m\"}"));
    assert_eq!(Docker::process_response(404, b"{\"message\":1}"), error("{\"message\":1}"));
    assert_eq!(Docker::process_response(404, b"{\"message\":"), error("{\"message\":"));
    assert_eq!(Docker::process_response(404, b"\xffx"), error("\u{fffd}x"));
    assert_eq!(Docker::process_into_unit(404, b"gone"), error("gone"));
    assert_eq!(Docker::decode_into_string(b"caf\xc3\xa9"), "caf\u{e9}");
}

#[test]
fn created_container_is_read_from_the_body() {
    assert_eq!(
        Docker::process_into_value(201, b"{\"Id\":\"e90e34656806\",\"Warnings\":[]}"),
        Ok(ContainerCreateResponse { id: "e90e34656806".to_string(), warnings: Vec::new() })
    );
    assert_eq!(
        Docker::decode_response(b"{\"Id\":\"1\",\"Warnings\":[\"w\"]}"),
        Ok(ContainerCreateResponse { id: "1".to_string(), warnings: vec!["w".to_string()] })
    );
    match Docker::process_into_value(200, b"{\"Warnings\":[]}") {
        Err(Error::JsonDataError { message, column, contents }) => {
            assert!(message.contains("Id"));
            assert_eq!(column, 15);
            assert_eq!(contents, "{\"Warnings\":[]}");
        }
        other => panic!("{:?}", other),
    }
    assert!(matches!(
        Docker::process_into_value(200, b"?"),
        Err(Error::JsonDataError { column: 1, .. })
    ));
    assert!(matches!(
        Docker::process_into_value(200, b"{\"Id\":"),
        Err(Error::JsonSerdeError { .. })
    ));
    assert_eq!(
        Docker::process_into_value(409, b"{\"message\":\"Conflict\"}"),
        Err(Error::DockerResponseServerError {
            status_code: 409,
            message: "Conflict".to_string()
        })
    );
}

#[test]
fn wait_records_become_outcomes() {
    let record = |status_code: i64, error: Option<Option<&str>>| ContainerWaitResponse {
        status_code,
        error: error
            .map(|message| ContainerWaitExitError { message: message.map(|m| m.to_string()) }),
    };
    let failure = |code: i64, error: &str| {
        Err(Error::DockerContainerWaitError { error: error.to_string(), code })
    };
    assert_eq!(Docker::wait_result(Ok(record(0, None))), Ok(record(0, None)));
    assert_eq!(Docker::wait_result(Ok(record(1, None))), failure(1, ""));
    assert_eq!(Docker::wait_result(Ok(record(2, Some(Some("oom"))))), failure(2, "oom"));
    assert_eq!(
        Docker::wait_result(Ok(record(0, Some(Some("odd"))))),
        Ok(record(0, Some(Some("odd"))))
    );
    assert_eq!(Docker::wait_result(Ok(record(0, Some(None)))), Ok(record(0, Some(None))));
    assert_eq!(Docker::wait_result(Ok(record(3, Some(None)))), failure(3, ""));
    assert_eq!(Docker::wait_result(Ok(record(-1, None))), failure(-1, ""));
    assert_eq!(Docker::wait_result(Ok(record(-1, Some(Some("x"))))), failure(-1, "x"));
    assert_eq!(Docker::wait_result(Ok(record(i64::MIN, Some(None)))), failure(i64::MIN, ""));
    assert_eq!(Docker::wait_result(Ok(record(i64::MAX, None))), failure(i64::MAX, ""));
    assert_eq!(
        Docker::wait_result(Err(Error::RequestTimeoutError)),
        Err(Error::RequestTimeoutError)
    );
    assert_eq!(Docker::wait_result(failure(9, "again")), failure(9, "again"));
}

#[test]
fn errors_clone_equal() {
    let errors = vec![
        Error::RequestTimeoutError,
        Error::DockerResponseServerError { status_code: 500, message: "m".to_string() },
        Error::JsonDataError { message: "m".to_string(), column: 3, contents: "c".to_string() },
        Error::JsonSerdeError { message: "m".to_string() },
        Error::DockerContainerWaitError { error: "e".to_string(), code: 1 },
        Error::URLParseError { message: "m".to_string() },
        Error::URLEncodedError { message: "m".to_string() },
        Error::InvalidURIError { message: "m".to_string() },
        Error::HttpClientError { message: "m".to_string() },
        Error::HyperResponseError { message: "m".to_string() },
        Error::IOError { message: "m".to_string() },
    ];
    for error in &errors {
        assert_eq!(&error.clone(), error);
    }
}
