use rusty_pipe::cli::agent::Agent;
use rusty_pipe::cli::agent::AgentMode;
use rusty_pipe::cli::ls::get_files;
use rusty_pipe::cli::ls::LsFault;
use rusty_pipe::cli::ls::LsRequest;
use rusty_pipe::cli::path_parser::parse_docker_and_k8_partials;
use rusty_pipe::cli::path_parser::parse_path_types;
use rusty_pipe::cli::path_parser::Part;
use rusty_pipe::cli::path_parser::PathType;
use rusty_pipe::cli::pf::agent_command;
use rusty_pipe::cli::pf::both_stdio;
use rusty_pipe::cli::str_to_copy_point;
use rusty_pipe::cli::str_to_forward_point;
use rusty_pipe::cli::str_to_ls_path;
use rusty_pipe::cli::CopyPoint;
use rusty_pipe::cli::ForwardPoint;
use rusty_pipe::cli::Ipv4;
use rusty_pipe::cli::LocalAddr;
use rusty_pipe::endpoint::socket::TCPConnectionProvider;
use rusty_pipe::text::decimal;
use rusty_pipe::text::parse_number;
use rusty_pipe::text::split;

fn local(a: u8, b: u8, c: u8, d: u8, port: u16) -> LocalAddr {
    LocalAddr { host: Ipv4 { a, b, c, d }, port }
}

fn forward_error(val: &str) -> String {
    match str_to_forward_point(val) {
        Err(text) => text,
        Ok(_) => panic!("{} was read as a forward point", val),
    }
}

fn part_text(part: &Part) -> (bool, String) {
    match part {
        Part::Full(name) => (true, name.clone()),
        Part::Partial(name) => (false, name.clone()),
    }
}

#[test]
fn forward_point_stdio() {
    assert!(matches!(str_to_forward_point("-"), Ok(ForwardPoint::Stdio)));
}

#[test]
fn forward_point_local_defaults_to_loopback() {
    for val in [":7002", "localhost:7002", "127.0.0.1:7002", ":+7002"] {
        match str_to_forward_point(val) {
            Ok(ForwardPoint::Local(addr)) => assert_eq!(addr, local(127, 0, 0, 1, 7002)),
            _ => panic!("{} was not read as a local address", val),
        }
    }
}

#[test]
fn forward_point_dotted_quad() {
    match str_to_forward_point("10.0.0.255:65535") {
        Ok(ForwardPoint::Local(addr)) => assert_eq!(addr, local(10, 0, 0, 255, 65535)),
        _ => panic!("a dotted address was not read"),
    }
    match str_to_forward_point("0.0.0.0:080") {
        Ok(ForwardPoint::Local(addr)) => assert_eq!(addr, local(0, 0, 0, 0, 80)),
        _ => panic!("a dotted address was not read"),
    }
    assert_eq!(forward_error("10.0.0.256:80"), "Invalid address");
    assert_eq!(forward_error("10.0.0.01:80"), "Invalid address");
    assert_eq!(forward_error("10.0..1:80"), "Invalid address");
    assert_eq!(forward_error("a.b.c.d:80"), "Invalid address");
    assert_eq!(forward_error("10.0.0.1:80:90"), "Invalid address");
    assert_eq!(forward_error("10.0.0.1:+80"), "Invalid address");
}

#[test]
fn forward_point_docker() {
    match str_to_forward_point("web:8080") {
        Ok(ForwardPoint::Docker(point)) => {
            assert_eq!(point.container, "web");
            assert_eq!(point.port, 8080);
        }
        _ => panic!("a container was not read"),
    }
    match str_to_forward_point("my.web:8080") {
        Ok(ForwardPoint::Docker(point)) => assert_eq!(point.container, "my.web"),
        _ => panic!("a container was not read"),
    }
}

#[test]
fn forward_point_kube() {
    match str_to_forward_point("ctx/ns/pod:443") {
        Ok(ForwardPoint::Kube(point)) => {
            assert_eq!(point.context, "ctx");
            assert_eq!(point.namespace, "ns");
            assert_eq!(point.pod, "pod");
            assert_eq!(point.port, 443);
        }
        _ => panic!("a pod was not read"),
    }
}

#[test]
fn forward_point_errors() {
    assert_eq!(forward_error("web"), "Missing :<PORT> part");
    assert_eq!(forward_error(""), "Missing :<PORT> part");
    assert_eq!(forward_error("ctx/ns/pod"), "Missing :<PORT> part");
    assert_eq!(forward_error("web:"), "Invalid port");
    assert_eq!(forward_error("web:65536"), "Invalid port");
    assert_eq!(forward_error("web:-1"), "Invalid port");
    assert_eq!(forward_error("web:80a"), "Invalid port");
    assert_eq!(forward_error("ctx/ns/pod:http"), "Invalid port");
    assert_eq!(forward_error("ctx/pod:80"), "Not a valid forward path");
    assert_eq!(forward_error("a/b/c/d:80"), "Not a valid forward path");
}

#[test]
fn copy_points() {
    match str_to_copy_point("/tmp/file") {
        Ok(CopyPoint::Local(path)) => assert_eq!(path, "/tmp/file"),
        _ => panic!("a local path was not read"),
    }
    match str_to_copy_point("web:/etc/hosts") {
        Ok(CopyPoint::Docker(point)) => {
            assert_eq!(point.container, "web");
            assert_eq!(point.path, "/etc/hosts");
        }
        _ => panic!("a container path was not read"),
    }
    match str_to_copy_point("ctx/ns/pod:/var/log/") {
        Ok(CopyPoint::Kube(point)) => {
            assert_eq!(point.context, "ctx");
            assert_eq!(point.namespace, "ns");
            assert_eq!(point.pod, "pod");
            assert_eq!(point.path, "/var/log/");
        }
        _ => panic!("a pod path was not read"),
    }
    match str_to_copy_point("web:/a:b") {
        Ok(CopyPoint::Docker(point)) => assert_eq!(point.path, "/a"),
        _ => panic!("a container path was not read"),
    }
    match str_to_copy_point("ctx/pod:/x") {
        Err(text) => assert_eq!(text, "Not a valid copy path"),
        Ok(_) => panic!("two parts were read as a copy point"),
    }
}

#[test]
fn ls_paths() {
    assert_eq!(str_to_ls_path("web:/"), Ok("web:/".to_string()));
    assert_eq!(str_to_ls_path("ctx/ns/"), Ok("ctx/ns/".to_string()));
    assert_eq!(
        str_to_ls_path("web"),
        Err("path must follow <context>/[ns/[pod:/]] OR <container>:/".to_string())
    );
    assert!(str_to_ls_path("").is_err());
}

#[test]
fn agent_listens_or_dials_on_loopback() {
    assert_eq!(Agent::new(7001, true).mode(), AgentMode::Listen(local(127, 0, 0, 1, 7001)));
    assert_eq!(Agent::new(7001, false).mode(), AgentMode::Dial(local(127, 0, 0, 1, 7001)));
    assert_eq!(TCPConnectionProvider::new(local(1, 2, 3, 4, 5)).address(), local(1, 2, 3, 4, 5));
}

#[test]
fn agent_command_line() {
    let listen: Vec<String> = agent_command(8080, true);
    assert_eq!(listen, vec!["/tmp/rs-agent", "agent", "-l", "-p", "8080"]);
    let dial: Vec<String> = agent_command(0, false);
    assert_eq!(dial, vec!["/tmp/rs-agent", "agent", "-p", "0"]);
    assert_eq!(agent_command(65535, false)[3], "65535");
}

#[test]
fn both_ends_cannot_be_stdio() {
    let there = str_to_forward_point(":80").unwrap();
    assert!(both_stdio(&ForwardPoint::Stdio, &ForwardPoint::Stdio));
    assert!(!both_stdio(&ForwardPoint::Stdio, &there));
    assert!(!both_stdio(&there, &ForwardPoint::Stdio));
}

#[test]
fn partial_paths_are_read_by_their_slashes() {
    let both = parse_docker_and_k8_partials("we");
    assert_eq!(both.len(), 2);
    match &both[0] {
        PathType::Docker(part, None) => assert_eq!(part_text(part), (false, "we".to_string())),
        _ => panic!("the first reading is not a container"),
    }
    match &both[1] {
        PathType::Kubernetes(k8, None) => {
            assert_eq!(part_text(&k8.context), (false, "we".to_string()));
            assert_eq!(part_text(&k8.ns), (false, "".to_string()));
            assert_eq!(part_text(&k8.pod), (false, "".to_string()));
        }
        _ => panic!("the second reading is not a pod"),
    }
    let ns = parse_docker_and_k8_partials("ctx/n");
    assert_eq!(ns.len(), 1);
    match &ns[0] {
        PathType::Kubernetes(k8, None) => {
            assert_eq!(part_text(&k8.context), (true, "ctx".to_string()));
            assert_eq!(part_text(&k8.ns), (false, "n".to_string()));
            assert_eq!(part_text(&k8.pod), (false, "".to_string()));
        }
        _ => panic!("the reading is not a pod"),
    }
    let pod = parse_docker_and_k8_partials("ctx/ns/");
    match &pod[0] {
        PathType::Kubernetes(k8, None) => {
            assert_eq!(part_text(&k8.ns), (true, "ns".to_string()));
            assert_eq!(part_text(&k8.pod), (false, "".to_string()));
        }
        _ => panic!("the reading is not a pod"),
    }
    assert!(parse_docker_and_k8_partials("a/b/c/d").is_empty());
}

#[test]
fn typed_paths_are_read() {
    for path in ["./a", "/a", "~/a", "../a"] {
        match &parse_path_types(path)[..] {
            [PathType::Fs(text)] => assert_eq!(text, path),
            _ => panic!("{} is not a local path", path),
        }
    }
    match &parse_path_types("web:/etc")[..] {
        [PathType::Docker(part, Some(path))] => {
            assert_eq!(part_text(part), (true, "web".to_string()));
            assert_eq!(path, "/etc");
        }
        _ => panic!("a container path was not read"),
    }
    match &parse_path_types("ctx/ns/pod:/etc")[..] {
        [PathType::Kubernetes(k8, Some(path))] => {
            assert_eq!(part_text(&k8.context), (true, "ctx".to_string()));
            assert_eq!(part_text(&k8.ns), (true, "ns".to_string()));
            assert_eq!(part_text(&k8.pod), (true, "pod".to_string()));
            assert_eq!(path, "/etc");
        }
        _ => panic!("a pod path was not read"),
    }
    assert!(parse_path_types("ctx/pod:/etc").is_empty());
    assert_eq!(parse_path_types("web").len(), 2);
}

#[test]
fn files_are_listed_for_whole_names_only() {
    match get_files(&parse_path_types("web:/etc")[0]) {
        Ok(LsRequest::Container { container, path }) => {
            assert_eq!(container, "web");
            assert_eq!(path, "/etc");
        }
        _ => panic!("no request for a container"),
    }
    match get_files(&parse_path_types("ctx/ns/pod:/etc")[0]) {
        Ok(LsRequest::Pod { context, ns, pod, path }) => {
            assert_eq!((context.as_str(), ns.as_str(), pod.as_str()), ("ctx", "ns", "pod"));
            assert_eq!(path, "/etc");
        }
        _ => panic!("no request for a pod"),
    }
    assert_eq!(get_files(&parse_path_types("web")[0]).err(), Some(LsFault::ContainerNotResolved));
    assert_eq!(get_files(&parse_path_types("ctx/ns/")[0]).err(), Some(LsFault::MissingPath));
    assert_eq!(get_files(&parse_path_types("/etc")[0]).err(), Some(LsFault::LocalPath));
    let whole = PathType::Docker(Part::Full("web".to_string()), None);
    assert_eq!(get_files(&whole).err(), Some(LsFault::MissingPath));
    assert_eq!(Part::Full("web".to_string()).into_text(), "web");
    assert_eq!(Part::Partial("we".to_string()).text(), "we");
}

#[test]
fn numbers_are_written_and_read() {
    assert_eq!(decimal(0), "0");
    assert_eq!(decimal(9), "9");
    assert_eq!(decimal(10), "10");
    assert_eq!(decimal(65535), "65535");
    assert_eq!(decimal(u128::MAX), "340282366920938463463374607431768211455");
    assert_eq!(parse_number("0", 65535), Some(0));
    assert_eq!(parse_number("007", 65535), Some(7));
    assert_eq!(parse_number("+65535", 65535), Some(65535));
    assert_eq!(parse_number("65536", 65535), None);
    assert_eq!(parse_number("", 65535), None);
    assert_eq!(parse_number("+", 65535), None);
    assert_eq!(parse_number("++1", 65535), None);
    assert_eq!(parse_number(" 1", 65535), None);
    assert_eq!(parse_number("99999999999999999999999999", u64::MAX), None);
}

#[test]
fn texts_are_cut_at_every_separator() {
    assert_eq!(split("a/b/c", '/'), vec!["a", "b", "c"]);
    assert_eq!(split("", '/'), vec![""]);
    assert_eq!(split("/", '/'), vec!["", ""]);
    assert_eq!(split("a//b/", '/'), vec!["a", "", "b", ""]);
    assert_eq!(split("päd/ö", '/'), vec!["päd", "ö"]);
}
