use rusty_pipe::endpoint::chmod_command;
use rusty_pipe::endpoint::docker::list_containers;
use rusty_pipe::endpoint::docker::output_sink;
use rusty_pipe::endpoint::docker::OutputKind;
use rusty_pipe::endpoint::docker::OutputSink;
use rusty_pipe::endpoint::docker::ContainerSummary;
use rusty_pipe::endpoint::kill_command;
use rusty_pipe::endpoint::kube::is_config_path;
use rusty_pipe::endpoint::kube::KubeConfigs;
use rusty_pipe::endpoint::kube::PortForwardPipeEndpoint;
use rusty_pipe::endpoint::ls_command;
use rusty_pipe::endpoint::pack_command;
use rusty_pipe::endpoint::size_command;
use rusty_pipe::endpoint::stdio::copy_source_parts;
use rusty_pipe::endpoint::stdio::parse_size;
use rusty_pipe::endpoint::stdio::split_source_path;
use rusty_pipe::endpoint::unpack_command;
use rusty_pipe::endpoint::upload_command;
use rusty_pipe::endpoint::CopyAction;
use rusty_pipe::endpoint::CopyEvent;
use rusty_pipe::endpoint::CopyPump;
use rusty_pipe::endpoint::CoupleAction;
use rusty_pipe::endpoint::CoupleEvent;
use rusty_pipe::endpoint::Coupling;
use rusty_pipe::endpoint::PipeCopyDestination;
use rusty_pipe::endpoint::PipeCopySource;
use rusty_pipe::endpoint::Way;
use rusty_pipe::endpoint::AGENT_KILL_PATH;
use rusty_pipe::endpoint::AGENT_PATH;

fn words(list: &[&str]) -> Vec<String> {
    list.iter().map(|word| word.to_string()).collect()
}

#[test]
fn coupling_stops_the_other_direction() {
    let mut pair = Coupling::new();
    let first = pair.connect(CoupleEvent::Copied { way: Way::There, bytes: 6 });
    assert_eq!(first, CoupleAction::Stop(Way::Back));
    let second = pair.connect(CoupleEvent::Stopped { way: Way::Back, bytes: 0 });
    assert_eq!(second, CoupleAction::Return(6));
}

#[test]
fn coupling_returns_the_larger_count() {
    let mut pair = Coupling::new();
    assert_eq!(
        pair.connect(CoupleEvent::Copied { way: Way::Back, bytes: 10 }),
        CoupleAction::Stop(Way::There)
    );
    assert_eq!(
        pair.connect(CoupleEvent::Copied { way: Way::There, bytes: 25 }),
        CoupleAction::Return(25)
    );
    assert_eq!(
        pair.connect(CoupleEvent::Copied { way: Way::There, bytes: 99 }),
        CoupleAction::Wait
    );
}

#[test]
fn coupling_counts_what_a_stopped_direction_has_moved() {
    let mut pair = Coupling::new();
    assert_eq!(
        pair.connect(CoupleEvent::Copied { way: Way::There, bytes: 6 }),
        CoupleAction::Stop(Way::Back)
    );
    assert_eq!(
        pair.connect(CoupleEvent::Stopped { way: Way::Back, bytes: 4096 }),
        CoupleAction::Return(4096)
    );
}

#[test]
fn coupling_counts_what_a_failed_copy_has_moved() {
    let mut pair = Coupling::new();
    assert_eq!(
        pair.connect(CoupleEvent::Failed { way: Way::There, bytes: 4 }),
        CoupleAction::Stop(Way::Back)
    );
    assert_eq!(
        pair.connect(CoupleEvent::Failed { way: Way::Back, bytes: 2 }),
        CoupleAction::Return(4)
    );
    let mut pair = Coupling::new();
    assert_eq!(
        pair.connect(CoupleEvent::Failed { way: Way::Back, bytes: 0 }),
        CoupleAction::Stop(Way::There)
    );
    assert_eq!(
        pair.connect(CoupleEvent::Stopped { way: Way::There, bytes: 0 }),
        CoupleAction::Return(0)
    );
}

fn is_stop(action: CopyAction) -> bool {
    matches!(action, CopyAction::Stop)
}

#[test]
fn copy_reports_each_chunk_once_it_is_written() {
    let mut pump = CopyPump::new();
    let chunks = [10240usize, 10240, 512];
    let mut running = 0u64;
    let mut written: Vec<u8> = Vec::new();
    let mut source: Vec<u8> = Vec::new();
    for (n, chunk) in chunks.iter().enumerate() {
        let data = vec![n as u8 + 1; *chunk];
        source.extend_from_slice(&data);
        match pump.pipe_copy(CopyEvent::Read(data)) {
            CopyAction::Write(bytes) => written.extend(bytes),
            _ => panic!("a chunk was not written"),
        }
        assert_eq!(pump.total(), running);
        match pump.pipe_copy(CopyEvent::Written) {
            CopyAction::Report(len) => assert_eq!(len, *chunk),
            _ => panic!("a chunk was not reported"),
        }
        assert!(pump.total() >= running);
        running += *chunk as u64;
        assert_eq!(pump.total(), running);
    }
    assert!(is_stop(pump.pipe_copy(CopyEvent::Read(vec![]))));
    assert_eq!(pump.total(), 20992);
    assert_eq!(written, source);
    assert!(is_stop(pump.pipe_copy(CopyEvent::Read(vec![1, 2, 3, 4, 5]))));
    assert_eq!(pump.total(), 20992);
}

#[test]
fn copy_stops_on_any_failure() {
    let mut pump = CopyPump::new();
    assert!(is_stop(pump.pipe_copy(CopyEvent::ReadFailed)));
    let mut pump = CopyPump::new();
    match pump.pipe_copy(CopyEvent::Read(vec![7; 7])) {
        CopyAction::Write(bytes) => assert_eq!(bytes, vec![7; 7]),
        _ => panic!("a chunk was not written"),
    }
    assert!(is_stop(pump.pipe_copy(CopyEvent::WriteFailed)));
    assert_eq!(pump.total(), 0);
    assert!(is_stop(pump.pipe_copy(CopyEvent::Written)));
}

#[test]
fn copy_conduits_carry_their_parts() {
    let source = PipeCopySource::new(3 * 1024 * 1024, "reader");
    assert_eq!(source.get_size(), 3145728);
    assert_eq!(source.into_reader(), "reader");
    assert_eq!(PipeCopyDestination::new("writer").into_writer(), "writer");
    let (pf, port) = PortForwardPipeEndpoint::new("forwarder", 8080).into_parts();
    assert_eq!((pf, port), ("forwarder", 8080));
}

#[test]
fn remote_commands_are_spelled_out() {
    assert_eq!(AGENT_PATH, "/tmp/rs-agent");
    assert_eq!(AGENT_KILL_PATH, "/tmp/rs-agent.kill");
    assert_eq!(pack_command("/var/log", "syslog"), words(&["tar", "cf", "-", "-C", "/var/log", "syslog"]));
    assert_eq!(
        size_command("/var/log", "syslog"),
        words(&["sh", "-c", "tar cf - -C /var/log syslog | wc -c"])
    );
    assert_eq!(unpack_command("/tmp/out"), words(&["tar", "xf", "-", "-C", "/tmp/out"]));
    assert_eq!(ls_command("/etc", words(&["-lah"])), words(&["ls", "/etc", "-lah"]));
    assert_eq!(ls_command("/etc", vec![]), words(&["ls", "/etc"]));
    assert_eq!(upload_command(), words(&["dd", "of=/tmp/rs-agent"]));
    assert_eq!(chmod_command(), words(&["chmod", "+x", "/tmp/rs-agent"]));
    assert_eq!(kill_command(), words(&["touch", "/tmp/rs-agent.kill"]));
}

#[test]
fn copy_source_of_a_directory_is_its_contents() {
    assert_eq!(copy_source_parts("/var/log/"), Some(("/var/log".to_string(), ".".to_string())));
    assert_eq!(copy_source_parts("/"), Some(("".to_string(), ".".to_string())));
}

#[test]
fn copy_source_of_a_file_is_its_name_in_its_parent() {
    assert_eq!(
        copy_source_parts("/var/log/syslog"),
        Some(("/var/log".to_string(), "syslog".to_string()))
    );
    assert_eq!(copy_source_parts("/syslog"), Some(("/".to_string(), "syslog".to_string())));
    assert_eq!(copy_source_parts("syslog"), Some(("".to_string(), "syslog".to_string())));
    assert_eq!(copy_source_parts("a/.."), None);
    assert_eq!(copy_source_parts(""), None);
}

#[test]
fn split_source_path_takes_what_it_is_given() {
    assert_eq!(
        split_source_path("a/b", Some("name".to_string()), Some("dir".to_string())),
        Some(("dir".to_string(), "name".to_string()))
    );
    assert_eq!(split_source_path("a/b", None, Some("dir".to_string())), None);
    assert_eq!(split_source_path("a/b", Some("name".to_string()), None), None);
    assert_eq!(
        split_source_path("a/b/", None, None),
        Some(("a/b".to_string(), ".".to_string()))
    );
}

#[test]
fn size_is_read_from_the_digits() {
    assert_eq!(parse_size("3145728\n"), Some(3145728));
    assert_eq!(parse_size("  10240 \n"), Some(10240));
    assert_eq!(parse_size("0"), Some(0));
    assert_eq!(parse_size(""), None);
    assert_eq!(parse_size("\n"), None);
    assert_eq!(parse_size("18446744073709551615"), Some(u64::MAX));
    assert_eq!(parse_size("18446744073709551616"), None);
}

#[test]
fn precheck_fails_on_any_error_output() {
    assert!(rusty_pipe::endpoint::stdio::precheck("").is_ok());
    match rusty_pipe::endpoint::stdio::precheck("tar: not found") {
        Err(rusty_pipe::endpoint::stdio::Error::ExecError(text)) => assert_eq!(text, "tar: not found"),
        _ => panic!("error output was taken for success"),
    }
    assert!(rusty_pipe::endpoint::kube::precheck("").is_ok());
    match rusty_pipe::endpoint::kube::precheck("no such directory") {
        Err(rusty_pipe::endpoint::kube::Error::ExecError(text)) => assert_eq!(text, "no such directory"),
        _ => panic!("error output was taken for success"),
    }
}

#[test]
fn containers_are_listed_by_first_name_or_id() {
    let list = vec![
        ContainerSummary { names: Some(words(&["/web", "/alias"])), id: Some("abc".to_string()) },
        ContainerSummary { names: None, id: Some("def".to_string()) },
        ContainerSummary { names: Some(words(&["//db"])), id: None },
    ];
    assert_eq!(list_containers(&list), Some(words(&["web", "def", "db"])));
    let nameless = vec![ContainerSummary { names: None, id: None }];
    assert_eq!(list_containers(&nameless), None);
    let empty = vec![ContainerSummary { names: Some(vec![]), id: Some("abc".to_string()) }];
    assert_eq!(list_containers(&empty), None);
    assert_eq!(list_containers(&vec![]), Some(vec![]));
}

#[test]
fn contexts_get_names_of_their_own() {
    let mut kube = KubeConfigs::new();
    assert_eq!(kube.add_context("/home/u/.kube/config", "prod"), "prod");
    assert_eq!(kube.add_context("/home/u/.kube/b.config", "prod"), "prod_2");
    assert_eq!(kube.add_context("/home/u/.kube/c.config", "prod"), "prod_3");
    assert_eq!(kube.add_context("/home/u/.kube/c.config", "prod_2"), "prod_2_2");
    assert_eq!(kube.add_context("/home/u/.kube/c.config", "dev"), "dev");
    assert_eq!(kube.names(), words(&["prod", "prod_2", "prod_3", "prod_2_2", "dev"]));
    assert_eq!(
        kube.get_contexts()[1],
        ("prod_2".to_string(), "/home/u/.kube/b.config".to_string())
    );
    assert_eq!(
        kube.get_context("prod_3").ok(),
        Some(("/home/u/.kube/c.config".to_string(), "prod".to_string()))
    );
    match kube.get_context("test") {
        Err(rusty_pipe::endpoint::kube::Error::ContextNotFound(name)) => assert_eq!(name, "test"),
        _ => panic!("a context was found that was never added"),
    }
    assert!(kube.has_context("dev"));
    assert!(!kube.has_context("de"));
}

#[test]
fn many_contexts_of_one_name_are_numbered_in_turn() {
    let mut kube = KubeConfigs::new();
    assert_eq!(kube.add_context("f", "c"), "c");
    for n in 2..=12 {
        assert_eq!(kube.add_context("f", "c"), format!("c_{}", n));
    }
}

#[test]
fn default_context_is_the_last_one_set() {
    let mut kube = KubeConfigs::new();
    assert_eq!(kube.default_context(), None);
    kube.set_default(Some("prod".to_string()));
    assert_eq!(kube.default_context(), Some("prod".to_string()));
    kube.set_default(None);
    assert_eq!(kube.default_context(), None);
}

#[test]
fn config_files_are_known_by_their_ending() {
    assert!(is_config_path("/home/u/.kube/config"));
    assert!(is_config_path("/home/u/.kube/work.config"));
    assert!(!is_config_path("/home/u/.kube/config.bak"));
    assert!(!is_config_path("/home/u/.kube/myconfig"));
    assert!(!is_config_path("config"));
}

#[test]
fn output_of_a_container_goes_to_stream_or_stderr() {
    assert_eq!(output_sink(OutputKind::StdOut), OutputSink::Stream);
    assert_eq!(output_sink(OutputKind::StdErr), OutputSink::Stderr);
    assert_eq!(output_sink(OutputKind::StdIn), OutputSink::Dropped);
    assert_eq!(output_sink(OutputKind::Console), OutputSink::Dropped);
}
