use rusty_pipe::cli::complete::bash_complete;
use rusty_pipe::cli::complete::complete_commands;
use rusty_pipe::cli::complete::completion_script;
use rusty_pipe::cli::complete::match_local;
use rusty_pipe::cli::complete::Completion;
use rusty_pipe::cli::path_parser::complete_file;
use rusty_pipe::cli::path_parser::parse_path_types;
use rusty_pipe::cli::path_parser::FileAsk;
use rusty_pipe::cli::path_parser::Lookup;
use rusty_pipe::cli::path_parser::Suggest;
use rusty_pipe::cli::Shell;
use rusty_pipe::endpoint::kube::KubeConfigs;

fn owned(list: &[&str]) -> Vec<String> {
    list.iter().map(|word| word.to_string()).collect()
}

fn answer(lookup: &Lookup) -> Option<Vec<String>> {
    match lookup {
        Lookup::Containers => Some(owned(&["con1", "con11", "con2"])),
        Lookup::ContainerFiles { .. } => Some(owned(&["file1", "file11", "file2"])),
        Lookup::Namespaces { .. } => Some(owned(&["ns1", "ns11", "ns2"])),
        Lookup::Pods { .. } => Some(owned(&["pod1", "pod11", "pod2"])),
        Lookup::PodFiles { .. } => Some(owned(&["file1", "file11", "file2"])),
    }
}

fn get_suggestions(endpoint: &str, resolve_fs: bool) -> Vec<String> {
    let mut kube = KubeConfigs::new();
    kube.add_context("", "k8con1");
    kube.add_context("", "k8con11");
    kube.add_context("", "k8con2");
    let mut res = Vec::new();
    for p in parse_path_types(endpoint) {
        let mut answers = Vec::new();
        loop {
            match p.get_suggestions(&kube, resolve_fs, &answers).expect("a path to complete") {
                Suggest::Done(mut list) => {
                    res.append(&mut list);
                    break;
                }
                Suggest::Ask(lookup) => answers.push(answer(&lookup)),
            }
        }
    }
    res
}

#[test]
fn k8_context_completion_works() {
    let res = get_suggestions("", true);
    assert!(res.contains(&"k8con1/".to_owned()));
    assert!(res.contains(&"k8con11/".to_owned()));
    assert!(res.contains(&"k8con2/".to_owned()));

    let res = get_suggestions("k8con1", true);
    assert!(res.contains(&"k8con1/".to_owned()));
    assert!(res.contains(&"k8con11/".to_owned()));

    let res = get_suggestions("k8con2", true);
    assert!(res.contains(&"k8con2/".to_owned()));
}

#[test]
fn k8_ns_completion_works() {
    let res = get_suggestions("k8con1/", true);
    assert!(res.contains(&"k8con1/ns1/".to_owned()));
    assert!(res.contains(&"k8con1/ns11/".to_owned()));
    assert!(res.contains(&"k8con1/ns2/".to_owned()));

    let res = get_suggestions("k8con1/ns1", true);
    assert!(res.contains(&"k8con1/ns1/".to_owned()));
    assert!(res.contains(&"k8con1/ns11/".to_owned()));

    let res = get_suggestions("k8con1/ns2", true);
    assert!(res.contains(&"k8con1/ns2/".to_owned()));
}

#[test]
fn k8_pod_completion_works() {
    let res = get_suggestions("k8con1/ns1/", true);
    assert!(res.contains(&"k8con1/ns1/pod1:".to_owned()));
    assert!(res.contains(&"k8con1/ns1/pod11:".to_owned()));
    assert!(res.contains(&"k8con1/ns1/pod2:".to_owned()));

    let res = get_suggestions("k8con1/ns1/pod1", true);
    assert!(res.contains(&"k8con1/ns1/pod1:".to_owned()));
    assert!(res.contains(&"k8con1/ns1/pod11:".to_owned()));

    let res = get_suggestions("k8con1/ns1/pod2", true);
    assert!(res.contains(&"k8con1/ns1/pod2:".to_owned()));
}

#[test]
fn k8_file_completion_works() {
    let res = get_suggestions("k8con1/ns1/pod1:/", true);
    assert!(res.contains(&"/file1".to_owned()));
    assert!(res.contains(&"/file11".to_owned()));
    assert!(res.contains(&"/file2".to_owned()));

    let res = get_suggestions("k8con1/ns1/pod1:/file1", true);
    assert!(res.contains(&"/file1".to_owned()));
    assert!(res.contains(&"/file11".to_owned()));

    let res = get_suggestions("k8con1/ns1/pod1:/file2", true);
    assert!(res.contains(&"/file2".to_owned()));

    let res = get_suggestions("k8con1/ns1/pod1:/file1/", true);
    assert!(res.contains(&"/file1/file1".to_owned()));
    assert!(res.contains(&"/file1/file11".to_owned()));
    assert!(res.contains(&"/file1/file2".to_owned()));
}

#[test]
fn container_completion_works() {
    let res = get_suggestions("", true);
    assert!(res.contains(&"con1:".to_owned()));
    assert!(res.contains(&"con11:".to_owned()));
    assert!(res.contains(&"con2:".to_owned()));

    let res = get_suggestions("con1", true);
    assert!(res.contains(&"con1:".to_owned()));
    assert!(res.contains(&"con11:".to_owned()));

    let res = get_suggestions("con2", true);
    assert!(res.contains(&"con2:".to_owned()));
}

#[test]
fn container_file_completion_works() {
    let res = get_suggestions("con1:/", true);
    assert!(res.contains(&"/file1".to_owned()));
    assert!(res.contains(&"/file11".to_owned()));
    assert!(res.contains(&"/file2".to_owned()));

    let res = get_suggestions("con1:/file1", true);
    assert!(res.contains(&"/file1".to_owned()));
    assert!(res.contains(&"/file11".to_owned()));

    let res = get_suggestions("con1:/file2", true);
    assert!(res.contains(&"/file2".to_owned()));

    let res = get_suggestions("con1:/file1/", true);
    assert!(res.contains(&"/file1/file1".to_owned()));
    assert!(res.contains(&"/file1/file11".to_owned()));
    assert!(res.contains(&"/file1/file2".to_owned()));
}

#[test]
fn completion_is_exact_and_in_order() {
    assert_eq!(get_suggestions("con1", true), owned(&["con1:", "con11:"]));
    assert_eq!(get_suggestions("k8", true), owned(&["k8con1/", "k8con11/", "k8con2/"]));
    assert_eq!(get_suggestions("k8con1/ns1/pod2", true), owned(&["k8con1/ns1/pod2:"]));
    assert_eq!(get_suggestions("con1:/file2", true), owned(&["/file2"]));
    assert_eq!(get_suggestions("k8con1/ns1/pod1:/etc/file2", true), owned(&["/etc/file2"]));
    assert_eq!(get_suggestions("con1:/etc/file2", true), owned(&["/etc/file2"]));
    assert!(get_suggestions("con1:", true).is_empty());
    assert!(get_suggestions("con1:/", false) == owned(&["con1:"]));
    assert!(get_suggestions("k8con1/ns1/pod1:/", false) == owned(&["k8con1/ns1/pod1:"]));
    assert!(get_suggestions("a/b/c/d", true).is_empty());
}

#[test]
fn file_completion_falls_back_when_a_listing_fails() {
    let none: Vec<Option<Vec<String>>> = vec![];
    match complete_file("/etc/", &none, false) {
        FileAsk::List(dir) => assert_eq!(dir, "/etc/"),
        _ => panic!("the directory was not listed"),
    }
    match complete_file("/etc/", &vec![None], false) {
        FileAsk::List(dir) => assert_eq!(dir, "/etc"),
        _ => panic!("the parent was not listed"),
    }
    match complete_file("/etc/", &vec![None], true) {
        FileAsk::List(dir) => assert_eq!(dir, "/etc/"),
        _ => panic!("the parent was not listed"),
    }
    match complete_file("/etc/", &vec![None, Some(owned(&["a", "b"]))], false) {
        FileAsk::Done(list) => assert_eq!(list, owned(&["/etc/a", "/etc/b"])),
        _ => panic!("nothing was suggested"),
    }
    match complete_file("/etc/", &vec![None, None], false) {
        FileAsk::Done(list) => assert!(list.is_empty()),
        _ => panic!("a third listing was asked for"),
    }
    match complete_file("/", &vec![None], false) {
        FileAsk::Done(list) => assert!(list.is_empty()),
        _ => panic!("a path of one byte was listed again"),
    }
    match complete_file("", &none, true) {
        FileAsk::Done(list) => assert!(list.is_empty()),
        _ => panic!("an empty path was listed"),
    }
    match complete_file("fi", &none, true) {
        FileAsk::List(dir) => assert_eq!(dir, "/"),
        _ => panic!("the root was not listed"),
    }
}

#[test]
fn bash_line_is_read() {
    assert!(bash_complete("rs").is_none());
    assert!(bash_complete("").is_none());
    match bash_complete("rs p") {
        Some(Completion::Commands(word)) => assert_eq!(word, "p"),
        _ => panic!("no command to complete"),
    }
    match bash_complete("rs -v ") {
        Some(Completion::Commands(word)) => assert_eq!(word, ""),
        _ => panic!("no command to complete"),
    }
    match bash_complete("rs ls web:/e") {
        Some(Completion::Ls(word)) => assert_eq!(word, "web:/e"),
        _ => panic!("no path to list"),
    }
    match bash_complete("rs pf :80 we") {
        Some(Completion::Pf(word)) => assert_eq!(word, "we"),
        _ => panic!("no forward point to complete"),
    }
    match bash_complete("rs pf -") {
        Some(Completion::Pf(word)) => assert_eq!(word, "-"),
        _ => panic!("no forward point to complete"),
    }
    match bash_complete("rs -v cp web:/a ") {
        Some(Completion::Cp(word)) => assert_eq!(word, ""),
        _ => panic!("no copy point to complete"),
    }
    match bash_complete("rs cp /tmp") {
        Some(Completion::Cp(word)) => assert_eq!(word, "/tmp"),
        _ => panic!("no copy point to complete"),
    }
    assert!(matches!(bash_complete("rs frob x"), Some(Completion::Nothing)));
}

#[test]
fn commands_and_local_points_are_offered() {
    assert_eq!(complete_commands(""), owned(&["pf ", "ls ", "cp "]));
    assert_eq!(complete_commands("p"), owned(&["pf "]));
    assert!(complete_commands("x").is_empty());
    assert_eq!(match_local(""), owned(&[":", "0.0.0.0:", "- "]));
    assert_eq!(match_local("0"), owned(&["0.0.0.0:"]));
    assert_eq!(match_local("-"), owned(&["- "]));
    assert_eq!(completion_script(Shell::Bash), "complete -C 'rs -cb' -o nospace rs");
}
