//! The endpoint strings of the command line.
//!
//! A forward point names where a connection comes from or goes to; a copy
//! point names where files come from or go to. Both are written as short
//! texts, and the functions here read them.

pub mod agent;
pub mod complete;
pub mod ls;
pub mod path_parser;
pub mod pf;

use crate::text::all_digits;
use crate::text::chars_of;
use crate::text::contains_char;
use crate::text::decimal_value;
use crate::text::ends_in;
use crate::text::ends_with_char;
use crate::text::lemma_pieces;
use crate::text::number;
use crate::text::parse_number;
use crate::text::pieces;
use crate::text::read_number;
use crate::text::same_text;
use crate::text::signed_number;
use crate::text::split;
use crate::text::texts;
use vstd::prelude::*;

verus! {

/// The shells for which a completion script can be printed.
#[derive(Debug, Clone, Copy, PartialEq, Eq, Structural)]
pub enum Shell {
    Bash,
}

/// A place to copy from or to.
#[derive(Debug, Clone)]
pub enum CopyPoint {
    Docker(DockerCopyPoint),
    Kube(KubeCopyPoint),
    Local(String),
}

/// A path in a pod.
#[derive(Debug, Clone)]
pub struct KubeCopyPoint {
    pub context: String,
    pub namespace: String,
    pub pod: String,
    pub path: String,
}

/// A path in a container.
#[derive(Debug, Clone)]
pub struct DockerCopyPoint {
    pub container: String,
    pub path: String,
}

/// An IPv4 address, by its four numbers.
#[derive(Debug, Clone, Copy, PartialEq, Eq, Structural)]
pub struct Ipv4 {
    pub a: u8,
    pub b: u8,
    pub c: u8,
    pub d: u8,
}

/// An IPv4 address with a port.
#[derive(Debug, Clone, Copy, PartialEq, Eq, Structural)]
pub struct LocalAddr {
    pub host: Ipv4,
    pub port: u16,
}

/// A place to forward from or to.
#[derive(Debug, Clone)]
pub enum ForwardPoint {
    Docker(DockerForwardPoint),
    Kube(KubeForwardPoint),
    Local(LocalAddr),
    Stdio,
}

/// A port of a pod.
#[derive(Debug, Clone)]
pub struct KubeForwardPoint {
    pub context: String,
    pub namespace: String,
    pub pod: String,
    pub port: u16,
}

/// A port of a container.
#[derive(Debug, Clone)]
pub struct DockerForwardPoint {
    pub container: String,
    pub port: u16,
}

/// What a copy point is.
pub ghost enum CopyPointView {
    Docker { container: Seq<char>, path: Seq<char> },
    Kube { context: Seq<char>, namespace: Seq<char>, pod: Seq<char>, path: Seq<char> },
    Local(Seq<char>),
}

/// What a forward point is.
pub ghost enum ForwardPointView {
    Docker { container: Seq<char>, port: u16 },
    Kube { context: Seq<char>, namespace: Seq<char>, pod: Seq<char>, port: u16 },
    Local(LocalAddr),
    Stdio,
}

impl View for CopyPoint {
    type V = CopyPointView;

    open spec fn view(&self) -> CopyPointView {
        match self {
            CopyPoint::Docker(point) => CopyPointView::Docker {
                container: point.container@,
                path: point.path@,
            },
            CopyPoint::Kube(point) => CopyPointView::Kube {
                context: point.context@,
                namespace: point.namespace@,
                pod: point.pod@,
                path: point.path@,
            },
            CopyPoint::Local(path) => CopyPointView::Local(path@),
        }
    }
}

impl View for ForwardPoint {
    type V = ForwardPointView;

    open spec fn view(&self) -> ForwardPointView {
        match self {
            ForwardPoint::Docker(point) => ForwardPointView::Docker {
                container: point.container@,
                port: point.port,
            },
            ForwardPoint::Kube(point) => ForwardPointView::Kube {
                context: point.context@,
                namespace: point.namespace@,
                pod: point.pod@,
                port: point.port,
            },
            ForwardPoint::Local(addr) => ForwardPointView::Local(*addr),
            ForwardPoint::Stdio => ForwardPointView::Stdio,
        }
    }
}

/// The address that stands for this machine.
pub open spec fn loopback(port: u16) -> LocalAddr {
    LocalAddr { host: Ipv4 { a: 127, b: 0, c: 0, d: 1 }, port }
}

/// A text can be listed where it names a container or pod up to its colon, or
/// ends with a slash.
pub open spec fn is_ls_path(val: Seq<char>) -> bool {
    val.contains(':') || ends_in(val, '/')
}

/// The copy point that `val` names: a local path where it holds no colon;
/// else what stands in front of the first colon names a container (one part)
/// or a pod (context, namespace and pod, parted by slashes), and what stands
/// between the first colon and the next is the path.
pub open spec fn copy_point(val: Seq<char>) -> Option<CopyPointView> {
    if !val.contains(':') {
        Some(CopyPointView::Local(val))
    } else {
        let origin_path = pieces(val, ':');
        let parts = pieces(origin_path[0], '/');
        if parts.len() == 1 {
            Some(CopyPointView::Docker { container: origin_path[0], path: origin_path[1] })
        } else if parts.len() == 3 {
            Some(
                CopyPointView::Kube {
                    context: parts[0],
                    namespace: parts[1],
                    pod: parts[2],
                    path: origin_path[1],
                },
            )
        } else {
            None
        }
    }
}

/// One number of a dotted address: up to three digits that write at most 255,
/// without a zero in front of other digits.
pub open spec fn octet(s: Seq<char>) -> Option<u8> {
    if 1 <= s.len() <= 3 && all_digits(s) && (s.len() == 1 || s[0] != '0') && decimal_value(s)
        <= 255 {
        Some(decimal_value(s) as u8)
    } else {
        None
    }
}

/// The address that four numbers with dots between them write.
pub open spec fn dotted_quad(host: Seq<char>) -> Option<Ipv4> {
    let parts = pieces(host, '.');
    if parts.len() == 4 && octet(parts[0]) is Some && octet(parts[1]) is Some && octet(parts[2])
        is Some && octet(parts[3]) is Some {
        Some(
            Ipv4 {
                a: octet(parts[0])->0,
                b: octet(parts[1])->0,
                c: octet(parts[2])->0,
                d: octet(parts[3])->0,
            },
        )
    } else {
        None
    }
}

/// Why a text names no forward point.
pub ghost enum ForwardFault {
    /// The port is no number up to 65535.
    InvalidPort,
    /// The host looks like a dotted address and is none, or more follows the
    /// port.
    InvalidAddress,
    /// No colon and port follow the host or pod.
    MissingPort,
    /// The text has two parts, or more than three.
    NotAForwardPath,
}

/// The forward point of a text without slashes: `-`, a local address, or a
/// container with a port.
pub open spec fn plain_forward_point(val: Seq<char>) -> Result<ForwardPointView, ForwardFault> {
    if val == seq!['-'] {
        Ok(ForwardPointView::Stdio)
    } else if !val.contains(':') {
        Err(ForwardFault::MissingPort)
    } else {
        let host_and_port = pieces(val, ':');
        let host = host_and_port[0];
        match signed_number(host_and_port[1], 65535) {
            None => Err(ForwardFault::InvalidPort),
            Some(port) => if host.len() == 0 || host == "localhost"@ || host == "127.0.0.1"@ {
                Ok(ForwardPointView::Local(loopback(port as u16)))
            } else if pieces(host, '.').len() == 4 {
                if host_and_port.len() == 2 && dotted_quad(host) is Some && number(
                    host_and_port[1],
                    65535,
                ) is Some {
                    Ok(
                        ForwardPointView::Local(
                            LocalAddr { host: dotted_quad(host)->0, port: port as u16 },
                        ),
                    )
                } else {
                    Err(ForwardFault::InvalidAddress)
                }
            } else {
                Ok(ForwardPointView::Docker { container: host, port: port as u16 })
            },
        }
    }
}

/// The forward point that `val` names. Without a slash it is `-`, a local
/// address or a container; with two slashes it is a pod, by context, namespace
/// and pod. The port stands behind the first colon.
pub open spec fn forward_point(val: Seq<char>) -> Result<ForwardPointView, ForwardFault> {
    let parts = pieces(val, '/');
    if parts.len() == 1 {
        plain_forward_point(parts[0])
    } else if parts.len() == 3 {
        if !parts[2].contains(':') {
            Err(ForwardFault::MissingPort)
        } else {
            let pod_port = pieces(parts[2], ':');
            match signed_number(pod_port[1], 65535) {
                None => Err(ForwardFault::InvalidPort),
                Some(port) => Ok(
                    ForwardPointView::Kube {
                        context: parts[0],
                        namespace: parts[1],
                        pod: pod_port[0],
                        port: port as u16,
                    },
                ),
            }
        }
    } else {
        Err(ForwardFault::NotAForwardPath)
    }
}

/// What is said of a text that names no forward point.
pub open spec fn fault_text(fault: ForwardFault) -> Seq<char> {
    match fault {
        ForwardFault::InvalidPort => "Invalid port"@,
        ForwardFault::InvalidAddress => "Invalid address"@,
        ForwardFault::MissingPort => "Missing :<PORT> part"@,
        ForwardFault::NotAForwardPath => "Not a valid forward path"@,
    }
}

/// Accepts `val` as a path to list, or says what such a path looks like.
pub fn str_to_ls_path(val: &str) -> (r: Result<String, String>)
    ensures
        is_ls_path(val@) ==> r is Ok && r->Ok_0@ == val@,
        !is_ls_path(val@) ==> r is Err && r->Err_0@
            == "path must follow <context>/[ns/[pod:/]] OR <container>:/"@,
{
    if !contains_char(val, ':') && !ends_with_char(val, '/') {
        return Err("path must follow <context>/[ns/[pod:/]] OR <container>:/".to_owned());
    }
    Ok(val.to_owned())
}

/// Reads a copy point.
pub fn str_to_copy_point(val: &str) -> (r: Result<CopyPoint, String>)
    ensures
        match copy_point(val@) {
            Some(point) => r is Ok && r->Ok_0@ == point,
            None => r is Err && r->Err_0@ == "Not a valid copy path"@,
        },
{
    if !contains_char(val, ':') {
        return Ok(CopyPoint::Local(val.to_owned()));
    }
    let origin_path = split(val, ':');
    proof {
        lemma_pieces(val@, ':');
        assert(texts(origin_path@)[0] == origin_path@[0]@);
        assert(texts(origin_path@)[1] == origin_path@[1]@);
    }
    let parts = split(origin_path[0].as_str(), '/');
    if parts.len() == 1 {
        Ok(
            CopyPoint::Docker(
                DockerCopyPoint { container: origin_path[0].clone(), path: origin_path[1].clone() },
            ),
        )
    } else if parts.len() == 3 {
        proof {
            assert(texts(parts@)[0] == parts@[0]@);
            assert(texts(parts@)[1] == parts@[1]@);
            assert(texts(parts@)[2] == parts@[2]@);
        }
        Ok(
            CopyPoint::Kube(
                KubeCopyPoint {
                    context: parts[0].clone(),
                    namespace: parts[1].clone(),
                    pod: parts[2].clone(),
                    path: origin_path[1].clone(),
                },
            ),
        )
    } else {
        Err("Not a valid copy path".to_owned())
    }
}

/// Reads one number of a dotted address.
fn parse_octet(s: &str) -> (r: Option<u8>)
    ensures
        r == octet(s@),
{
    let chars = chars_of(s);
    if chars.len() < 1 || chars.len() > 3 {
        return None;
    }
    if chars.len() > 1 && chars[0] == '0' {
        return None;
    }
    assert(chars@.skip(0) =~= s@);
    match read_number(&chars, 0, 255) {
        Some(value) => Some(value as u8),
        None => None,
    }
}

/// Reads four numbers with dots between them.
fn parse_dotted_quad(host: &str) -> (r: Option<Ipv4>)
    ensures
        r == dotted_quad(host@),
{
    let parts = split(host, '.');
    if parts.len() != 4 {
        return None;
    }
    proof {
        assert(texts(parts@)[0] == parts@[0]@);
        assert(texts(parts@)[1] == parts@[1]@);
        assert(texts(parts@)[2] == parts@[2]@);
        assert(texts(parts@)[3] == parts@[3]@);
    }
    let a = parse_octet(parts[0].as_str());
    let b = parse_octet(parts[1].as_str());
    let c = parse_octet(parts[2].as_str());
    let d = parse_octet(parts[3].as_str());
    match (a, b, c, d) {
        (Some(a), Some(b), Some(c), Some(d)) => Some(Ipv4 { a, b, c, d }),
        _ => None,
    }
}

/// Reads a forward point that holds no slash.
fn plain_to_forward_point(val: &str) -> (r: Result<ForwardPoint, String>)
    ensures
        match plain_forward_point(val@) {
            Ok(point) => r is Ok && r->Ok_0@ == point,
            Err(fault) => r is Err && r->Err_0@ == fault_text(fault),
        },
{
    proof {
        reveal_strlit("-");
        assert("-"@ =~= seq!['-']);
    }
    if same_text(val, "-") {
        return Ok(ForwardPoint::Stdio);
    }
    if !contains_char(val, ':') {
        return Err("Missing :<PORT> part".to_owned());
    }
    let host_and_port = split(val, ':');
    proof {
        lemma_pieces(val@, ':');
        assert(texts(host_and_port@)[0] == host_and_port@[0]@);
        assert(texts(host_and_port@)[1] == host_and_port@[1]@);
    }
    let host = host_and_port[0].as_str();
    let port: u16 = match parse_number(host_and_port[1].as_str(), 65535) {
        Some(port) => port as u16,
        None => {
            return Err("Invalid port".to_owned());
        },
    };
    if host.unicode_len() == 0 || same_text(host, "localhost") || same_text(host, "127.0.0.1") {
        return Ok(
            ForwardPoint::Local(LocalAddr { host: Ipv4 { a: 127, b: 0, c: 0, d: 1 }, port }),
        );
    }
    let dots = split(host, '.');
    if dots.len() == 4 {
        if host_and_port.len() != 2 {
            return Err("Invalid address".to_owned());
        }
        let port_chars = chars_of(host_and_port[1].as_str());
        assert(port_chars@.skip(0) =~= port_chars@);
        if read_number(&port_chars, 0, 65535).is_none() {
            return Err("Invalid address".to_owned());
        }
        return match parse_dotted_quad(host) {
            Some(quad) => Ok(ForwardPoint::Local(LocalAddr { host: quad, port })),
            None => Err("Invalid address".to_owned()),
        };
    }
    Ok(ForwardPoint::Docker(DockerForwardPoint { container: host_and_port[0].clone(), port }))
}

/// Reads a forward point.
pub fn str_to_forward_point(val: &str) -> (r: Result<ForwardPoint, String>)
    ensures
        match forward_point(val@) {
            Ok(point) => r is Ok && r->Ok_0@ == point,
            Err(fault) => r is Err && r->Err_0@ == fault_text(fault),
        },
{
    let parts = split(val, '/');
    if parts.len() == 1 {
        assert(texts(parts@)[0] == parts@[0]@);
        plain_to_forward_point(parts[0].as_str())
    } else if parts.len() == 3 {
        proof {
            assert(texts(parts@)[0] == parts@[0]@);
            assert(texts(parts@)[1] == parts@[1]@);
            assert(texts(parts@)[2] == parts@[2]@);
        }
        if !contains_char(parts[2].as_str(), ':') {
            return Err("Missing :<PORT> part".to_owned());
        }
        let pod_port = split(parts[2].as_str(), ':');
        proof {
            lemma_pieces(parts@[2]@, ':');
            assert(texts(pod_port@)[0] == pod_port@[0]@);
            assert(texts(pod_port@)[1] == pod_port@[1]@);
        }
        match parse_number(pod_port[1].as_str(), 65535) {
            Some(port) => Ok(
                ForwardPoint::Kube(
                    KubeForwardPoint {
                        context: parts[0].clone(),
                        namespace: parts[1].clone(),
                        pod: pod_port[0].clone(),
                        port: port as u16,
                    },
                ),
            ),
            None => Err("Invalid port".to_owned()),
        }
    } else {
        Err("Not a valid forward path".to_owned())
    }
}

} // verus!
