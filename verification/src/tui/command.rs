//! The operator's commands: what a line of input asks for.
//!
//! A line holds the command's name, up to the first space, and its argument,
//! the rest of the line without the white space around it.

use crate::tui::text::{
    decimal_u16, parse_u16, split_at_first, split_at_last, split_first, split_last, text_eq, trim,
    trimmed,
};
use vstd::prelude::*;
use vstd::string::*;

verus! {

/// The mathematical content of a [`Command`].
pub enum CommandView {
    Start,
    Stop,
    Restart,
    Traffic,
    Status,
    Discover(Option<(u16, u16)>),
    DiscoverUsage,
    Connected,
    Disconnect(Seq<char>),
    DisconnectUsage,
    Connect(Seq<char>),
    ConnectUsage,
    ConnectInvalid,
    Help,
    Quit,
    Nothing,
    Unknown(Seq<char>),
}

/// What a line of input asks for.
#[derive(Debug, PartialEq, Eq)]
pub enum Command {
    /// Start the node.
    Start,
    /// Stop the node.
    Stop,
    /// Restart the node.
    Restart,
    /// Show the event log.
    Traffic,
    /// Show the node's status.
    Status,
    /// Discover peers, on the given ports if a range is given.
    Discover(Option<(u16, u16)>),
    /// `/discover` with an argument that is no port range.
    DiscoverUsage,
    /// Show the connected peers.
    Connected,
    /// Disconnect from the peer the argument names, by identifier or by
    /// address; the argument is not empty.
    Disconnect(String),
    /// `/disconnect` without an argument.
    DisconnectUsage,
    /// Connect to the address, written as a multiaddress.
    Connect(String),
    /// `/connect` without an argument.
    ConnectUsage,
    /// `/connect` with an argument that is no address.
    ConnectInvalid,
    /// List the commands.
    Help,
    /// Leave the dashboard.
    Quit,
    /// An empty line.
    Nothing,
    /// A name that is no command.
    Unknown(String),
}

impl View for Command {
    type V = CommandView;

    open spec fn view(&self) -> CommandView {
        match self {
            Command::Start => CommandView::Start,
            Command::Stop => CommandView::Stop,
            Command::Restart => CommandView::Restart,
            Command::Traffic => CommandView::Traffic,
            Command::Status => CommandView::Status,
            Command::Discover(range) => CommandView::Discover(*range),
            Command::DiscoverUsage => CommandView::DiscoverUsage,
            Command::Connected => CommandView::Connected,
            Command::Disconnect(arg) => CommandView::Disconnect(arg@),
            Command::DisconnectUsage => CommandView::DisconnectUsage,
            Command::Connect(addr) => CommandView::Connect(addr@),
            Command::ConnectUsage => CommandView::ConnectUsage,
            Command::ConnectInvalid => CommandView::ConnectInvalid,
            Command::Help => CommandView::Help,
            Command::Quit => CommandView::Quit,
            Command::Nothing => CommandView::Nothing,
            Command::Unknown(name) => CommandView::Unknown(name@),
        }
    }
}

/// The port range that `s` writes as `start-end`: two port numbers, white
/// space around them allowed, the first not above the second.
pub open spec fn port_range_of(s: Seq<char>) -> Option<(u16, u16)> {
    match split_first(s, '-') {
        Some((start, end)) => match (decimal_u16(trimmed(start)), decimal_u16(trimmed(end))) {
            (Some(a), Some(b)) => if a <= b {
                Some((a, b))
            } else {
                None
            },
            _ => None,
        },
        None => None,
    }
}

/// The multiaddress for `s` written as `ip:port`: the part after the last
/// colon must be a port number.
pub open spec fn ip_port_address(s: Seq<char>) -> Option<Seq<char>> {
    match split_last(s, ':') {
        Some((ip, port)) => if decimal_u16(port) is Some {
            Some("/ip4/"@ + ip + "/tcp/"@ + port)
        } else {
            None
        },
        None => None,
    }
}

/// The name of the command on the line: the text up to the first space.
pub open spec fn command_name(raw: Seq<char>) -> Seq<char> {
    match split_first(raw, ' ') {
        Some((name, _)) => name,
        None => raw,
    }
}

/// The argument of the command on the line: the text after the first space,
/// without the white space around it.
pub open spec fn command_arg(raw: Seq<char>) -> Seq<char> {
    match split_first(raw, ' ') {
        Some((_, rest)) => trimmed(rest),
        None => Seq::empty(),
    }
}

/// What `/discover` asks for with the argument `arg`.
pub open spec fn discover_of(arg: Seq<char>) -> CommandView {
    if arg.len() == 0 {
        CommandView::Discover(None)
    } else {
        match port_range_of(arg) {
            Some(range) => CommandView::Discover(Some(range)),
            None => CommandView::DiscoverUsage,
        }
    }
}

/// What `/connect` asks for with the argument `arg`: a multiaddress is
/// taken as it stands, anything else must be `ip:port`.
pub open spec fn connect_of(arg: Seq<char>) -> CommandView {
    if arg.len() == 0 {
        CommandView::ConnectUsage
    } else if arg[0] == '/' {
        CommandView::Connect(arg)
    } else {
        match ip_port_address(arg) {
            Some(addr) => CommandView::Connect(addr),
            None => CommandView::ConnectInvalid,
        }
    }
}

/// What the line `raw` asks for.
pub open spec fn command_of(raw: Seq<char>) -> CommandView {
    let name = command_name(raw);
    let arg = command_arg(raw);
    if name == "/start"@ {
        CommandView::Start
    } else if name == "/stop"@ {
        CommandView::Stop
    } else if name == "/restart"@ {
        CommandView::Restart
    } else if name == "/traffic"@ {
        CommandView::Traffic
    } else if name == "/status"@ {
        CommandView::Status
    } else if name == "/discover"@ {
        discover_of(arg)
    } else if name == "/connected"@ {
        CommandView::Connected
    } else if name == "/disconnect"@ {
        if arg.len() == 0 {
            CommandView::DisconnectUsage
        } else {
            CommandView::Disconnect(arg)
        }
    } else if name == "/connect"@ {
        connect_of(arg)
    } else if name == "/help"@ {
        CommandView::Help
    } else if name == "/quit"@ || name == "/exit"@ {
        CommandView::Quit
    } else if name == ""@ {
        CommandView::Nothing
    } else {
        CommandView::Unknown(name)
    }
}

/// Reads a port range written as `start-end`.
pub fn parse_port_range(s: &str) -> (r: Option<(u16, u16)>)
    ensures
        r == port_range_of(s@),
{
    let (start, end) = match split_at_first(s, '-') {
        Some(parts) => parts,
        None => { return None; },
    };
    let start = match parse_u16(trim(start)) {
        Some(port) => port,
        None => { return None; },
    };
    let end = match parse_u16(trim(end)) {
        Some(port) => port,
        None => { return None; },
    };
    if start <= end {
        Some((start, end))
    } else {
        None
    }
}

/// Turns `ip:port` into the multiaddress `/ip4/<ip>/tcp/<port>`.
pub fn parse_ip_port(s: &str) -> (r: Option<String>)
    ensures
        match ip_port_address(s@) {
            Some(addr) => r matches Some(got) && got@ == addr,
            None => r is None,
        },
{
    let (ip, port) = match split_at_last(s, ':') {
        Some(parts) => parts,
        None => { return None; },
    };
    if parse_u16(port).is_none() {
        return None;
    }
    Some(String::from_str("/ip4/").concat(ip).concat("/tcp/").concat(port))
}

/// The address that the argument of `/disconnect` names when it is no peer
/// identifier: `ip:port` as a multiaddress, or a multiaddress as it stands.
pub open spec fn address_of_arg(arg: Seq<char>) -> Option<Seq<char>> {
    match ip_port_address(arg) {
        Some(addr) => Some(addr),
        None => if arg.len() > 0 && arg[0] == '/' {
            Some(arg)
        } else {
            None
        },
    }
}

/// Reads the argument of `/disconnect` as an address.
pub fn address_of(arg: &str) -> (r: Option<String>)
    ensures
        match address_of_arg(arg@) {
            Some(addr) => r matches Some(got) && got@ == addr,
            None => r is None,
        },
{
    match parse_ip_port(arg) {
        Some(addr) => Some(addr),
        None => {
            if arg.unicode_len() > 0 && arg.get_char(0) == '/' {
                Some(arg.to_owned())
            } else {
                None
            }
        },
    }
}

/// Reads a line of input.
pub fn parse_command(raw: &str) -> (cmd: Command)
    ensures
        cmd@ == command_of(raw@),
{
    let (name, arg) = match split_at_first(raw, ' ') {
        Some((name, rest)) => (name, trim(rest)),
        None => (raw, ""),
    };
    assert(name@ == command_name(raw@));
    assert(arg@ == command_arg(raw@)) by {
        if split_first(raw@, ' ') is None {
            reveal_strlit("");
            assert(""@ =~= Seq::<char>::empty());
        }
    }
    if text_eq(name, "/start") {
        Command::Start
    } else if text_eq(name, "/stop") {
        Command::Stop
    } else if text_eq(name, "/restart") {
        Command::Restart
    } else if text_eq(name, "/traffic") {
        Command::Traffic
    } else if text_eq(name, "/status") {
        Command::Status
    } else if text_eq(name, "/discover") {
        if arg.unicode_len() == 0 {
            Command::Discover(None)
        } else {
            match parse_port_range(arg) {
                Some(range) => Command::Discover(Some(range)),
                None => Command::DiscoverUsage,
            }
        }
    } else if text_eq(name, "/connected") {
        Command::Connected
    } else if text_eq(name, "/disconnect") {
        if arg.unicode_len() == 0 {
            Command::DisconnectUsage
        } else {
            Command::Disconnect(arg.to_owned())
        }
    } else if text_eq(name, "/connect") {
        if arg.unicode_len() == 0 {
            Command::ConnectUsage
        } else if arg.get_char(0) == '/' {
            Command::Connect(arg.to_owned())
        } else {
            match parse_ip_port(arg) {
                Some(addr) => Command::Connect(addr),
                None => Command::ConnectInvalid,
            }
        }
    } else if text_eq(name, "/help") {
        Command::Help
    } else if text_eq(name, "/quit") || text_eq(name, "/exit") {
        Command::Quit
    } else if text_eq(name, "") {
        Command::Nothing
    } else {
        Command::Unknown(name.to_owned())
    }
}

/// True iff one of `addrs` is `addr` or the multiaddress `alt`.
pub open spec fn holds_addr(addrs: Seq<Seq<char>>, addr: Seq<char>, alt: Option<Seq<char>>)
    -> bool {
    exists|i: int| 0 <= i < addrs.len() && (#[trigger] addrs[i] == addr || alt == Some(addrs[i]))
}

/// True iff entry `at` is the first of `peers` with the address `addr`,
/// written as it stands or as `ip:port`.
pub open spec fn is_first_peer_at(
    peers: Seq<(Seq<char>, Seq<Seq<char>>)>,
    addr: Seq<char>,
    at: int,
) -> bool {
    &&& 0 <= at < peers.len()
    &&& holds_addr(peers[at].1, addr, ip_port_address(addr))
    &&& forall|j: int|
        0 <= j < at ==> !holds_addr((#[trigger] peers[j]).1, addr, ip_port_address(addr))
}

/// Looks through the connected peers for the first one that has the address
/// `addr_str`, given as a multiaddress or as `ip:port`, and returns its
/// identifier.
pub fn find_peer_by_addr(connected_peers: &Vec<(String, Vec<String>)>, addr_str: &str) -> (r:
    Option<String>)
    ensures
        match r {
            Some(peer) => exists|at: int|
                is_first_peer_at(connected_peers.deep_view(), addr_str@, at) && peer@
                    == connected_peers.deep_view()[at].0,
            None => forall|j: int|
                0 <= j < connected_peers@.len() ==> !holds_addr(
                    (#[trigger] connected_peers.deep_view()[j]).1,
                    addr_str@,
                    ip_port_address(addr_str@),
                ),
        },
{
    let alt = parse_ip_port(addr_str);
    let wanted = addr_str.to_owned();
    let ghost peers = connected_peers.deep_view();
    let ghost alt_view = ip_port_address(addr_str@);
    let mut i: usize = 0;
    while i < connected_peers.len()
        invariant
            i <= connected_peers@.len(),
            peers == connected_peers.deep_view(),
            wanted@ == addr_str@,
            alt_view == ip_port_address(addr_str@),
            match alt_view {
                Some(addr) => alt matches Some(got) && got@ == addr,
                None => alt is None,
            },
            forall|j: int| 0 <= j < i ==> !holds_addr((#[trigger] peers[j]).1, addr_str@, alt_view),
        decreases connected_peers@.len() - i,
    {
        let addrs = &connected_peers[i].1;
        let ghost list = addrs.deep_view();
        assert(list == peers[i as int].1);
        let mut matched = false;
        let mut k: usize = 0;
        while k < addrs.len() && !matched
            invariant
                k <= addrs@.len(),
                list == addrs.deep_view(),
                wanted@ == addr_str@,
                match alt_view {
                    Some(addr) => alt matches Some(got) && got@ == addr,
                    None => alt is None,
                },
                matched ==> holds_addr(list, addr_str@, alt_view),
                !matched ==> forall|n: int|
                    0 <= n < k ==> !(#[trigger] list[n] == addr_str@ || alt_view == Some(list[n])),
            decreases addrs@.len() - k + if matched { 0int } else { 1int },
        {
            let same = addrs[k] == wanted;
            let same_alt = match &alt {
                Some(other) => addrs[k] == *other,
                None => false,
            };
            if same || same_alt {
                assert(list[k as int] == addr_str@ || alt_view == Some(list[k as int]));
                matched = true;
            } else {
                k += 1;
            }
        }
        if matched {
            assert(is_first_peer_at(peers, addr_str@, i as int));
            return Some(connected_peers[i].0.clone());
        }
        i += 1;
    }
    None
}

} // verus!
