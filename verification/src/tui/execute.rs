//! Running a command of the operator on the dashboard: what it changes on
//! the screen, what it logs, and what it leaves for the controller.

use crate::tui::app::{App, AppView, ContentView, NodeState, NodeStatusView, TrafficEntryView};
use crate::tui::command::{Command, CommandView};
use crate::tui::controller::{ControlCommand, ControlCommandView};
use vstd::prelude::*;
use vstd::string::*;

verus! {

/// The character of the decimal digit `d`.
pub open spec fn digit_char(d: nat) -> char {
    (('0' as u8) + d) as char
}

/// The decimal digits of `n`, without leading zeros.
pub open spec fn decimal(n: nat) -> Seq<char>
    decreases n,
{
    if n < 10 {
        seq![digit_char(n)]
    } else {
        decimal(n / 10).push(digit_char(n % 10))
    }
}

/// The text of one decimal digit.
fn digit_text(d: u16) -> (text: &'static str)
    requires
        d < 10,
    ensures
        text@ == seq![digit_char(d as nat)],
{
    proof {
        reveal_strlit("0");
        reveal_strlit("1");
        reveal_strlit("2");
        reveal_strlit("3");
        reveal_strlit("4");
        reveal_strlit("5");
        reveal_strlit("6");
        reveal_strlit("7");
        reveal_strlit("8");
        reveal_strlit("9");
    }
    let text = match d {
        0 => "0",
        1 => "1",
        2 => "2",
        3 => "3",
        4 => "4",
        5 => "5",
        6 => "6",
        7 => "7",
        8 => "8",
        _ => "9",
    };
    assert(text@ =~= seq![digit_char(d as nat)]);
    text
}

/// Writes a port number in decimal.
pub fn decimal_text(n: u16) -> (text: String)
    ensures
        text@ == decimal(n as nat),
{
    let mut text = String::from_str(digit_text(n % 10));
    let mut rest = n / 10;
    while rest > 0
        invariant
            rest > 0 ==> decimal(n as nat) == decimal(rest as nat) + text@,
            rest == 0 ==> decimal(n as nat) == text@,
        decreases rest,
    {
        let digit = digit_text(rest % 10);
        let ghost before = text@;
        text = String::from_str(digit).concat(text.as_str());
        proof {
            if rest >= 10 {
                assert(decimal(rest as nat) == decimal((rest / 10) as nat).push(
                    digit_char((rest % 10) as nat),
                ));
                assert(decimal((rest / 10) as nat).push(digit_char((rest % 10) as nat)) + before
                    =~= decimal((rest / 10) as nat) + text@);
            } else {
                assert(decimal(rest as nat) + before =~= text@);
            }
        }
        rest = rest / 10;
    }
    text
}

/// The mathematical content of a [`Dispatch`].
pub enum DispatchView {
    Nothing,
    Send(ControlCommandView),
    Connect(Seq<char>),
    Disconnect(Seq<char>),
}

/// What a command leaves to be done once it has run on the dashboard.
#[derive(Debug, PartialEq, Eq)]
pub enum Dispatch {
    /// Nothing more.
    Nothing,
    /// Send the command to the controller.
    Send(ControlCommand),
    /// Connect to the address if it is one the network understands.
    Connect(String),
    /// Disconnect from the peer the argument names, once it is resolved to
    /// a peer identifier.
    Disconnect(String),
}

impl View for Dispatch {
    type V = DispatchView;

    open spec fn view(&self) -> DispatchView {
        match self {
            Dispatch::Nothing => DispatchView::Nothing,
            Dispatch::Send(cmd) => DispatchView::Send(cmd@),
            Dispatch::Connect(addr) => DispatchView::Connect(addr@),
            Dispatch::Disconnect(arg) => DispatchView::Disconnect(arg@),
        }
    }
}

/// What running a command comes to: the dashboard's state before the log
/// lines are added, the log lines, and what is left to be done.
pub struct Plan {
    pub state: AppView,
    pub log: Seq<Seq<char>>,
    pub dispatch: DispatchView,
}

/// The log line of a discovery scan.
pub open spec fn discover_line(range: Option<(u16, u16)>) -> Seq<char> {
    match range {
        None => "Discovering peers on node port…"@,
        Some((start, end)) => "Discovering peers on ports "@ + decimal(start as nat) + "–"@
            + decimal(end as nat) + "…"@,
    }
}

/// The lines `/help` logs.
pub open spec fn help_lines() -> Seq<Seq<char>> {
    seq![
        "─── available commands ─────────────────────────────────────"@,
        "/start                       start the node"@,
        "/stop                        stop the node"@,
        "/restart                     restart the node"@,
        "/traffic                     see the node's traffic"@,
        "/status                      see the node's status"@,
        "/discover [start-end]        discover peers (internet-wide Kademlia scan)"@,
        "/connected                   see nodes currently connected"@,
        "/connect <ip>:<port>         connect to a node"@,
        "/disconnect <node id>        disconnect from a node by peer-id"@,
        "/disconnect <ip>:<port>      disconnect from a node by address"@,
        "/help                        show this help"@,
        "/quit                        quit spn"@,
        "keys: ↑/↓ history · PgUp/PgDn scroll · Ctrl-C quit"@,
        "────────────────────────────────────────────────────────────"@,
    ]
}

impl AppView {
    /// The state with `text` as feedback and nothing else to do.
    pub open spec fn refused(self, text: Seq<char>) -> Plan {
        Plan {
            state: AppView { command_output: Some(text), ..self },
            log: Seq::empty(),
            dispatch: DispatchView::Nothing,
        }
    }

    /// What running `cmd` comes to.
    pub open spec fn plan(self, cmd: CommandView) -> Plan {
        match cmd {
            CommandView::Start => if self.node_state == NodeState::Stopped {
                Plan {
                    state: AppView { node_state: NodeState::Starting, ..self },
                    log: seq!["Starting node…"@],
                    dispatch: DispatchView::Send(ControlCommandView::Start),
                }
            } else {
                self.refused("Node is already running. Use /stop or /restart."@)
            },
            CommandView::Stop => if self.node_state == NodeState::Running {
                Plan {
                    state: self,
                    log: seq!["Stopping node…"@],
                    dispatch: DispatchView::Send(ControlCommandView::Stop),
                }
            } else {
                self.refused("Node is not running."@)
            },
            CommandView::Restart => Plan {
                state: AppView { node_state: NodeState::Restarting, ..self },
                log: seq!["Restarting node…"@],
                dispatch: DispatchView::Send(ControlCommandView::Restart),
            },
            CommandView::Traffic => Plan {
                state: AppView { view: ContentView::Traffic, ..self },
                log: Seq::empty(),
                dispatch: DispatchView::Nothing,
            },
            CommandView::Status => Plan {
                state: AppView {
                    view: ContentView::Status,
                    status: NodeStatusView {
                        peers_connected: self.connected_peers.len() as usize,
                        peers_discovered: self.discovered_peers.len() as usize,
                        ..self.status
                    },
                    ..self
                },
                log: Seq::empty(),
                dispatch: DispatchView::Nothing,
            },
            CommandView::Discover(range) => Plan {
                state: AppView { view: ContentView::Discovered, ..self },
                log: seq![discover_line(range)],
                dispatch: DispatchView::Send(ControlCommandView::Discover(range)),
            },
            CommandView::DiscoverUsage => self.refused(
                "Usage: /discover [<start port>-<end port>]"@,
            ),
            CommandView::Connected => Plan {
                state: AppView { view: ContentView::Connected, ..self },
                log: seq!["Switched to connected peers view"@],
                dispatch: DispatchView::Nothing,
            },
            CommandView::Disconnect(arg) => Plan {
                state: self,
                log: Seq::empty(),
                dispatch: DispatchView::Disconnect(arg),
            },
            CommandView::DisconnectUsage => self.refused(
                "Usage: /disconnect <node-id>  or  /disconnect <ip>:<port>"@,
            ),
            CommandView::Connect(addr) => Plan {
                state: self,
                log: Seq::empty(),
                dispatch: DispatchView::Connect(addr),
            },
            CommandView::ConnectUsage => self.refused("Usage: /connect <ip>:<port>"@),
            CommandView::ConnectInvalid => self.refused(
                "Invalid address. Use ip:port or /ip4/x.x.x.x/tcp/port"@,
            ),
            CommandView::Help => Plan {
                state: AppView { view: ContentView::Traffic, ..self },
                log: help_lines(),
                dispatch: DispatchView::Nothing,
            },
            CommandView::Quit => Plan {
                state: AppView { should_quit: true, ..self },
                log: Seq::empty(),
                dispatch: if self.node_state == NodeState::Running {
                    DispatchView::Send(ControlCommandView::Stop)
                } else {
                    DispatchView::Nothing
                },
            },
            CommandView::Nothing => Plan {
                state: self,
                log: Seq::empty(),
                dispatch: DispatchView::Nothing,
            },
            CommandView::Unknown(name) => self.refused(
                "Unknown command: "@ + name + "  (try /help)"@,
            ),
        }
    }

    /// The state after `messages` were logged, one after the other, at the
    /// times `stamps`.
    pub open spec fn logged(self, messages: Seq<Seq<char>>, stamps: Seq<Seq<char>>) -> AppView
        decreases messages.len(),
    {
        if messages.len() == 0 {
            self
        } else {
            self.logged(messages.drop_last(), stamps.drop_last()).after_push_traffic(
                TrafficEntryView { timestamp: stamps.last(), message: messages.last() },
            )
        }
    }
}

impl App {
    /// Logs the lines, each with the time of day at which it is logged.
    pub fn push_traffic_lines(&mut self, lines: Vec<String>)
        ensures
            exists|stamps: Seq<Seq<char>>|
                stamps.len() == lines@.len() && final(self)@ == #[trigger] old(self)@.logged(
                    lines.deep_view(),
                    stamps,
                ),
    {
        let ghost all = lines.deep_view();
        let ghost mut stamps: Seq<Seq<char>> = Seq::empty();
        let mut i: usize = 0;
        assert(all.take(0) =~= Seq::<Seq<char>>::empty());
        while i < lines.len()
            invariant
                i <= lines@.len(),
                all == lines.deep_view(),
                stamps.len() == i,
                self@ == old(self)@.logged(all.take(i as int), stamps),
            decreases lines@.len() - i,
        {
            let ghost before = self@;
            self.push_traffic(lines[i].clone());
            proof {
                let stamp = self@.traffic.last().timestamp;
                let longer = stamps.push(stamp);
                assert(all.take(i + 1).drop_last() =~= all.take(i as int));
                assert(longer.drop_last() =~= stamps);
                assert(self@.traffic.last() == (TrafficEntryView {
                    timestamp: stamp,
                    message: all[i as int],
                }));
                stamps = longer;
            }
            i += 1;
        }
        assert(all.take(i as int) =~= all);
    }

    /// Runs a command on the dashboard: changes the state as the command
    /// asks, logs its lines, and returns what is left to be done. Connecting
    /// and disconnecting are left to the caller, who knows which addresses
    /// and peer identifiers the network understands.
    pub fn execute(&mut self, cmd: Command) -> (dispatch: Dispatch)
        ensures
            dispatch@ == old(self)@.plan(cmd@).dispatch,
            exists|stamps: Seq<Seq<char>>|
                stamps.len() == old(self)@.plan(cmd@).log.len() && final(self)@
                    == #[trigger] old(self)@.plan(cmd@).state.logged(
                    old(self)@.plan(cmd@).log,
                    stamps,
                ),
    {
        let mut lines: Vec<String> = Vec::new();
        let ghost plan = self@.plan(cmd@);
        assert(lines.deep_view() =~= Seq::<Seq<char>>::empty());
        let dispatch = match cmd {
            Command::Start => {
                if self.node_state == NodeState::Stopped {
                    self.node_state = NodeState::Starting;
                    lines.push(String::from_str("Starting node…"));
                    Dispatch::Send(ControlCommand::Start)
                } else {
                    self.set_output(
                        String::from_str("Node is already running. Use /stop or /restart."),
                    );
                    Dispatch::Nothing
                }
            },
            Command::Stop => {
                if self.node_state == NodeState::Running {
                    lines.push(String::from_str("Stopping node…"));
                    Dispatch::Send(ControlCommand::Stop)
                } else {
                    self.set_output(String::from_str("Node is not running."));
                    Dispatch::Nothing
                }
            },
            Command::Restart => {
                self.node_state = NodeState::Restarting;
                lines.push(String::from_str("Restarting node…"));
                Dispatch::Send(ControlCommand::Restart)
            },
            Command::Traffic => {
                self.view = ContentView::Traffic;
                Dispatch::Nothing
            },
            Command::Status => {
                self.view = ContentView::Status;
                self.status.peers_connected = self.connected_peers.len();
                self.status.peers_discovered = self.discovered_peers.len();
                Dispatch::Nothing
            },
            Command::Discover(range) => {
                let line = match range {
                    None => String::from_str("Discovering peers on node port…"),
                    Some((start, end)) => String::from_str("Discovering peers on ports ").concat(
                        decimal_text(start).as_str(),
                    ).concat("–").concat(decimal_text(end).as_str()).concat("…"),
                };
                lines.push(line);
                self.view = ContentView::Discovered;
                Dispatch::Send(ControlCommand::Discover(range))
            },
            Command::DiscoverUsage => {
                self.set_output(String::from_str("Usage: /discover [<start port>-<end port>]"));
                Dispatch::Nothing
            },
            Command::Connected => {
                self.view = ContentView::Connected;
                lines.push(String::from_str("Switched to connected peers view"));
                Dispatch::Nothing
            },
            Command::Disconnect(arg) => Dispatch::Disconnect(arg),
            Command::DisconnectUsage => {
                self.set_output(
                    String::from_str("Usage: /disconnect <node-id>  or  /disconnect <ip>:<port>"),
                );
                Dispatch::Nothing
            },
            Command::Connect(addr) => Dispatch::Connect(addr),
            Command::ConnectUsage => {
                self.set_output(String::from_str("Usage: /connect <ip>:<port>"));
                Dispatch::Nothing
            },
            Command::ConnectInvalid => {
                self.set_output(
                    String::from_str("Invalid address. Use ip:port or /ip4/x.x.x.x/tcp/port"),
                );
                Dispatch::Nothing
            },
            Command::Help => {
                self.view = ContentView::Traffic;
                lines.push(
                    String::from_str(
                        "─── available commands ─────────────────────────────────────",
                    ),
                );
                lines.push(String::from_str("/start                       start the node"));
                lines.push(String::from_str("/stop                        stop the node"));
                lines.push(String::from_str("/restart                     restart the node"));
                lines.push(
                    String::from_str("/traffic                     see the node's traffic"),
                );
                lines.push(String::from_str("/status                      see the node's status"));
                lines.push(
                    String::from_str(
                        "/discover [start-end]        discover peers (internet-wide Kademlia scan)",
                    ),
                );
                lines.push(
                    String::from_str("/connected                   see nodes currently connected"),
                );
                lines.push(String::from_str("/connect <ip>:<port>         connect to a node"));
                lines.push(
                    String::from_str(
                        "/disconnect <node id>        disconnect from a node by peer-id",
                    ),
                );
                lines.push(
                    String::from_str(
                        "/disconnect <ip>:<port>      disconnect from a node by address",
                    ),
                );
                lines.push(String::from_str("/help                        show this help"));
                lines.push(String::from_str("/quit                        quit spn"));
                lines.push(
                    String::from_str("keys: ↑/↓ history · PgUp/PgDn scroll · Ctrl-C quit"),
                );
                lines.push(
                    String::from_str(
                        "────────────────────────────────────────────────────────────",
                    ),
                );
                Dispatch::Nothing
            },
            Command::Quit => {
                let dispatch = if self.node_state == NodeState::Running {
                    Dispatch::Send(ControlCommand::Stop)
                } else {
                    Dispatch::Nothing
                };
                self.should_quit = true;
                dispatch
            },
            Command::Nothing => Dispatch::Nothing,
            Command::Unknown(name) => {
                self.set_output(
                    String::from_str("Unknown command: ").concat(name.as_str()).concat(
                        "  (try /help)",
                    ),
                );
                Dispatch::Nothing
            },
        };
        assert(lines.deep_view() =~= plan.log);
        assert(self@ == plan.state);
        self.push_traffic_lines(lines);
        dispatch
    }
}

} // verus!
