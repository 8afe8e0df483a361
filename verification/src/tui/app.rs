//! The dashboard's state and the operations the operator's keys map to.

use crate::ambient::local_time_text;
use std::collections::VecDeque;
use vstd::prelude::*;

verus! {

/// Largest number of traffic entries kept.
pub const MAX_TRAFFIC: usize = 500;

/// Largest number of commands kept in the history.
pub const MAX_HISTORY: usize = 200;

/// Where the node is in its life cycle.
#[derive(Debug, Clone, Copy, PartialEq, Eq, Structural)]
pub enum NodeState {
    Stopped,
    Starting,
    Running,
    Restarting,
}

impl NodeState {
    /// The label shown in the header.
    pub open spec fn label_spec(self) -> Seq<char> {
        match self {
            NodeState::Stopped => "stopped"@,
            NodeState::Starting => "starting…"@,
            NodeState::Running => "running"@,
            NodeState::Restarting => "restarting…"@,
        }
    }

    /// The label shown in the header.
    pub fn label(&self) -> (text: &str)
        ensures
            text@ == self.label_spec(),
    {
        match self {
            NodeState::Stopped => "stopped",
            NodeState::Starting => "starting…",
            NodeState::Running => "running",
            NodeState::Restarting => "restarting…",
        }
    }
}

/// Which panel the content area shows.
#[derive(Debug, Clone, Copy, PartialEq, Eq, Structural)]
pub enum ContentView {
    /// The live event log.
    Traffic,
    /// The node's status, key by key.
    Status,
    /// Peers discovered but not connected.
    Discovered,
    /// Peers connected now.
    Connected,
}

/// The mathematical content of a [`TrafficEntry`].
pub struct TrafficEntryView {
    pub timestamp: Seq<char>,
    pub message: Seq<char>,
}

/// One line of the event log, with the time it was logged at.
#[derive(Debug, Clone)]
pub struct TrafficEntry {
    pub timestamp: String,
    pub message: String,
}

impl View for TrafficEntry {
    type V = TrafficEntryView;

    open spec fn view(&self) -> TrafficEntryView {
        TrafficEntryView { timestamp: self.timestamp@, message: self.message@ }
    }
}

impl DeepView for TrafficEntry {
    type V = TrafficEntryView;

    open spec fn deep_view(&self) -> TrafficEntryView {
        self@
    }
}

/// The mathematical content of a [`NodeStatus`].
pub struct NodeStatusView {
    pub peer_id: Seq<char>,
    pub listen_addr: Seq<char>,
    pub peers_connected: usize,
    pub peers_discovered: usize,
    pub chain_length: usize,
    pub pending_txs: usize,
    pub mode: Seq<char>,
    pub sync_strategy: Seq<char>,
    pub discovery_mode: Seq<char>,
    pub port: u16,
}

/// The node's figures as the status panel shows them.
#[derive(Debug, Clone)]
pub struct NodeStatus {
    pub peer_id: String,
    pub listen_addr: String,
    pub peers_connected: usize,
    pub peers_discovered: usize,
    pub chain_length: usize,
    pub pending_txs: usize,
    pub mode: String,
    pub sync_strategy: String,
    pub discovery_mode: String,
    pub port: u16,
}

impl View for NodeStatus {
    type V = NodeStatusView;

    open spec fn view(&self) -> NodeStatusView {
        NodeStatusView {
            peer_id: self.peer_id@,
            listen_addr: self.listen_addr@,
            peers_connected: self.peers_connected,
            peers_discovered: self.peers_discovered,
            chain_length: self.chain_length,
            pending_txs: self.pending_txs,
            mode: self.mode@,
            sync_strategy: self.sync_strategy@,
            discovery_mode: self.discovery_mode@,
            port: self.port,
        }
    }
}

impl Default for NodeStatus {
    fn default() -> (status: Self)
        ensures
            status@ == (NodeStatusView {
                peer_id: Seq::empty(),
                listen_addr: Seq::empty(),
                peers_connected: 0,
                peers_discovered: 0,
                chain_length: 0,
                pending_txs: 0,
                mode: Seq::empty(),
                sync_strategy: Seq::empty(),
                discovery_mode: Seq::empty(),
                port: 0,
            }),
    {
        NodeStatus {
            peer_id: String::new(),
            listen_addr: String::new(),
            peers_connected: 0,
            peers_discovered: 0,
            chain_length: 0,
            pending_txs: 0,
            mode: String::new(),
            sync_strategy: String::new(),
            discovery_mode: String::new(),
            port: 0,
        }
    }
}

/// The mathematical content of an [`App`].
pub struct AppView {
    pub node_state: NodeState,
    pub status: NodeStatusView,
    pub traffic: Seq<TrafficEntryView>,
    pub traffic_scroll: usize,
    pub view: ContentView,
    pub input: Seq<char>,
    pub command_history: Seq<Seq<char>>,
    pub history_cursor: Option<usize>,
    pub input_snapshot: Seq<char>,
    pub command_output: Option<Seq<char>>,
    pub discovered_peers: Seq<(Seq<char>, Seq<Seq<char>>)>,
    pub connected_peers: Seq<(Seq<char>, Seq<Seq<char>>)>,
    pub should_quit: bool,
}

/// `log` with `entry` appended, cut at the front to at most `max` entries.
pub open spec fn appended_capped<T>(log: Seq<T>, entry: T, max: nat) -> Seq<T> {
    if log.len() + 1 > max {
        log.push(entry).drop_first()
    } else {
        log.push(entry)
    }
}

/// `n - 1`, or zero for zero.
pub open spec fn pred_or_zero(n: nat) -> nat {
    if n == 0 {
        0
    } else {
        (n - 1) as nat
    }
}

impl AppView {
    /// The state of a dashboard just started.
    pub open spec fn initial() -> AppView {
        AppView {
            node_state: NodeState::Stopped,
            status: NodeStatusView {
                peer_id: Seq::empty(),
                listen_addr: Seq::empty(),
                peers_connected: 0,
                peers_discovered: 0,
                chain_length: 0,
                pending_txs: 0,
                mode: "Full"@,
                sync_strategy: "OnDemand"@,
                discovery_mode: "KademliaDht"@,
                port: 51025,
            },
            traffic: Seq::empty(),
            traffic_scroll: 0,
            view: ContentView::Traffic,
            input: Seq::empty(),
            command_history: Seq::empty(),
            history_cursor: None,
            input_snapshot: Seq::empty(),
            command_output: None,
            discovered_peers: Seq::empty(),
            connected_peers: Seq::empty(),
            should_quit: false,
        }
    }

    /// After a command was recorded: it is the newest of the history, which
    /// keeps at most [`MAX_HISTORY`] commands.
    pub open spec fn after_push_history(self, cmd: Seq<char>) -> AppView {
        AppView {
            command_history: appended_capped(self.command_history, cmd, MAX_HISTORY as nat),
            ..self
        }
    }

    /// The history entry at `at` as input, or the input unchanged where the
    /// history has no such entry.
    pub open spec fn recalled(self, at: int) -> Seq<char> {
        if 0 <= at < self.command_history.len() {
            self.command_history[at]
        } else {
            self.input
        }
    }

    /// After a step back in the history. The first step saves the input
    /// being typed and recalls the newest command; further steps recall
    /// older ones; at the oldest nothing changes.
    pub open spec fn after_history_prev(self) -> AppView {
        if self.command_history.len() == 0 {
            self
        } else {
            match self.history_cursor {
                None => AppView {
                    input_snapshot: self.input,
                    history_cursor: Some((self.command_history.len() - 1) as usize),
                    input: self.command_history.last(),
                    ..self
                },
                Some(at) => if at > 0 {
                    AppView {
                        history_cursor: Some((at - 1) as usize),
                        input: self.recalled(at - 1),
                        ..self
                    }
                } else {
                    self
                },
            }
        }
    }

    /// After a step forward in the history. Before the newest command the
    /// next newer one is recalled; at the newest the saved input comes back
    /// and navigation ends.
    pub open spec fn after_history_next(self) -> AppView {
        match self.history_cursor {
            None => self,
            Some(at) => if at < pred_or_zero(self.command_history.len()) {
                AppView {
                    history_cursor: Some((at + 1) as usize),
                    input: self.command_history[at + 1],
                    ..self
                }
            } else {
                AppView { history_cursor: None, input: self.input_snapshot, ..self }
            },
        }
    }

    /// After history navigation was left.
    pub open spec fn after_reset_history_nav(self) -> AppView {
        AppView { history_cursor: None, input_snapshot: Seq::empty(), ..self }
    }

    /// After an entry was logged: it is the newest of the log, which keeps at
    /// most [`MAX_TRAFFIC`] entries, and the log is scrolled to it.
    pub open spec fn after_push_traffic(self, entry: TrafficEntryView) -> AppView {
        let traffic = appended_capped(self.traffic, entry, MAX_TRAFFIC as nat);
        AppView { traffic, traffic_scroll: pred_or_zero(traffic.len()) as usize, ..self }
    }

    /// After the log was scrolled up by one line, if it was not at the top.
    pub open spec fn after_scroll_up(self) -> AppView {
        AppView { traffic_scroll: pred_or_zero(self.traffic_scroll as nat) as usize, ..self }
    }

    /// After the log was scrolled down by one line, if it was not at the
    /// newest entry.
    pub open spec fn after_scroll_down(self) -> AppView {
        if self.traffic_scroll < pred_or_zero(self.traffic.len()) {
            AppView { traffic_scroll: (self.traffic_scroll + 1) as usize, ..self }
        } else {
            self
        }
    }
}

/// One peer as the lists show it: identifier and addresses.
pub type PeerRow = (Seq<char>, Seq<Seq<char>>);

/// True iff `peer` is in the list.
pub open spec fn lists_peer(rows: Seq<PeerRow>, peer: Seq<char>) -> bool {
    exists|i: int| 0 <= i < rows.len() && (#[trigger] rows[i]).0 == peer
}

/// The list without the rows of `peer`.
pub open spec fn without_peer(rows: Seq<PeerRow>, peer: Seq<char>) -> Seq<PeerRow> {
    rows.filter(|row: PeerRow| row.0 != peer)
}

/// `known` with those of `new` appended that it does not hold yet.
pub open spec fn with_new_addrs(known: Seq<Seq<char>>, new: Seq<Seq<char>>) -> Seq<Seq<char>>
    decreases new.len(),
{
    if new.len() == 0 {
        known
    } else if known.contains(new[0]) {
        with_new_addrs(known, new.drop_first())
    } else {
        with_new_addrs(known.push(new[0]), new.drop_first())
    }
}

/// The position of the first row of `peer`; the length of the list if the
/// peer is not in it.
pub open spec fn row_of(rows: Seq<PeerRow>, peer: Seq<char>) -> int
    decreases rows.len(),
{
    if rows.len() == 0 || rows[0].0 == peer {
        0
    } else {
        1 + row_of(rows.drop_first(), peer)
    }
}

/// The discovered peers after addresses of `peer` were found: they are
/// added to the first row of the peer, or a row is appended for it.
pub open spec fn with_discovery(rows: Seq<PeerRow>, peer: Seq<char>, addrs: Seq<Seq<char>>) -> Seq<
    PeerRow,
> {
    let at = row_of(rows, peer);
    if at < rows.len() {
        rows.update(at, (peer, with_new_addrs(rows[at].1, addrs)))
    } else {
        rows.push((peer, addrs))
    }
}

impl AppView {
    /// After the node has started.
    pub open spec fn after_node_started(self, peer_id: Seq<char>, listen_addr: Seq<char>)
        -> AppView {
        AppView {
            node_state: NodeState::Running,
            status: NodeStatusView {
                peer_id,
                listen_addr: if listen_addr.len() > 0 {
                    listen_addr
                } else {
                    self.status.listen_addr
                },
                ..self.status
            },
            ..self
        }
    }

    /// After the node has stopped: no peer is connected any more.
    pub open spec fn after_node_stopped(self) -> AppView {
        AppView {
            node_state: NodeState::Stopped,
            connected_peers: Seq::empty(),
            status: NodeStatusView { peers_connected: 0, ..self.status },
            ..self
        }
    }

    /// After a peer has connected: it leaves the discovered peers and is
    /// listed once among the connected ones.
    pub open spec fn after_peer_connected(self, peer: Seq<char>) -> AppView {
        let discovered = without_peer(self.discovered_peers, peer);
        let connected = if lists_peer(self.connected_peers, peer) {
            self.connected_peers
        } else {
            self.connected_peers.push((peer, Seq::empty()))
        };
        AppView {
            discovered_peers: discovered,
            connected_peers: connected,
            status: NodeStatusView {
                peers_connected: connected.len() as usize,
                peers_discovered: discovered.len() as usize,
                ..self.status
            },
            ..self
        }
    }

    /// After a peer has disconnected: it leaves the connected peers.
    pub open spec fn after_peer_disconnected(self, peer: Seq<char>) -> AppView {
        let connected = without_peer(self.connected_peers, peer);
        AppView {
            connected_peers: connected,
            status: NodeStatusView { peers_connected: connected.len() as usize, ..self.status },
            ..self
        }
    }

    /// After addresses of a peer were discovered: a peer that is not
    /// connected is listed among the discovered ones with the addresses.
    pub open spec fn after_peer_discovered(self, peer: Seq<char>, addrs: Seq<Seq<char>>)
        -> AppView {
        let discovered = if lists_peer(self.connected_peers, peer) {
            self.discovered_peers
        } else {
            with_discovery(self.discovered_peers, peer, addrs)
        };
        AppView {
            discovered_peers: discovered,
            status: NodeStatusView { peers_discovered: discovered.len() as usize, ..self.status },
            ..self
        }
    }
}

/// The row of a peer is within the list or at its end, holds the peer if it
/// is within, and no earlier row holds the peer.
pub proof fn lemma_row_of(rows: Seq<PeerRow>, peer: Seq<char>)
    ensures
        0 <= row_of(rows, peer) <= rows.len(),
        row_of(rows, peer) < rows.len() ==> rows[row_of(rows, peer)].0 == peer,
        forall|j: int| 0 <= j < row_of(rows, peer) ==> (#[trigger] rows[j]).0 != peer,
        row_of(rows, peer) < rows.len() <==> lists_peer(rows, peer),
    decreases rows.len(),
{
    if rows.len() == 0 || rows[0].0 == peer {
        if rows.len() > 0 {
            assert(rows[0].0 == peer);
        }
    } else {
        let rest = rows.drop_first();
        lemma_row_of(rest, peer);
        assert forall|j: int| 0 <= j < row_of(rows, peer) implies (#[trigger] rows[j]).0
            != peer by {
            if j > 0 {
                assert(rest[j - 1] == rows[j]);
                assert(rest[j - 1].0 != peer);
            }
        }
        if lists_peer(rest, peer) {
            let i = choose|i: int| 0 <= i < rest.len() && (#[trigger] rest[i]).0 == peer;
            assert(rows[i + 1].0 == peer);
        }
        if lists_peer(rows, peer) {
            let i = choose|i: int| 0 <= i < rows.len() && (#[trigger] rows[i]).0 == peer;
            assert(rest[i - 1].0 == peer);
        }
    }
}

/// A row that holds the peer and has no earlier row of the peer is the
/// peer's row.
pub proof fn lemma_row_of_is(rows: Seq<PeerRow>, peer: Seq<char>, at: int)
    requires
        0 <= at <= rows.len(),
        at < rows.len() ==> rows[at].0 == peer,
        forall|j: int| 0 <= j < at ==> (#[trigger] rows[j]).0 != peer,
    ensures
        row_of(rows, peer) == at,
{
    lemma_row_of(rows, peer);
    let found = row_of(rows, peer);
    if found < at {
        assert(rows[found].0 != peer);
    }
}

/// Copies a list of texts.
pub fn clone_texts(texts: &Vec<String>) -> (copy: Vec<String>)
    ensures
        copy.deep_view() == texts.deep_view(),
{
    let mut copy: Vec<String> = Vec::new();
    let mut i: usize = 0;
    while i < texts.len()
        invariant
            i <= texts@.len(),
            copy@.len() == i,
            forall|j: int| 0 <= j < i ==> (#[trigger] copy@[j])@ == texts@[j]@,
        decreases texts@.len() - i,
    {
        copy.push(texts[i].clone());
        i += 1;
    }
    assert(copy.deep_view() =~= texts.deep_view());
    copy
}

/// The position of the first row of `peer`, or the length of the list.
pub fn find_row(rows: &Vec<(String, Vec<String>)>, peer: &String) -> (at: usize)
    ensures
        at == row_of(rows.deep_view(), peer@),
        at <= rows@.len(),
{
    let mut i: usize = 0;
    while i < rows.len() && !(rows[i].0 == *peer)
        invariant
            i <= rows@.len(),
            forall|j: int| 0 <= j < i ==> (#[trigger] rows.deep_view()[j]).0 != peer@,
        decreases rows@.len() - i,
    {
        i += 1;
    }
    proof {
        if i < rows@.len() {
            assert(rows.deep_view()[i as int].0 == peer@);
        }
        lemma_row_of_is(rows.deep_view(), peer@, i as int);
    }
    i
}

/// The rows that are not of `peer`, in order.
pub fn rows_without(rows: &Vec<(String, Vec<String>)>, peer: &String) -> (kept: Vec<
    (String, Vec<String>),
>)
    ensures
        kept.deep_view() == without_peer(rows.deep_view(), peer@),
{
    let ghost all = rows.deep_view();
    let ghost other = |row: PeerRow| row.0 != peer@;
    let mut kept: Vec<(String, Vec<String>)> = Vec::new();
    let mut i: usize = 0;
    assert(kept.deep_view() =~= Seq::<PeerRow>::empty());
    assert(all.take(0) =~= Seq::<PeerRow>::empty());
    while i < rows.len()
        invariant
            i <= rows@.len(),
            all == rows.deep_view(),
            other == |row: PeerRow| row.0 != peer@,
            kept.deep_view() == all.take(i as int).filter(other),
        decreases rows@.len() - i,
    {
        let ghost before = kept.deep_view();
        proof {
            assert(all.take(i + 1).drop_last() =~= all.take(i as int));
            assert(all.take(i + 1).last() == all[i as int]);
            reveal(Seq::filter);
        }
        if !(rows[i].0 == *peer) {
            let id = rows[i].0.clone();
            let addrs = clone_texts(&rows[i].1);
            kept.push((id, addrs));
            assert(kept.deep_view() =~= before.push(all[i as int]));
        }
        i += 1;
    }
    assert(all.take(i as int) =~= all);
    kept
}

/// The complete state of the dashboard.
pub struct App {
    pub node_state: NodeState,
    pub status: NodeStatus,
    pub traffic: VecDeque<TrafficEntry>,
    pub traffic_scroll: usize,
    pub view: ContentView,
    /// The text being typed.
    pub input: String,
    /// Commands run in this session, newest last.
    pub command_history: VecDeque<String>,
    /// Position in `command_history` while navigating; `None` while typing.
    pub history_cursor: Option<usize>,
    /// The input as it was when navigation began.
    pub input_snapshot: String,
    /// One line of feedback shown below the input.
    pub command_output: Option<String>,
    /// Peers discovered but not connected: identifier and addresses.
    pub discovered_peers: Vec<(String, Vec<String>)>,
    /// Peers connected now: identifier and addresses.
    pub connected_peers: Vec<(String, Vec<String>)>,
    pub should_quit: bool,
}

impl View for App {
    type V = AppView;

    open spec fn view(&self) -> AppView {
        AppView {
            node_state: self.node_state,
            status: self.status@,
            traffic: self.traffic.deep_view(),
            traffic_scroll: self.traffic_scroll,
            view: self.view,
            input: self.input@,
            command_history: self.command_history.deep_view(),
            history_cursor: self.history_cursor,
            input_snapshot: self.input_snapshot@,
            command_output: self.command_output.deep_view(),
            discovered_peers: self.discovered_peers.deep_view(),
            connected_peers: self.connected_peers.deep_view(),
            should_quit: self.should_quit,
        }
    }
}

impl App {
    /// The state of a dashboard just started: node stopped, nothing logged,
    /// nothing typed.
    pub fn new() -> (app: Self)
        ensures
            app@ == AppView::initial(),
    {
        let app = App {
            node_state: NodeState::Stopped,
            status: NodeStatus {
                peer_id: String::new(),
                listen_addr: String::new(),
                peers_connected: 0,
                peers_discovered: 0,
                chain_length: 0,
                pending_txs: 0,
                mode: String::from_str("Full"),
                sync_strategy: String::from_str("OnDemand"),
                discovery_mode: String::from_str("KademliaDht"),
                port: 51025,
            },
            traffic: VecDeque::new(),
            traffic_scroll: 0,
            view: ContentView::Traffic,
            input: String::new(),
            command_history: VecDeque::new(),
            history_cursor: None,
            input_snapshot: String::new(),
            command_output: None,
            discovered_peers: Vec::new(),
            connected_peers: Vec::new(),
            should_quit: false,
        };
        proof {
            assert(app.traffic.deep_view() =~= Seq::<TrafficEntryView>::empty());
            assert(app.command_history.deep_view() =~= Seq::<Seq<char>>::empty());
            assert(app.discovered_peers.deep_view() =~= Seq::<
                (Seq<char>, Seq<Seq<char>>),
            >::empty());
            assert(app.connected_peers.deep_view() =~= Seq::<
                (Seq<char>, Seq<Seq<char>>),
            >::empty());
        }
        app
    }

    /// Records a command in the history.
    pub fn push_history(&mut self, cmd: String)
        ensures
            final(self)@ == old(self)@.after_push_history(cmd@),
    {
        let ghost before = self.command_history.deep_view();
        self.command_history.push_back(cmd);
        assert(self.command_history.deep_view() =~= before.push(cmd@));
        if self.command_history.len() > MAX_HISTORY {
            let ghost full = self.command_history.deep_view();
            self.command_history.pop_front();
            assert(self.command_history.deep_view() =~= full.drop_first());
        }
    }

    /// Moves back through the history.
    pub fn history_prev(&mut self)
        ensures
            final(self)@ == old(self)@.after_history_prev(),
    {
        if self.command_history.len() == 0 {
            return ;
        }
        let max_idx = self.command_history.len() - 1;
        let target = match self.history_cursor {
            None => {
                self.input_snapshot = self.input.clone();
                max_idx
            },
            Some(at) => {
                if at > 0 {
                    at - 1
                } else {
                    return ;
                }
            },
        };
        self.history_cursor = Some(target);
        if target < self.command_history.len() {
            self.input = self.command_history[target].clone();
        }
    }

    /// Moves forward through the history.
    pub fn history_next(&mut self)
        ensures
            final(self)@ == old(self)@.after_history_next(),
    {
        match self.history_cursor {
            None => {},
            Some(at) => {
                let max_idx = if self.command_history.len() == 0 {
                    0
                } else {
                    self.command_history.len() - 1
                };
                if at < max_idx {
                    let next = at + 1;
                    self.history_cursor = Some(next);
                    self.input = self.command_history[next].clone();
                } else {
                    self.history_cursor = None;
                    self.input = self.input_snapshot.clone();
                }
            },
        }
    }

    /// Leaves history navigation.
    pub fn reset_history_nav(&mut self)
        ensures
            final(self)@ == old(self)@.after_reset_history_nav(),
    {
        self.history_cursor = None;
        self.input_snapshot = String::new();
    }

    /// Logs `message` with the current local time of day.
    pub fn push_traffic(&mut self, message: String)
        ensures
            final(self)@ == old(self)@.after_push_traffic(final(self)@.traffic.last()),
            final(self)@.traffic.last().message == message@,
    {
        let timestamp = local_time_text();
        self.push_traffic_at(timestamp, message);
    }

    /// Logs `message` with the given time text.
    pub fn push_traffic_at(&mut self, timestamp: String, message: String)
        ensures
            final(self)@ == old(self)@.after_push_traffic(
                TrafficEntryView { timestamp: timestamp@, message: message@ },
            ),
    {
        let entry = TrafficEntry { timestamp, message };
        let ghost before = self.traffic.deep_view();
        self.traffic.push_back(entry);
        assert(self.traffic.deep_view() =~= before.push(entry@));
        if self.traffic.len() > MAX_TRAFFIC {
            let ghost full = self.traffic.deep_view();
            self.traffic.pop_front();
            assert(self.traffic.deep_view() =~= full.drop_first());
        }
        self.traffic_scroll = if self.traffic.len() == 0 {
            0
        } else {
            self.traffic.len() - 1
        };
    }

    /// Scrolls the log up by one line.
    pub fn scroll_traffic_up(&mut self)
        ensures
            final(self)@ == old(self)@.after_scroll_up(),
    {
        if self.traffic_scroll > 0 {
            self.traffic_scroll = self.traffic_scroll - 1;
        }
    }

    /// Scrolls the log down by one line.
    pub fn scroll_traffic_down(&mut self)
        ensures
            final(self)@ == old(self)@.after_scroll_down(),
    {
        let max = if self.traffic.len() == 0 {
            0
        } else {
            self.traffic.len() - 1
        };
        if self.traffic_scroll < max {
            self.traffic_scroll += 1;
        }
    }

    /// Shows `msg` as feedback below the input.
    pub fn set_output(&mut self, msg: String)
        ensures
            final(self)@ == (AppView { command_output: Some(msg@), ..old(self)@ }),
    {
        self.command_output = Some(msg);
    }

    /// Removes the feedback line.
    pub fn clear_output(&mut self)
        ensures
            final(self)@ == (AppView { command_output: None, ..old(self)@ }),
    {
        self.command_output = None;
    }

    /// Records that the node has started with the given identifier; a
    /// listen address is recorded if one is given.
    pub fn node_started(&mut self, peer_id: String, listen_addr: String)
        ensures
            final(self)@ == old(self)@.after_node_started(peer_id@, listen_addr@),
    {
        self.node_state = NodeState::Running;
        self.status.peer_id = peer_id;
        if listen_addr.as_str().unicode_len() > 0 {
            self.status.listen_addr = listen_addr;
        }
    }

    /// Records that the node has stopped.
    pub fn node_stopped(&mut self)
        ensures
            final(self)@ == old(self)@.after_node_stopped(),
    {
        self.node_state = NodeState::Stopped;
        self.connected_peers = Vec::new();
        assert(self.connected_peers.deep_view() =~= Seq::<PeerRow>::empty());
        self.status.peers_connected = 0;
    }

    /// Records that a peer has connected.
    pub fn peer_connected(&mut self, peer: String)
        ensures
            final(self)@ == old(self)@.after_peer_connected(peer@),
    {
        self.discovered_peers = rows_without(&self.discovered_peers, &peer);
        proof {
            lemma_row_of(self.connected_peers.deep_view(), peer@);
        }
        if find_row(&self.connected_peers, &peer) == self.connected_peers.len() {
            let ghost before = self.connected_peers.deep_view();
            let none: Vec<String> = Vec::new();
            assert(none.deep_view() =~= Seq::<Seq<char>>::empty());
            self.connected_peers.push((peer, none));
            assert(self.connected_peers.deep_view() =~= before.push((peer@, Seq::empty())));
        }
        self.status.peers_connected = self.connected_peers.len();
        self.status.peers_discovered = self.discovered_peers.len();
    }

    /// Records that a peer has disconnected.
    pub fn peer_disconnected(&mut self, peer: &String)
        ensures
            final(self)@ == old(self)@.after_peer_disconnected(peer@),
    {
        self.connected_peers = rows_without(&self.connected_peers, peer);
        self.status.peers_connected = self.connected_peers.len();
    }

    /// Records that addresses of a peer were discovered.
    pub fn peer_discovered(&mut self, peer: String, addrs: &Vec<String>)
        ensures
            final(self)@ == old(self)@.after_peer_discovered(peer@, addrs.deep_view()),
    {
        proof {
            lemma_row_of(self.connected_peers.deep_view(), peer@);
            lemma_row_of(self.discovered_peers.deep_view(), peer@);
        }
        if find_row(&self.connected_peers, &peer) == self.connected_peers.len() {
            let at = find_row(&self.discovered_peers, &peer);
            if at < self.discovered_peers.len() {
                let ghost rows = self.discovered_peers.deep_view();
                let ghost target = with_new_addrs(rows[at as int].1, addrs.deep_view());
                let mut i: usize = 0;
                assert(addrs.deep_view().skip(0) =~= addrs.deep_view());
                assert(rows.update(at as int, rows[at as int]) =~= rows);
                while i < addrs.len()
                    invariant
                        i <= addrs@.len(),
                        at < self.discovered_peers@.len(),
                        at < rows.len(),
                        rows[at as int].0 == peer@,
                        self.discovered_peers.deep_view() == rows.update(
                            at as int,
                            (peer@, self.discovered_peers.deep_view()[at as int].1),
                        ),
                        with_new_addrs(
                            self.discovered_peers.deep_view()[at as int].1,
                            addrs.deep_view().skip(i as int),
                        ) == target,
                        *self == (App { discovered_peers: self.discovered_peers, ..*old(self) }),
                    decreases addrs@.len() - i,
                {
                    let ghost current = self.discovered_peers.deep_view()[at as int].1;
                    let ghost rest = addrs.deep_view().skip(i as int);
                    proof {
                        assert(rest[0] == addrs@[i as int]@);
                        assert(rest.drop_first() =~= addrs.deep_view().skip(i + 1));
                    }
                    if !crate::tui::peers_store::contains_addr(
                        &self.discovered_peers[at].1,
                        addrs[i].as_str(),
                    ) {
                        let copy = addrs[i].clone();
                        let ghost old_rows = self.discovered_peers@;
                        let ghost old_deep = self.discovered_peers.deep_view();
                        self.discovered_peers[at].1.push(copy);
                        proof {
                            assert(old_deep == rows.update(
                                at as int,
                                (peer@, old_deep[at as int].1),
                            ));
                            assert(old_deep.len() == rows.len());
                            assert(self.discovered_peers@.len() == old_rows.len());
                            assert(forall|j: int|
                                0 <= j < old_rows.len() && j != at ==> self.discovered_peers@[j]
                                    == old_rows[j]);
                            assert(self.discovered_peers@[at as int].0 == old_rows[at as int].0);
                            assert(self.discovered_peers@[at as int].1@
                                == old_rows[at as int].1@.push(copy));
                            assert(self.discovered_peers@[at as int].1.deep_view() =~= current.push(
                                copy@,
                            ));
                            assert forall|j: int|
                                0 <= j < old_rows.len() && j != at implies (
                            #[trigger] self.discovered_peers.deep_view()[j]) == rows[j] by {
                                assert(self.discovered_peers@[j] == old_rows[j]);
                                assert(old_deep[j] == rows.update(
                                    at as int,
                                    (peer@, old_deep[at as int].1),
                                )[j]);
                                assert(old_deep[j] == rows[j]);
                            }
                            assert(self.discovered_peers.deep_view()[at as int].0 == peer@);
                            assert(self.discovered_peers.deep_view() =~= rows.update(
                                at as int,
                                (peer@, current.push(copy@)),
                            ));
                        }
                    }
                    i += 1;
                }
                assert(addrs.deep_view().skip(i as int) =~= Seq::<Seq<char>>::empty());
            } else {
                let ghost before = self.discovered_peers.deep_view();
                let copy = clone_texts(addrs);
                self.discovered_peers.push((peer, copy));
                assert(self.discovered_peers.deep_view() =~= before.push(
                    (peer@, addrs.deep_view()),
                ));
            }
        }
        self.status.peers_discovered = self.discovered_peers.len();
    }

    /// Records the new length of the chain.
    pub fn chain_synced(&mut self, new_length: usize)
        ensures
            final(self)@ == (AppView {
                status: NodeStatusView { chain_length: new_length, ..old(self)@.status },
                ..old(self)@
            }),
    {
        self.status.chain_length = new_length;
    }
}

} // verus!
