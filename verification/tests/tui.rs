use spn_core::tui::execute::decimal_text;
use spn_core::tui::text::{parse_u16, split_at_first, split_at_last, trim};
use spn_core::tui::{
    add, find_peer_by_addr, parse_command, parse_ip_port, parse_port_range, traffic_tone,
    truncate, App, Command, ContentView, ControlCommand, ControlStep, Controller, Dispatch,
    NodeState, TrafficTone,
};

#[test]
fn node_state_labels() {
    assert_eq!(NodeState::Stopped.label(), "stopped");
    assert_eq!(NodeState::Starting.label(), "starting…");
    assert_eq!(NodeState::Running.label(), "running");
    assert_eq!(NodeState::Restarting.label(), "restarting…");
}

#[test]
fn a_new_app_is_stopped_and_empty() {
    let app = App::new();
    assert_eq!(app.node_state, NodeState::Stopped);
    assert_eq!(app.view, ContentView::Traffic);
    assert_eq!(app.status.mode, "Full");
    assert_eq!(app.status.sync_strategy, "OnDemand");
    assert_eq!(app.status.discovery_mode, "KademliaDht");
    assert_eq!(app.status.port, 51025);
    assert_eq!(app.status.peer_id, "");
    assert_eq!(app.status.chain_length, 0);
    assert!(app.traffic.is_empty());
    assert_eq!(app.traffic_scroll, 0);
    assert!(app.input.is_empty());
    assert!(app.command_history.is_empty());
    assert_eq!(app.history_cursor, None);
    assert!(app.command_output.is_none());
    assert!(app.discovered_peers.is_empty());
    assert!(app.connected_peers.is_empty());
    assert!(!app.should_quit);
}

#[test]
fn history_keeps_the_last_two_hundred_commands() {
    let mut app = App::new();
    for i in 0..200 {
        app.push_history(format!("/cmd {}", i));
    }
    assert_eq!(app.command_history.len(), 200);
    assert_eq!(app.command_history[0], "/cmd 0");
    app.push_history("/cmd 200".to_string());
    assert_eq!(app.command_history.len(), 200);
    assert_eq!(app.command_history[0], "/cmd 1");
    assert_eq!(app.command_history[199], "/cmd 200");
}

#[test]
fn history_navigation_walks_back_and_forth() {
    let mut app = App::new();
    app.input = "typing".to_string();
    // Nothing to recall yet.
    app.history_prev();
    assert_eq!(app.history_cursor, None);
    assert_eq!(app.input, "typing");

    app.push_history("/one".to_string());
    app.push_history("/two".to_string());
    app.push_history("/three".to_string());

    app.history_prev();
    assert_eq!(app.history_cursor, Some(2));
    assert_eq!(app.input, "/three");
    assert_eq!(app.input_snapshot, "typing");
    app.history_prev();
    assert_eq!(app.input, "/two");
    app.history_prev();
    assert_eq!(app.input, "/one");
    assert_eq!(app.history_cursor, Some(0));
    // At the oldest command nothing changes.
    app.history_prev();
    assert_eq!(app.input, "/one");
    assert_eq!(app.history_cursor, Some(0));

    app.history_next();
    assert_eq!(app.input, "/two");
    app.history_next();
    assert_eq!(app.input, "/three");
    assert_eq!(app.history_cursor, Some(2));
    // Past the newest command the typed input comes back.
    app.history_next();
    assert_eq!(app.history_cursor, None);
    assert_eq!(app.input, "typing");
    // Not navigating: nothing changes.
    app.history_next();
    assert_eq!(app.input, "typing");
}

#[test]
fn reset_history_nav_forgets_the_snapshot() {
    let mut app = App::new();
    app.push_history("/one".to_string());
    app.input = "draft".to_string();
    app.history_prev();
    app.reset_history_nav();
    assert_eq!(app.history_cursor, None);
    assert_eq!(app.input_snapshot, "");
    assert_eq!(app.input, "/one");
}

#[test]
fn a_cursor_beyond_the_history_is_tolerated() {
    let mut app = App::new();
    app.push_history("/one".to_string());
    app.input = "x".to_string();
    app.history_cursor = Some(7);
    app.history_prev();
    assert_eq!(app.history_cursor, Some(6));
    assert_eq!(app.input, "x");
    app.history_next();
    assert_eq!(app.history_cursor, None);
    assert_eq!(app.input, "");
}

#[test]
fn traffic_keeps_the_last_five_hundred_entries_and_follows_the_newest() {
    let mut app = App::new();
    app.push_traffic_at("00:00:00".to_string(), "first".to_string());
    assert_eq!(app.traffic.len(), 1);
    assert_eq!(app.traffic_scroll, 0);
    assert_eq!(app.traffic[0].timestamp, "00:00:00");
    assert_eq!(app.traffic[0].message, "first");
    for i in 1..500 {
        app.push_traffic_at("00:00:01".to_string(), format!("entry {}", i));
    }
    assert_eq!(app.traffic.len(), 500);
    assert_eq!(app.traffic_scroll, 499);
    app.push_traffic_at("00:00:02".to_string(), "overflow".to_string());
    assert_eq!(app.traffic.len(), 500);
    assert_eq!(app.traffic[0].message, "entry 1");
    assert_eq!(app.traffic[499].message, "overflow");
    assert_eq!(app.traffic_scroll, 499);
}

#[test]
fn push_traffic_stamps_the_time_of_day() {
    let mut app = App::new();
    app.push_traffic("hello".to_string());
    assert_eq!(app.traffic.len(), 1);
    assert_eq!(app.traffic[0].message, "hello");
    let stamp = app.traffic[0].timestamp.as_bytes();
    assert_eq!(stamp.len(), 8);
    assert_eq!(stamp[2], b':');
    assert_eq!(stamp[5], b':');
    assert!(stamp.iter().enumerate().all(|(i, c)| i == 2 || i == 5 || c.is_ascii_digit()));
}

#[test]
fn scrolling_stays_within_the_log() {
    let mut app = App::new();
    app.scroll_traffic_up();
    assert_eq!(app.traffic_scroll, 0);
    app.scroll_traffic_down();
    assert_eq!(app.traffic_scroll, 0);
    for i in 0..3 {
        app.push_traffic_at("t".to_string(), format!("{}", i));
    }
    assert_eq!(app.traffic_scroll, 2);
    app.scroll_traffic_down();
    assert_eq!(app.traffic_scroll, 2);
    app.scroll_traffic_up();
    app.scroll_traffic_up();
    assert_eq!(app.traffic_scroll, 0);
    app.scroll_traffic_up();
    assert_eq!(app.traffic_scroll, 0);
    app.scroll_traffic_down();
    assert_eq!(app.traffic_scroll, 1);
}

#[test]
fn output_line_is_set_and_cleared() {
    let mut app = App::new();
    app.set_output("Node is not running.".to_string());
    assert_eq!(app.command_output.as_deref(), Some("Node is not running."));
    app.set_output("again".to_string());
    assert_eq!(app.command_output.as_deref(), Some("again"));
    app.clear_output();
    assert!(app.command_output.is_none());
}

#[test]
fn add_remembers_an_address_once() {
    let mut addrs: Vec<String> = Vec::new();
    assert!(add(&mut addrs, "/ip4/1.2.3.4/tcp/1"));
    assert!(add(&mut addrs, "/ip4/1.2.3.4/tcp/2"));
    assert!(!add(&mut addrs, "/ip4/1.2.3.4/tcp/1"));
    assert_eq!(addrs, vec!["/ip4/1.2.3.4/tcp/1", "/ip4/1.2.3.4/tcp/2"]);
}

#[test]
fn port_ranges_are_read_as_start_dash_end() {
    assert_eq!(parse_port_range("51025-51030"), Some((51025, 51030)));
    assert_eq!(parse_port_range(" 1 - 2 "), Some((1, 2)));
    assert_eq!(parse_port_range("7-7"), Some((7, 7)));
    assert_eq!(parse_port_range("0-65535"), Some((0, 65535)));
    assert_eq!(parse_port_range("+5-+6"), Some((5, 6)));
    assert_eq!(parse_port_range("0005-00006"), Some((5, 6)));
    assert_eq!(parse_port_range("8-7"), None);
    assert_eq!(parse_port_range("1-65536"), None);
    assert_eq!(parse_port_range("1-99999999999999999999"), None);
    assert_eq!(parse_port_range("1-2-3"), None);
    assert_eq!(parse_port_range("12"), None);
    assert_eq!(parse_port_range("-"), None);
    assert_eq!(parse_port_range("a-b"), None);
    assert_eq!(parse_port_range("1 2-3"), None);
    assert_eq!(parse_port_range(""), None);
    assert_eq!(parse_port_range("+-1"), None);
    assert_eq!(parse_port_range("-1-2"), None);
}

#[test]
fn ip_and_port_become_a_multiaddress() {
    assert_eq!(parse_ip_port("1.2.3.4:5000"), Some("/ip4/1.2.3.4/tcp/5000".to_string()));
    assert_eq!(parse_ip_port("host:+80"), Some("/ip4/host/tcp/+80".to_string()));
    assert_eq!(parse_ip_port("a:b:22"), Some("/ip4/a:b/tcp/22".to_string()));
    assert_eq!(parse_ip_port(":1"), Some("/ip4//tcp/1".to_string()));
    assert_eq!(parse_ip_port("1.2.3.4"), None);
    assert_eq!(parse_ip_port("1.2.3.4:"), None);
    assert_eq!(parse_ip_port("1.2.3.4:70000"), None);
    assert_eq!(parse_ip_port("1.2.3.4: 80"), None);
    assert_eq!(parse_ip_port(""), None);
}

#[test]
fn lines_are_read_as_commands() {
    assert_eq!(parse_command("/start"), Command::Start);
    assert_eq!(parse_command("/stop"), Command::Stop);
    assert_eq!(parse_command("/restart"), Command::Restart);
    assert_eq!(parse_command("/traffic"), Command::Traffic);
    assert_eq!(parse_command("/status"), Command::Status);
    assert_eq!(parse_command("/connected"), Command::Connected);
    assert_eq!(parse_command("/help"), Command::Help);
    assert_eq!(parse_command("/quit"), Command::Quit);
    assert_eq!(parse_command("/exit"), Command::Quit);
    assert_eq!(parse_command(""), Command::Nothing);
    assert_eq!(parse_command(" /start"), Command::Nothing);
    assert_eq!(parse_command("/start now"), Command::Start);
    assert_eq!(parse_command("/bogus 1"), Command::Unknown("/bogus".to_string()));
    assert_eq!(parse_command("start"), Command::Unknown("start".to_string()));
    assert_eq!(parse_command("/START"), Command::Unknown("/START".to_string()));

    assert_eq!(parse_command("/discover"), Command::Discover(None));
    assert_eq!(parse_command("/discover   "), Command::Discover(None));
    assert_eq!(parse_command("/discover 4000-4010"), Command::Discover(Some((4000, 4010))));
    assert_eq!(parse_command("/discover  4000 - 4010 "), Command::Discover(Some((4000, 4010))));
    assert_eq!(parse_command("/discover 4010-4000"), Command::DiscoverUsage);
    assert_eq!(parse_command("/discover all"), Command::DiscoverUsage);

    assert_eq!(parse_command("/disconnect"), Command::DisconnectUsage);
    assert_eq!(parse_command("/disconnect  "), Command::DisconnectUsage);
    assert_eq!(
        parse_command("/disconnect 12D3KooW "),
        Command::Disconnect("12D3KooW".to_string())
    );

    assert_eq!(parse_command("/connect"), Command::ConnectUsage);
    assert_eq!(
        parse_command("/connect 1.2.3.4:5000"),
        Command::Connect("/ip4/1.2.3.4/tcp/5000".to_string())
    );
    assert_eq!(
        parse_command("/connect /ip4/1.2.3.4/tcp/5000"),
        Command::Connect("/ip4/1.2.3.4/tcp/5000".to_string())
    );
    assert_eq!(parse_command("/connect nowhere"), Command::ConnectInvalid);
    assert_eq!(parse_command("/connect 1.2.3.4:http"), Command::ConnectInvalid);
}

#[test]
fn peers_are_found_by_address() {
    let peers = vec![
        ("peer-1".to_string(), vec!["/ip4/1.1.1.1/tcp/1".to_string()]),
        ("peer-2".to_string(), vec!["/ip4/2.2.2.2/tcp/2".to_string(), "x:9".to_string()]),
        ("peer-3".to_string(), vec!["/ip4/2.2.2.2/tcp/2".to_string()]),
    ];
    assert_eq!(find_peer_by_addr(&peers, "/ip4/1.1.1.1/tcp/1"), Some("peer-1".to_string()));
    assert_eq!(find_peer_by_addr(&peers, "2.2.2.2:2"), Some("peer-2".to_string()));
    assert_eq!(find_peer_by_addr(&peers, "x:9"), Some("peer-2".to_string()));
    assert_eq!(find_peer_by_addr(&peers, "3.3.3.3:3"), None);
    assert_eq!(find_peer_by_addr(&peers, ""), None);
    assert_eq!(find_peer_by_addr(&Vec::new(), "x:9"), None);
}

#[test]
fn text_helpers_follow_their_rules() {
    assert_eq!(trim("  a b \t\n"), "a b");
    assert_eq!(trim("\u{00A0}\u{2003}x\u{3000}"), "x");
    assert_eq!(trim("   "), "");
    assert_eq!(trim(""), "");
    assert_eq!(trim("é"), "é");
    assert_eq!(split_at_first("a-b-c", '-'), Some(("a", "b-c")));
    assert_eq!(split_at_last("a-b-c", '-'), Some(("a-b", "c")));
    assert_eq!(split_at_first("-", '-'), Some(("", "")));
    assert_eq!(split_at_first("é-ü", '-'), Some(("é", "ü")));
    assert_eq!(split_at_first("abc", '-'), None);
    assert_eq!(split_at_last("", '-'), None);
    assert_eq!(parse_u16("0"), Some(0));
    assert_eq!(parse_u16("65535"), Some(65535));
    assert_eq!(parse_u16("65536"), None);
    assert_eq!(parse_u16("+1"), Some(1));
    assert_eq!(parse_u16("+"), None);
    assert_eq!(parse_u16(""), None);
    assert_eq!(parse_u16("-1"), None);
    assert_eq!(parse_u16("1a"), None);
    assert_eq!(parse_u16("١"), None);
    for text in ["0", "65535", "65536", "+1", "+", "", "-1", "1a", " 1", "007", "++1"] {
        assert_eq!(parse_u16(text), text.parse::<u16>().ok(), "parsing {:?}", text);
    }
}

#[test]
fn log_lines_get_their_tone_from_their_words() {
    assert_eq!(traffic_tone("Block finalised: #3"), TrafficTone::Bright);
    assert_eq!(traffic_tone("Chain synced — length 4"), TrafficTone::Bright);
    assert_eq!(traffic_tone("Transaction received: x"), TrafficTone::Primary);
    assert_eq!(traffic_tone("Block received: #1 (2 txs)"), TrafficTone::Block);
    assert_eq!(traffic_tone("Peer connected: 12D3"), TrafficTone::Primary);
    assert_eq!(traffic_tone("Node started  peer 12D3"), TrafficTone::Primary);
    assert_eq!(traffic_tone("Peer disconnected: 12D3"), TrafficTone::Danger);
    assert_eq!(traffic_tone("Node stopped"), TrafficTone::Danger);
    assert_eq!(traffic_tone("error: boom"), TrafficTone::Danger);
    assert_eq!(traffic_tone("Peer discovered: 12D3"), TrafficTone::Muted);
    assert_eq!(traffic_tone("Listening on /ip4/0.0.0.0/tcp/1"), TrafficTone::Muted);
    assert_eq!(traffic_tone("Switched to connected peers view"), TrafficTone::Primary);
    assert_eq!(traffic_tone(""), TrafficTone::Muted);
}

#[test]
fn long_texts_are_cut_with_an_ellipsis() {
    assert_eq!(truncate("hello", 5), "hello");
    assert_eq!(truncate("hello", 10), "hello");
    assert_eq!(truncate("hello!", 5), "hell…");
    assert_eq!(truncate("hello", 1), "…");
    assert_eq!(truncate("hello", 0), "…");
    assert_eq!(truncate("", 0), "");
    assert_eq!(truncate("aé", 2), "a…");
}

#[test]
fn the_controller_stops_before_it_starts_again() {
    let mut c = Controller::new();
    assert!(!c.running());
    // Commands for the node are dropped while none runs.
    assert!(c.handle(ControlCommand::Connect("/ip4/1.1.1.1/tcp/1".to_string())).is_empty());
    assert!(c.handle(ControlCommand::Discover(None)).is_empty());
    assert!(c.handle(ControlCommand::Stop).is_empty());
    assert_eq!(c.handle(ControlCommand::Start), vec![ControlStep::SpawnNode]);
    assert!(c.running());
    assert_eq!(
        c.handle(ControlCommand::Connect("a".to_string())),
        vec![ControlStep::Dial("a".to_string())]
    );
    assert_eq!(
        c.handle(ControlCommand::Disconnect("p".to_string())),
        vec![ControlStep::Disconnect("p".to_string())]
    );
    assert_eq!(
        c.handle(ControlCommand::Discover(Some((1, 2)))),
        vec![ControlStep::Discover(Some((1, 2)))]
    );
    assert_eq!(
        c.handle(ControlCommand::Restart),
        vec![
            ControlStep::TellNodeToStop,
            ControlStep::AbortNode,
            ControlStep::ReportStopped,
            ControlStep::SpawnNode
        ]
    );
    assert!(c.running());
    assert_eq!(
        c.handle(ControlCommand::Stop),
        vec![ControlStep::TellNodeToStop, ControlStep::AbortNode, ControlStep::ReportStopped]
    );
    assert!(!c.running());
}

#[test]
fn peer_lists_follow_the_node_events() {
    let mut app = App::new();
    app.node_started("12D3".to_string(), String::new());
    assert_eq!(app.node_state, NodeState::Running);
    assert_eq!(app.status.peer_id, "12D3");
    assert_eq!(app.status.listen_addr, "");
    app.node_started("12D3".to_string(), "/ip4/0.0.0.0/tcp/1".to_string());
    assert_eq!(app.status.listen_addr, "/ip4/0.0.0.0/tcp/1");
    app.node_started("12D4".to_string(), String::new());
    assert_eq!(app.status.listen_addr, "/ip4/0.0.0.0/tcp/1");

    app.peer_discovered("peer-1".to_string(), &vec!["a".to_string(), "b".to_string()]);
    app.peer_discovered("peer-2".to_string(), &vec!["c".to_string()]);
    app.peer_discovered("peer-1".to_string(), &vec!["b".to_string(), "d".to_string(), "d".to_string()]);
    assert_eq!(
        app.discovered_peers,
        vec![
            ("peer-1".to_string(), vec!["a".to_string(), "b".to_string(), "d".to_string()]),
            ("peer-2".to_string(), vec!["c".to_string()]),
        ]
    );
    assert_eq!(app.status.peers_discovered, 2);

    app.peer_connected("peer-1".to_string());
    app.peer_connected("peer-1".to_string());
    assert_eq!(app.connected_peers, vec![("peer-1".to_string(), Vec::<String>::new())]);
    assert_eq!(app.discovered_peers.len(), 1);
    assert_eq!(app.status.peers_connected, 1);
    assert_eq!(app.status.peers_discovered, 1);

    // A connected peer is not listed as discovered again.
    app.peer_discovered("peer-1".to_string(), &vec!["z".to_string()]);
    assert_eq!(app.discovered_peers.len(), 1);

    app.peer_connected("peer-3".to_string());
    app.peer_disconnected(&"peer-1".to_string());
    assert_eq!(app.connected_peers, vec![("peer-3".to_string(), Vec::<String>::new())]);
    assert_eq!(app.status.peers_connected, 1);

    app.chain_synced(9);
    assert_eq!(app.status.chain_length, 9);

    app.node_stopped();
    assert_eq!(app.node_state, NodeState::Stopped);
    assert!(app.connected_peers.is_empty());
    assert_eq!(app.status.peers_connected, 0);
    assert_eq!(app.discovered_peers.len(), 1);
}

#[test]
fn port_numbers_are_written_in_decimal() {
    for n in [0u16, 1, 9, 10, 11, 99, 100, 101, 4000, 9999, 10000, 51025, 65535] {
        assert_eq!(decimal_text(n), n.to_string());
        assert_eq!(parse_u16(&decimal_text(n)), Some(n));
    }
}

#[test]
fn start_and_stop_depend_on_the_node_state() {
    let mut app = App::new();
    assert_eq!(app.execute(Command::Stop), Dispatch::Nothing);
    assert_eq!(app.command_output.as_deref(), Some("Node is not running."));
    assert!(app.traffic.is_empty());

    assert_eq!(app.execute(Command::Start), Dispatch::Send(ControlCommand::Start));
    assert_eq!(app.node_state, NodeState::Starting);
    assert_eq!(app.traffic.len(), 1);
    assert_eq!(app.traffic[0].message, "Starting node…");

    app.clear_output();
    assert_eq!(app.execute(Command::Start), Dispatch::Nothing);
    assert_eq!(
        app.command_output.as_deref(),
        Some("Node is already running. Use /stop or /restart.")
    );
    assert_eq!(app.node_state, NodeState::Starting);

    app.node_state = NodeState::Running;
    assert_eq!(app.execute(Command::Stop), Dispatch::Send(ControlCommand::Stop));
    assert_eq!(app.traffic[1].message, "Stopping node…");
    assert_eq!(app.node_state, NodeState::Running);

    assert_eq!(app.execute(Command::Restart), Dispatch::Send(ControlCommand::Restart));
    assert_eq!(app.node_state, NodeState::Restarting);
    assert_eq!(app.traffic[2].message, "Restarting node…");
}

#[test]
fn views_are_switched_by_their_commands() {
    let mut app = App::new();
    app.connected_peers.push(("a".to_string(), vec![]));
    app.discovered_peers.push(("b".to_string(), vec![]));
    app.discovered_peers.push(("c".to_string(), vec![]));

    assert_eq!(app.execute(Command::Status), Dispatch::Nothing);
    assert_eq!(app.view, ContentView::Status);
    assert_eq!(app.status.peers_connected, 1);
    assert_eq!(app.status.peers_discovered, 2);

    assert_eq!(app.execute(Command::Connected), Dispatch::Nothing);
    assert_eq!(app.view, ContentView::Connected);
    assert_eq!(app.traffic[0].message, "Switched to connected peers view");

    assert_eq!(app.execute(Command::Traffic), Dispatch::Nothing);
    assert_eq!(app.view, ContentView::Traffic);
    assert_eq!(app.traffic.len(), 1);

    assert_eq!(
        app.execute(Command::Discover(None)),
        Dispatch::Send(ControlCommand::Discover(None))
    );
    assert_eq!(app.view, ContentView::Discovered);
    assert_eq!(app.traffic[1].message, "Discovering peers on node port…");
    assert_eq!(
        app.execute(Command::Discover(Some((4000, 65535)))),
        Dispatch::Send(ControlCommand::Discover(Some((4000, 65535))))
    );
    assert_eq!(app.traffic[2].message, "Discovering peers on ports 4000–65535…");

    assert_eq!(app.execute(Command::Help), Dispatch::Nothing);
    assert_eq!(app.view, ContentView::Traffic);
    assert_eq!(app.traffic.len(), 18);
    assert_eq!(app.traffic[4].message, "/start                       start the node");
    assert_eq!(app.traffic[15].message, "/quit                        quit spn");
    assert_eq!(app.traffic_scroll, 17);
}

#[test]
fn usage_errors_and_unknown_commands_give_feedback() {
    let mut app = App::new();
    for (cmd, text) in [
        (Command::DiscoverUsage, "Usage: /discover [<start port>-<end port>]"),
        (Command::DisconnectUsage, "Usage: /disconnect <node-id>  or  /disconnect <ip>:<port>"),
        (Command::ConnectUsage, "Usage: /connect <ip>:<port>"),
        (Command::ConnectInvalid, "Invalid address. Use ip:port or /ip4/x.x.x.x/tcp/port"),
        (Command::Unknown("/bogus".to_string()), "Unknown command: /bogus  (try /help)"),
    ] {
        assert_eq!(app.execute(cmd), Dispatch::Nothing);
        assert_eq!(app.command_output.as_deref(), Some(text));
    }
    assert!(app.traffic.is_empty());
    app.clear_output();
    assert_eq!(app.execute(Command::Nothing), Dispatch::Nothing);
    assert!(app.command_output.is_none());
}

#[test]
fn connecting_and_disconnecting_are_left_to_the_caller() {
    let mut app = App::new();
    assert_eq!(
        app.execute(Command::Connect("/ip4/1.2.3.4/tcp/5".to_string())),
        Dispatch::Connect("/ip4/1.2.3.4/tcp/5".to_string())
    );
    assert_eq!(
        app.execute(Command::Disconnect("12D3".to_string())),
        Dispatch::Disconnect("12D3".to_string())
    );
    assert!(app.traffic.is_empty());
    assert!(app.command_output.is_none());
}

#[test]
fn quitting_stops_a_running_node() {
    let mut app = App::new();
    assert_eq!(app.execute(Command::Quit), Dispatch::Nothing);
    assert!(app.should_quit);
    let mut app = App::new();
    app.node_state = NodeState::Running;
    assert_eq!(app.execute(Command::Quit), Dispatch::Send(ControlCommand::Stop));
    assert!(app.should_quit);
}
