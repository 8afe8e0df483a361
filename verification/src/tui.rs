//! State of the terminal dashboard: what the screen shows and how the
//! operator's input changes it. Drawing and key handling live with the host.

pub mod app;
pub mod command;
pub mod controller;
pub mod execute;
pub mod peers_store;
pub mod style;
pub mod text;

pub use app::{App, ContentView, NodeState, NodeStatus, TrafficEntry};
pub use command::{
    address_of, find_peer_by_addr, parse_command, parse_ip_port, parse_port_range, Command,
};
pub use controller::{ControlCommand, ControlStep, Controller};
pub use execute::Dispatch;
pub use peers_store::add;
pub use style::{traffic_tone, truncate, TrafficTone};
