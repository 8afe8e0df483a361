//! The controller between dashboard and node: which steps a command of the
//! operator takes, given whether a node task is running. Starting and
//! stopping the task itself is the host's part.

use vstd::prelude::*;

verus! {

/// The mathematical content of a [`ControlCommand`].
pub enum ControlCommandView {
    Start,
    Stop,
    Restart,
    Connect(Seq<char>),
    Disconnect(Seq<char>),
    Discover(Option<(u16, u16)>),
}

/// Commands sent from the dashboard to the controller.
#[derive(Debug, PartialEq, Eq)]
pub enum ControlCommand {
    Start,
    Stop,
    Restart,
    /// Dial the address, written as a multiaddress.
    Connect(String),
    /// Disconnect from the peer with the identifier.
    Disconnect(String),
    /// Start a discovery scan, on the given ports if a range is given.
    Discover(Option<(u16, u16)>),
}

impl View for ControlCommand {
    type V = ControlCommandView;

    open spec fn view(&self) -> ControlCommandView {
        match self {
            ControlCommand::Start => ControlCommandView::Start,
            ControlCommand::Stop => ControlCommandView::Stop,
            ControlCommand::Restart => ControlCommandView::Restart,
            ControlCommand::Connect(addr) => ControlCommandView::Connect(addr@),
            ControlCommand::Disconnect(peer) => ControlCommandView::Disconnect(peer@),
            ControlCommand::Discover(range) => ControlCommandView::Discover(*range),
        }
    }
}

/// The mathematical content of a [`ControlStep`].
pub enum ControlStepView {
    TellNodeToStop,
    AbortNode,
    ReportStopped,
    SpawnNode,
    Dial(Seq<char>),
    Disconnect(Seq<char>),
    Discover(Option<(u16, u16)>),
}

/// One step the controller takes.
#[derive(Debug, PartialEq, Eq)]
pub enum ControlStep {
    /// Tell the node task to stop.
    TellNodeToStop,
    /// Abort the node task.
    AbortNode,
    /// Tell the dashboard that the node has stopped.
    ReportStopped,
    /// Start a new node task.
    SpawnNode,
    /// Have the node dial an address.
    Dial(String),
    /// Have the node disconnect from a peer.
    Disconnect(String),
    /// Have the node start a discovery scan.
    Discover(Option<(u16, u16)>),
}

impl View for ControlStep {
    type V = ControlStepView;

    open spec fn view(&self) -> ControlStepView {
        match self {
            ControlStep::TellNodeToStop => ControlStepView::TellNodeToStop,
            ControlStep::AbortNode => ControlStepView::AbortNode,
            ControlStep::ReportStopped => ControlStepView::ReportStopped,
            ControlStep::SpawnNode => ControlStepView::SpawnNode,
            ControlStep::Dial(addr) => ControlStepView::Dial(addr@),
            ControlStep::Disconnect(peer) => ControlStepView::Disconnect(peer@),
            ControlStep::Discover(range) => ControlStepView::Discover(*range),
        }
    }
}

impl DeepView for ControlStep {
    type V = ControlStepView;

    open spec fn deep_view(&self) -> ControlStepView {
        self@
    }
}

/// The steps that stop a running node; none when no node runs.
pub open spec fn stop_steps(running: bool) -> Seq<ControlStepView> {
    if running {
        seq![
            ControlStepView::TellNodeToStop,
            ControlStepView::AbortNode,
            ControlStepView::ReportStopped,
        ]
    } else {
        Seq::empty()
    }
}

/// The steps `cmd` takes when a node task runs or not. A start or restart
/// stops a running node first. Commands for the node are passed on to a
/// running node and dropped otherwise.
pub open spec fn control_steps(running: bool, cmd: ControlCommandView) -> Seq<ControlStepView> {
    match cmd {
        ControlCommandView::Start | ControlCommandView::Restart => stop_steps(running).push(
            ControlStepView::SpawnNode,
        ),
        ControlCommandView::Stop => stop_steps(running),
        ControlCommandView::Connect(addr) => if running {
            seq![ControlStepView::Dial(addr)]
        } else {
            Seq::empty()
        },
        ControlCommandView::Disconnect(peer) => if running {
            seq![ControlStepView::Disconnect(peer)]
        } else {
            Seq::empty()
        },
        ControlCommandView::Discover(range) => if running {
            seq![ControlStepView::Discover(range)]
        } else {
            Seq::empty()
        },
    }
}

/// Whether a node task runs after `cmd`.
pub open spec fn running_after(running: bool, cmd: ControlCommandView) -> bool {
    match cmd {
        ControlCommandView::Start | ControlCommandView::Restart => true,
        ControlCommandView::Stop => false,
        _ => running,
    }
}

/// The controller's state: whether a node task runs.
#[derive(Debug)]
pub struct Controller {
    running: bool,
}

impl Controller {
    /// Whether a node task runs.
    pub closed spec fn is_running(&self) -> bool {
        self.running
    }

    /// A controller without a node task.
    pub fn new() -> (controller: Self)
        ensures
            !controller.is_running(),
    {
        Controller { running: false }
    }

    /// Whether a node task runs.
    pub fn running(&self) -> (running: bool)
        ensures
            running == self.is_running(),
    {
        self.running
    }

    /// Takes a command of the operator: the steps to carry out, in order.
    pub fn handle(&mut self, cmd: ControlCommand) -> (steps: Vec<ControlStep>)
        ensures
            steps.deep_view() == control_steps(old(self).is_running(), cmd@),
            final(self).is_running() == running_after(old(self).is_running(), cmd@),
    {
        let mut steps: Vec<ControlStep> = Vec::new();
        match cmd {
            ControlCommand::Start | ControlCommand::Restart => {
                if self.running {
                    steps.push(ControlStep::TellNodeToStop);
                    steps.push(ControlStep::AbortNode);
                    steps.push(ControlStep::ReportStopped);
                }
                steps.push(ControlStep::SpawnNode);
                self.running = true;
            },
            ControlCommand::Stop => {
                if self.running {
                    steps.push(ControlStep::TellNodeToStop);
                    steps.push(ControlStep::AbortNode);
                    steps.push(ControlStep::ReportStopped);
                }
                self.running = false;
            },
            ControlCommand::Connect(addr) => {
                if self.running {
                    steps.push(ControlStep::Dial(addr));
                }
            },
            ControlCommand::Disconnect(peer) => {
                if self.running {
                    steps.push(ControlStep::Disconnect(peer));
                }
            },
            ControlCommand::Discover(range) => {
                if self.running {
                    steps.push(ControlStep::Discover(range));
                }
            },
        }
        assert(steps.deep_view() =~= control_steps(old(self).is_running(), cmd@));
        steps
    }
}

} // verus!
