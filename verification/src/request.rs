//! What one run is asked to do, and what it then does: which of the
//! options counts where several are given, and what is said instead of
//! acting where the request cannot be met.

use crate::command::{commands_view, Command, CommandView};
use crate::direction::{direction_of, ThrowDirection};
use crate::monitor::MonitorView;
use crate::placement::{moved, only, shifted, switched_off, Unknown};
use crate::setup::Setup;
use crate::text::equal;
use vstd::prelude::*;

verus! {

/// The options of one run.
#[derive(Clone, Debug, PartialEq, Eq)]
pub struct Request {
    /// The monitor that the run is about, by name or number.
    pub monitor: Option<String>,
    /// The monitor to throw it to, by name or number.
    pub target: Option<String>,
    /// The side of the target to throw it to.
    pub throw: Option<String>,
    /// Switch the monitor off.
    pub disable: bool,
    /// Switch the monitor on.
    pub enable: bool,
    /// Switch off what is listed before the monitor.
    pub only: bool,
    /// Move the monitor to this column.
    pub x: Option<usize>,
    /// Move the monitor to this row.
    pub y: Option<usize>,
}

/// What a `Request` stands for.
pub struct RequestView {
    pub monitor: Option<Seq<char>>,
    pub target: Option<Seq<char>>,
    pub throw: Option<Seq<char>>,
    pub disable: bool,
    pub enable: bool,
    pub only: bool,
    pub x: Option<usize>,
    pub y: Option<usize>,
}

/// What an optional text stands for.
pub open spec fn text_view(text: Option<String>) -> Option<Seq<char>> {
    match text {
        Some(t) => Some(t@),
        None => None,
    }
}

impl View for Request {
    type V = RequestView;

    open spec fn view(&self) -> RequestView {
        RequestView {
            monitor: text_view(self.monitor),
            target: text_view(self.target),
            throw: text_view(self.throw),
            disable: self.disable,
            enable: self.enable,
            only: self.only,
            x: self.x,
            y: self.y,
        }
    }
}

/// Why a run sends nothing.
#[derive(Clone, Copy, Debug, PartialEq, Eq, Structural)]
pub enum Refusal {
    /// The side of a throw is none of the four.
    InvalidDirection,
    /// A monitor is to be thrown next to itself.
    SameTarget,
    /// One of the two names of a throw stands for no monitor.
    Unresolved(Unknown),
    /// The monitor to switch off, to open or to shift is not in the layout.
    NotFound,
}

/// What a run does.
#[derive(Clone, Debug, PartialEq, Eq)]
pub enum Plan {
    /// There is no monitor to act on: the layout is shown.
    Show,
    /// These commands are sent, in this order.
    Send(Vec<Command>),
    /// Nothing is sent.
    Refuse(Refusal),
}

/// What a `Plan` stands for.
pub enum PlanView {
    Show,
    Send(Seq<CommandView>),
    Refuse(Refusal),
}

impl View for Plan {
    type V = PlanView;

    open spec fn view(&self) -> PlanView {
        match *self {
            Plan::Show => PlanView::Show,
            Plan::Send(list) => PlanView::Send(commands_view(list)),
            Plan::Refuse(why) => PlanView::Refuse(why),
        }
    }
}

/// The plan for a throw of `monitor` to the side `throw` of `target`. The
/// side is read first, then the two names are compared, then looked up.
pub open spec fn throw_planned(
    layout: Seq<MonitorView>,
    monitor: Seq<char>,
    throw: Seq<char>,
    target: Seq<char>,
) -> PlanView {
    match direction_of(throw) {
        None => PlanView::Refuse(Refusal::InvalidDirection),
        Some(direction) => if target == monitor {
            PlanView::Refuse(Refusal::SameTarget)
        } else {
            match moved(layout, monitor, direction, target) {
                Ok(list) => PlanView::Send(list),
                Err(which) => PlanView::Refuse(Refusal::Unresolved(which)),
            }
        },
    }
}

/// The plan for one command that may find its monitor missing.
pub open spec fn one_planned(command: Option<CommandView>) -> PlanView {
    match command {
        Some(c) => PlanView::Send(seq![c]),
        None => PlanView::Refuse(Refusal::NotFound),
    }
}

/// The plan for a request on a layout. Without a monitor the layout is
/// shown. With one, the first of these that is asked for counts alone: a
/// throw, which takes both a side and a target; switching off; switching
/// on; opening; a column; a row. Where none is asked for, nothing is sent.
pub open spec fn planned(layout: Seq<MonitorView>, request: RequestView) -> PlanView {
    match request.monitor {
        None => PlanView::Show,
        Some(monitor) => if request.throw is Some && request.target is Some {
            throw_planned(layout, monitor, request.throw->0, request.target->0)
        } else if request.disable {
            one_planned(switched_off(layout, monitor))
        } else if request.enable {
            PlanView::Send(seq![CommandView::Enable { ctlname: monitor }])
        } else if request.only {
            match only(layout, monitor) {
                Some(list) => PlanView::Send(list),
                None => PlanView::Refuse(Refusal::NotFound),
            }
        } else if request.x is Some {
            one_planned(shifted(layout, monitor, true, request.x->0 as int))
        } else if request.y is Some {
            one_planned(shifted(layout, monitor, false, request.y->0 as int))
        } else {
            PlanView::Send(Seq::empty())
        },
    }
}

/// The plan that sends `command` alone, or says that its monitor is missing.
fn send_one(command: Option<Command>) -> (r: Plan)
    ensures
        r@ == one_planned(
            match command {
                Some(c) => Some(c@),
                None => None,
            },
        ),
{
    match command {
        Some(c) => {
            let list = vec![c];
            assert(commands_view(list) =~= seq![c@]);
            Plan::Send(list)
        },
        None => Plan::Refuse(Refusal::NotFound),
    }
}

impl Setup {
    /// Plans a throw of `monitor` to the side `throw` of `target`.
    pub fn plan_throw(&self, monitor: &str, throw: &str, target: &str) -> (r: Plan)
        ensures
            r@ == throw_planned(self@, monitor@, throw@, target@),
    {
        let direction = match ThrowDirection::from_str(throw) {
            Some(direction) => direction,
            None => {
                return Plan::Refuse(Refusal::InvalidDirection);
            },
        };
        if equal(target, monitor) {
            return Plan::Refuse(Refusal::SameTarget);
        }
        match self.move_monitor(monitor, direction, target) {
            Ok(list) => Plan::Send(list),
            Err(which) => Plan::Refuse(Refusal::Unresolved(which)),
        }
    }

    /// Plans what a run does on this layout.
    pub fn plan(&self, request: &Request) -> (r: Plan)
        ensures
            r@ == planned(self@, request@),
    {
        let monitor = match &request.monitor {
            Some(monitor) => monitor.as_str(),
            None => {
                return Plan::Show;
            },
        };
        match (&request.throw, &request.target) {
            (Some(throw), Some(target)) => {
                return self.plan_throw(monitor, throw.as_str(), target.as_str());
            },
            _ => {},
        }
        if request.disable {
            send_one(self.disable_monitor(monitor))
        } else if request.enable {
            let list = vec![self.enable_monitor(monitor)];
            assert(commands_view(list) =~= seq![CommandView::Enable { ctlname: monitor@ }]);
            Plan::Send(list)
        } else if request.only {
            match self.only_monitor(monitor) {
                Some(list) => Plan::Send(list),
                None => Plan::Refuse(Refusal::NotFound),
            }
        } else if let Some(x) = request.x {
            send_one(self.change_monitor_pos_x(monitor, x))
        } else if let Some(y) = request.y {
            send_one(self.change_monitor_pos_y(monitor, y))
        } else {
            let list: Vec<Command> = Vec::new();
            assert(commands_view(list) =~= Seq::<CommandView>::empty());
            Plan::Send(list)
        }
    }
}

} // verus!
