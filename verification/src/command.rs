//! The configuration commands that the compositor's control tool takes for
//! a monitor, and the text that carries each of them.

use crate::monitor::{mode_text, Monitor, MonitorView, Resolution, ResolutionView};
use crate::number::{decimal, push_decimal};
use vstd::prelude::*;

verus! {

/// One change to one monitor.
#[derive(Clone, Debug, PartialEq, Eq)]
pub enum Command {
    /// Keep the monitor's resolution and put its top left corner at
    /// (`x`, `y`).
    Geometry { ctlname: String, res: Resolution, x: i128, y: i128 },
    /// Switch the monitor off.
    Disable { ctlname: String },
    /// Switch the monitor on, at the resolution it prefers and at a place
    /// that the compositor picks.
    Enable { ctlname: String },
}

/// What a `Command` stands for.
pub enum CommandView {
    Geometry { ctlname: Seq<char>, res: ResolutionView, x: int, y: int },
    Disable { ctlname: Seq<char> },
    Enable { ctlname: Seq<char> },
}

impl View for Command {
    type V = CommandView;

    open spec fn view(&self) -> CommandView {
        match *self {
            Command::Geometry { ctlname, res, x, y } => CommandView::Geometry {
                ctlname: ctlname@,
                res: res@,
                x: x as int,
                y: y as int,
            },
            Command::Disable { ctlname } => CommandView::Disable { ctlname: ctlname@ },
            Command::Enable { ctlname } => CommandView::Enable { ctlname: ctlname@ },
        }
    }
}

/// What a list of commands stands for.
pub open spec fn commands_view(list: Vec<Command>) -> Seq<CommandView> {
    list@.map_values(|c: Command| c@)
}

/// The text that carries a command to the control tool, its parts joined
/// by commas: `<name>,<width>x<height>@<rate>,<x>x<y>,1` for a geometry at
/// scale 1, `<name>,disable`, and `<name>,preferred,auto,1`.
pub open spec fn keyword_text(command: CommandView) -> Seq<char> {
    match command {
        CommandView::Geometry { ctlname, res, x, y } => ctlname + seq![','] + mode_text(res)
            + seq![','] + decimal(x) + seq!['x'] + decimal(y) + seq![',', '1'],
        CommandView::Disable { ctlname } => ctlname + seq![
            ',',
            'd',
            'i',
            's',
            'a',
            'b',
            'l',
            'e',
        ],
        CommandView::Enable { ctlname } => ctlname + seq![
            ',',
            'p',
            'r',
            'e',
            'f',
            'e',
            'r',
            'r',
            'e',
            'd',
            ',',
            'a',
            'u',
            't',
            'o',
            ',',
            '1',
        ],
    }
}

/// The command that puts `mon` at (`x`, `y`).
pub open spec fn placed(mon: MonitorView, x: int, y: int) -> CommandView {
    CommandView::Geometry { ctlname: mon.ctlname, res: mon.res, x, y }
}

/// The command that switches `mon` off.
pub open spec fn disabled(mon: MonitorView) -> CommandView {
    CommandView::Disable { ctlname: mon.ctlname }
}

impl Command {
    /// The command that puts `mon` at (`x`, `y`).
    pub fn place(mon: &Monitor, x: i128, y: i128) -> (r: Command)
        ensures
            r@ == placed(mon@, x as int, y as int),
    {
        Command::Geometry {
            ctlname: mon.ctlname.clone(),
            res: Resolution { x: mon.res.x, y: mon.res.y, freq: mon.res.freq.clone() },
            x,
            y,
        }
    }

    /// The command that switches `mon` off.
    pub fn disable(mon: &Monitor) -> (r: Command)
        ensures
            r@ == disabled(mon@),
    {
        Command::Disable { ctlname: mon.ctlname.clone() }
    }

    /// Writes the command as the control tool takes it.
    pub fn keyword(&self) -> (r: String)
        ensures
            r@ == keyword_text(self@),
    {
        proof {
            reveal_strlit(",");
            reveal_strlit("x");
            reveal_strlit(",1");
            reveal_strlit(",disable");
            reveal_strlit(",preferred,auto,1");
        }
        match self {
            Command::Geometry { ctlname, res, x, y } => {
                let mut r = ctlname.clone();
                r.append(",");
                let mode = res.display();
                r.append(mode.as_str());
                r.append(",");
                push_decimal(&mut r, *x);
                r.append("x");
                push_decimal(&mut r, *y);
                r.append(",1");
                assert(r@ =~= keyword_text(self@));
                r
            },
            Command::Disable { ctlname } => {
                let mut r = ctlname.clone();
                r.append(",disable");
                assert(r@ =~= keyword_text(self@));
                r
            },
            Command::Enable { ctlname } => {
                let mut r = ctlname.clone();
                r.append(",preferred,auto,1");
                assert(r@ =~= keyword_text(self@));
                r
            },
        }
    }
}

} // verus!
