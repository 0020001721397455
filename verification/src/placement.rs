//! The commands that rearrange a layout: throwing one monitor next to
//! another, setting one coordinate, and switching monitors off and on.
//!
//! Nothing here changes the layout. Every function reads it and returns the
//! commands to send, in the order in which they are to be sent.

use crate::command::{commands_view, disabled, placed, Command, CommandView};
use crate::direction::ThrowDirection;
use crate::monitor::{Monitor, MonitorView};
use crate::setup::{by_name_or_id, lemma_first_where, named, numbered, Setup};
use crate::number::small_number;
use vstd::prelude::*;

verus! {

/// Which of the two names of a throw stands for no monitor.
#[derive(Clone, Copy, Debug, PartialEq, Eq, Structural)]
pub enum Unknown {
    /// The monitor to move.
    Monitor,
    /// The monitor to move it to.
    Target,
}

/// The commands that put `left` directly to the left of `right`.
///
/// Where `right` stands at the left edge, or further from it than `left` is
/// wide, `left` goes to the edge and `right` to the end of `left`. Else
/// `left` alone moves, by its width to the left of `right`. Both stand in
/// the row of `right`.
pub open spec fn left_of(left: MonitorView, right: MonitorView) -> Seq<CommandView> {
    let y = right.pos.y as int;
    if right.pos.x == 0 || right.pos.x > left.res.x {
        seq![placed(left, 0, y), placed(right, left.res.x as int, y)]
    } else {
        seq![placed(left, right.pos.x - left.res.x, y)]
    }
}

/// The commands that put `top` directly above `bottom`.
///
/// Where `bottom` stands at the upper edge, `top` alone moves, to the
/// column of `bottom` and the height of `bottom`. Else `bottom` goes to the
/// upper edge and `top` to its own height, both in the column of `bottom`.
pub open spec fn above(top: MonitorView, bottom: MonitorView) -> Seq<CommandView> {
    let x = bottom.pos.x as int;
    if bottom.pos.y == 0 {
        seq![placed(top, x, bottom.res.y as int)]
    } else {
        seq![placed(bottom, x, 0), placed(top, x, top.res.y as int)]
    }
}

/// The commands that throw `mon` to the given side of `target`. To the
/// right of a monitor is to have it on one's left, and under it is to have
/// it above.
pub open spec fn thrown(mon: MonitorView, direction: ThrowDirection, target: MonitorView) -> Seq<
    CommandView,
> {
    match direction {
        ThrowDirection::Left => left_of(mon, target),
        ThrowDirection::Right => left_of(target, mon),
        ThrowDirection::Above => above(mon, target),
        ThrowDirection::Under => above(target, mon),
    }
}

/// The commands of a throw by names. The monitor to move is looked up
/// first, then the target.
pub open spec fn moved(
    layout: Seq<MonitorView>,
    mon_name: Seq<char>,
    direction: ThrowDirection,
    tgt_name: Seq<char>,
) -> Result<Seq<CommandView>, Unknown> {
    match (by_name_or_id(layout, mon_name), by_name_or_id(layout, tgt_name)) {
        (None, _) => Err(Unknown::Monitor),
        (Some(_), None) => Err(Unknown::Target),
        (Some(mon), Some(target)) => Ok(thrown(layout[mon], direction, layout[target])),
    }
}

/// What `Setup::move_monitor` returned, as `moved` gives it.
pub open spec fn moved_view(r: Result<Vec<Command>, Unknown>) -> Result<
    Seq<CommandView>,
    Unknown,
> {
    match r {
        Ok(list) => Ok(commands_view(list)),
        Err(e) => Err(e),
    }
}

/// The command that sets one coordinate of the monitor that `token` stands
/// for and keeps the other: `x` where `across` holds, else `y`.
pub open spec fn shifted(layout: Seq<MonitorView>, token: Seq<char>, across: bool, to: int) -> Option<
    CommandView,
> {
    match by_name_or_id(layout, token) {
        Some(at) => Some(
            if across {
                placed(layout[at], to, layout[at].pos.y as int)
            } else {
                placed(layout[at], layout[at].pos.x as int, to)
            },
        ),
        None => None,
    }
}

/// The command that switches off the monitor that `token` stands for.
pub open spec fn switched_off(layout: Seq<MonitorView>, token: Seq<char>) -> Option<CommandView> {
    match by_name_or_id(layout, token) {
        Some(at) => Some(disabled(layout[at])),
        None => None,
    }
}

/// The commands that leave the monitor that `token` stands for first in the
/// layout: one that switches off each monitor listed before it, in the
/// order of the layout. Monitors listed after it get no command.
pub open spec fn only(layout: Seq<MonitorView>, token: Seq<char>) -> Option<Seq<CommandView>> {
    match by_name_or_id(layout, token) {
        Some(at) => Some(layout.take(at).map_values(|mon: MonitorView| disabled(mon))),
        None => None,
    }
}

/// Whether the command `got` is `want`.
pub open spec fn same_command(got: Option<Command>, want: Option<CommandView>) -> bool {
    match got {
        Some(c) => want == Some(c@),
        None => want is None,
    }
}

/// Whether the commands `got` are `want`.
pub open spec fn same_commands(got: Option<Vec<Command>>, want: Option<Seq<CommandView>>) -> bool {
    match got {
        Some(list) => want == Some(commands_view(list)),
        None => want is None,
    }
}

impl Setup {
    /// The commands that throw the monitor named `mon_name` to the given
    /// side of the monitor named `tgt_name`. Each name may be a number
    /// instead. Where one of them stands for no monitor, the result says
    /// which, the monitor to move first.
    pub fn move_monitor(&self, mon_name: &str, direction: ThrowDirection, tgt_name: &str) -> (r:
        Result<Vec<Command>, Unknown>)
        ensures
            moved_view(r) == moved(self@, mon_name@, direction, tgt_name@),
    {
        let mon = match self.get_monitor_from_id_or_name(mon_name) {
            Some(mon) => mon,
            None => {
                return Err(Unknown::Monitor);
            },
        };
        let target = match self.get_monitor_from_id_or_name(tgt_name) {
            Some(target) => target,
            None => {
                return Err(Unknown::Target);
            },
        };
        Ok(
            match direction {
                ThrowDirection::Left => self.move_x_left_of_y(mon, target),
                ThrowDirection::Right => self.move_x_left_of_y(target, mon),
                ThrowDirection::Above => self.move_x_above_y(mon, target),
                ThrowDirection::Under => self.move_x_above_y(target, mon),
            },
        )
    }

    /// The commands that put `monitor_ref` directly to the left of
    /// `tgt_mon_ref`.
    pub fn move_x_left_of_y(&self, monitor_ref: &Monitor, tgt_mon_ref: &Monitor) -> (r: Vec<
        Command,
    >)
        ensures
            commands_view(r) == left_of(monitor_ref@, tgt_mon_ref@),
    {
        let y = tgt_mon_ref.pos.y as i128;
        let r = if tgt_mon_ref.pos.x > monitor_ref.res.x || tgt_mon_ref.pos.x == 0 {
            vec![
                self.change_monitor_pos_x_y(monitor_ref, 0, y),
                self.change_monitor_pos_x_y(tgt_mon_ref, monitor_ref.res.x as i128, y),
            ]
        } else {
            let x = tgt_mon_ref.pos.x as i128 - monitor_ref.res.x as i128;
            vec![self.change_monitor_pos_x_y(monitor_ref, x, y)]
        };
        assert(commands_view(r) =~= left_of(monitor_ref@, tgt_mon_ref@));
        r
    }

    /// The commands that put `monitor_ref` directly above `tgt_mon_ref`.
    pub fn move_x_above_y(&self, monitor_ref: &Monitor, tgt_mon_ref: &Monitor) -> (r: Vec<Command>)
        ensures
            commands_view(r) == above(monitor_ref@, tgt_mon_ref@),
    {
        let x = tgt_mon_ref.pos.x as i128;
        let r = if tgt_mon_ref.pos.y == 0 {
            vec![self.change_monitor_pos_x_y(monitor_ref, x, tgt_mon_ref.res.y as i128)]
        } else {
            vec![
                self.change_monitor_pos_x_y(tgt_mon_ref, x, 0),
                self.change_monitor_pos_x_y(monitor_ref, x, monitor_ref.res.y as i128),
            ]
        };
        assert(commands_view(r) =~= above(monitor_ref@, tgt_mon_ref@));
        r
    }

    /// The command that switches off the monitor that `name_or_id` stands
    /// for; none where it stands for no monitor.
    pub fn disable_monitor(&self, name_or_id: &str) -> (r: Option<Command>)
        ensures
            same_command(r, switched_off(self@, name_or_id@)),
    {
        match self.get_monitor_from_id_or_name(name_or_id) {
            Some(mon) => Some(Command::disable(mon)),
            None => None,
        }
    }

    /// The command that switches on the monitor called `name_or_id`. The
    /// name is taken as it is and not looked up: a monitor that is off is
    /// not in the layout.
    pub fn enable_monitor(&self, name_or_id: &str) -> (r: Command)
        ensures
            r@ == (CommandView::Enable { ctlname: name_or_id@ }),
    {
        Command::Enable { ctlname: name_or_id.to_owned() }
    }

    /// The commands that switch off every monitor listed before the one
    /// that `name_or_id` stands for; none where it stands for no monitor.
    pub fn only_monitor(&self, name_or_id: &str) -> (r: Option<Vec<Command>>)
        ensures
            same_commands(r, only(self@, name_or_id@)),
    {
        let target = match self.index_from_id_or_name(name_or_id) {
            Some(target) => target,
            None => {
                return None;
            },
        };
        proof {
            lemma_first_where(self@, named(name_or_id@));
            if let Some(id) = small_number(name_or_id@) {
                lemma_first_where(self@, numbered(id));
            }
        }
        let mut list: Vec<Command> = Vec::new();
        let mut at: usize = 0;
        while at < target
            invariant
                at <= target <= self.monitors.len(),
                list.len() == at,
                forall|j: int| 0 <= j < at ==> (#[trigger] list[j])@ == disabled(self@[j]),
            decreases target - at,
        {
            list.push(Command::disable(&self.monitors[at]));
            at = at + 1;
        }
        assert(commands_view(list) =~= self@.take(target as int).map_values(
            |mon: MonitorView| disabled(mon),
        ));
        Some(list)
    }

    /// The command that puts `mon` at (`x`, `y`).
    pub fn change_monitor_pos_x_y(&self, mon: &Monitor, x: i128, y: i128) -> (r: Command)
        ensures
            r@ == placed(mon@, x as int, y as int),
    {
        Command::place(mon, x, y)
    }

    /// The command that moves the monitor that `name_or_id` stands for to
    /// the column `x` and keeps its row; none where it stands for no
    /// monitor.
    pub fn change_monitor_pos_x(&self, name_or_id: &str, x: usize) -> (r: Option<Command>)
        ensures
            same_command(r, shifted(self@, name_or_id@, true, x as int)),
    {
        match self.get_monitor_from_id_or_name(name_or_id) {
            Some(mon) => Some(self.change_monitor_pos_x_y(mon, x as i128, mon.pos.y as i128)),
            None => None,
        }
    }

    /// The command that moves the monitor that `name_or_id` stands for to
    /// the row `y` and keeps its column; none where it stands for no
    /// monitor.
    pub fn change_monitor_pos_y(&self, name_or_id: &str, y: usize) -> (r: Option<Command>)
        ensures
            same_command(r, shifted(self@, name_or_id@, false, y as int)),
    {
        match self.get_monitor_from_id_or_name(name_or_id) {
            Some(mon) => Some(self.change_monitor_pos_x_y(mon, mon.pos.x as i128, y as i128)),
            None => None,
        }
    }
}

/// Where the target stands off the left edge, but no further from it than
/// the moving monitor is wide, the moving monitor alone gets a command: to
/// the row of the target, and to the column of the target less its own
/// width, which is at the edge or beyond it.
pub proof fn lemma_left_of_near(left: MonitorView, right: MonitorView)
    requires
        0 < right.pos.x <= left.res.x,
    ensures
        left_of(left, right) == seq![
            placed(left, right.pos.x - left.res.x, right.pos.y as int),
        ],
        right.pos.x - left.res.x <= 0,
{
}

/// Where the target stands at the left edge, or further from it than the
/// moving monitor is wide, the moving monitor goes to the edge and the
/// target to the end of it, both in the row of the target.
pub proof fn lemma_left_of_far(left: MonitorView, right: MonitorView)
    requires
        right.pos.x == 0 || right.pos.x > left.res.x,
    ensures
        left_of(left, right) == seq![
            placed(left, 0, right.pos.y as int),
            placed(right, left.res.x as int, right.pos.y as int),
        ],
{
}

/// A throw to the left or to the right never leaves the row of the monitor
/// that ends up on the right.
pub proof fn lemma_left_of_keeps_row(left: MonitorView, right: MonitorView, k: int)
    requires
        0 <= k < left_of(left, right).len(),
    ensures
        left_of(left, right)[k] is Geometry,
        left_of(left, right)[k]->y == right.pos.y,
{
}

/// Where the target stands at the upper edge, the moving monitor alone gets
/// a command: to the column of the target, at the height of the target.
pub proof fn lemma_above_at_edge(top: MonitorView, bottom: MonitorView)
    requires
        bottom.pos.y == 0,
    ensures
        above(top, bottom) == seq![placed(top, bottom.pos.x as int, bottom.res.y as int)],
{
}

/// Where the target stands off the upper edge, it goes to the edge first,
/// and the moving monitor to its own height, both in the column of the
/// target.
pub proof fn lemma_above_off_edge(top: MonitorView, bottom: MonitorView)
    requires
        bottom.pos.y != 0,
    ensures
        above(top, bottom) == seq![
            placed(bottom, bottom.pos.x as int, 0),
            placed(top, bottom.pos.x as int, top.res.y as int),
        ],
{
}

/// To throw a monitor to the right of another is to throw the other to the
/// left of it, and to throw it under another is to throw the other above it.
pub proof fn lemma_throw_mirrored(mon: MonitorView, target: MonitorView)
    ensures
        thrown(mon, ThrowDirection::Right, target) == thrown(target, ThrowDirection::Left, mon),
        thrown(mon, ThrowDirection::Under, target) == thrown(target, ThrowDirection::Above, mon),
{
}

/// A throw sends one command or two, each of them a geometry for one of the
/// two monitors.
pub proof fn lemma_throw_touches_both_only(
    mon: MonitorView,
    direction: ThrowDirection,
    target: MonitorView,
    k: int,
)
    requires
        0 <= k < thrown(mon, direction, target).len(),
    ensures
        1 <= thrown(mon, direction, target).len() <= 2,
        thrown(mon, direction, target)[k] is Geometry,
        thrown(mon, direction, target)[k]->Geometry_ctlname == mon.ctlname || thrown(
            mon,
            direction,
            target,
        )[k]->Geometry_ctlname == target.ctlname,
{
}

/// The same throw on the same layout gives the same commands: whatever two
/// calls of `Setup::move_monitor` return on layouts, names and directions
/// that do not differ, does not differ.
pub proof fn lemma_move_repeats(
    first: Setup,
    second: Setup,
    mon_name: Seq<char>,
    direction: ThrowDirection,
    tgt_name: Seq<char>,
    once: Result<Vec<Command>, Unknown>,
    again: Result<Vec<Command>, Unknown>,
)
    requires
        first@ == second@,
        moved_view(once) == moved(first@, mon_name, direction, tgt_name),
        moved_view(again) == moved(second@, mon_name, direction, tgt_name),
    ensures
        moved_view(once) == moved_view(again),
        once is Ok ==> again is Ok && commands_view(once->Ok_0) == commands_view(again->Ok_0),
        once is Err ==> again == once,
{
}

/// Where a monitor of the layout is opened with `only`, every monitor
/// listed before it is switched off, in the order of the layout, and there
/// is no command beyond these.
pub proof fn lemma_only_switches_off_before(layout: Seq<MonitorView>, token: Seq<char>)
    requires
        by_name_or_id(layout, token) is Some,
    ensures
        only(layout, token) is Some,
        0 <= by_name_or_id(layout, token)->0 < layout.len(),
        only(layout, token)->0.len() == by_name_or_id(layout, token)->0,
        forall|j: int|
            0 <= j < by_name_or_id(layout, token)->0 ==> (#[trigger] only(layout, token)->0[j])
                == disabled(layout[j]),
{
    lemma_first_where(layout, named(token));
    if let Some(id) = small_number(token) {
        lemma_first_where(layout, numbered(id));
    }
}

/// In a layout in which no name occurs twice, `only` names neither the
/// monitor that it opens nor any monitor listed after it.
pub proof fn lemma_only_spares_the_rest(
    layout: Seq<MonitorView>,
    token: Seq<char>,
    k: int,
    j: int,
)
    requires
        forall|a: int, b: int|
            0 <= a < b < layout.len() ==> (#[trigger] layout[a]).ctlname != (
            #[trigger] layout[b]).ctlname,
        by_name_or_id(layout, token) is Some,
        0 <= k < by_name_or_id(layout, token)->0 <= j < layout.len(),
    ensures
        only(layout, token)->0[k] != disabled(layout[j]),
{
    lemma_only_switches_off_before(layout, token);
    assert(layout[k].ctlname != layout[j].ctlname);
}

} // verus!
