use monitor_layout::command::Command;
use monitor_layout::direction::ThrowDirection;
use monitor_layout::monitor::{Monitor, Position, Resolution};
use monitor_layout::placement::Unknown;
use monitor_layout::request::{Plan, Refusal, Request};
use monitor_layout::setup::Setup;

fn monitor(name: &str, id: usize, size: (usize, usize), at: (usize, usize)) -> Monitor {
    Monitor {
        ctlname: String::from(name),
        res: Resolution { x: size.0, y: size.1, freq: String::from("60") },
        id,
        pos: Position { x: at.0, y: at.1 },
    }
}

fn geometry(mon: &Monitor, x: i128, y: i128) -> Command {
    Command::Geometry { ctlname: mon.ctlname.clone(), res: mon.res.clone(), x, y }
}

fn off(name: &str) -> Command {
    Command::Disable { ctlname: String::from(name) }
}

fn four() -> Setup {
    Setup {
        monitors: vec![
            monitor("A", 0, (1920, 1080), (0, 0)),
            monitor("B", 1, (2560, 1440), (1920, 0)),
            monitor("C", 2, (1280, 1024), (4480, 0)),
            monitor("D", 3, (800, 600), (5760, 0)),
        ],
    }
}

fn keywords(list: &[Command]) -> Vec<String> {
    list.iter().map(|c| c.keyword()).collect()
}

#[test]
fn left_of_a_target_near_the_edge_moves_the_mover_alone() {
    let setup = four();
    let target = monitor("T", 1, (1000, 1000), (500, 0));
    let mover = monitor("M", 2, (1920, 1080), (3000, 300));
    let list = setup.move_x_left_of_y(&mover, &target);
    assert_eq!(list, vec![geometry(&mover, 500 - 1920, 0)]);
    assert_eq!(keywords(&list), vec!["M,1920x1080@60,-1420x0,1"]);
}

#[test]
fn left_of_a_target_as_far_from_the_edge_as_the_mover_is_wide() {
    let setup = four();
    let target = monitor("T", 1, (1000, 1000), (1920, 40));
    let mover = monitor("M", 2, (1920, 1080), (0, 0));
    assert_eq!(setup.move_x_left_of_y(&mover, &target), vec![geometry(&mover, 0, 40)]);
    let further = monitor("T", 1, (1000, 1000), (1921, 40));
    assert_eq!(
        setup.move_x_left_of_y(&mover, &further),
        vec![geometry(&mover, 0, 40), geometry(&further, 1920, 40)]
    );
    let nearer = monitor("T", 1, (1000, 1000), (1919, 40));
    assert_eq!(setup.move_x_left_of_y(&mover, &nearer), vec![geometry(&mover, -1, 40)]);
}

#[test]
fn left_of_a_target_at_the_edge_moves_both() {
    let setup = four();
    let target = monitor("T", 1, (1000, 1000), (0, 100));
    let mover = monitor("M", 2, (1920, 1080), (3000, 300));
    let list = setup.move_x_left_of_y(&mover, &target);
    assert_eq!(list, vec![geometry(&mover, 0, 100), geometry(&target, 1920, 100)]);
    assert_eq!(keywords(&list), vec!["M,1920x1080@60,0x100,1", "T,1000x1000@60,1920x100,1"]);
}

#[test]
fn above_a_target_at_the_upper_edge_moves_the_mover_alone() {
    let setup = four();
    let target = monitor("T", 1, (1920, 1080), (300, 0));
    let mover = monitor("M", 2, (1280, 1024), (0, 0));
    assert_eq!(setup.move_x_above_y(&mover, &target), vec![geometry(&mover, 300, 1080)]);
}

#[test]
fn above_a_target_off_the_upper_edge_moves_both() {
    let setup = four();
    let target = monitor("T", 1, (1920, 1080), (300, 1080));
    let mover = monitor("M", 2, (1280, 1024), (0, 0));
    assert_eq!(
        setup.move_x_above_y(&mover, &target),
        vec![geometry(&target, 300, 0), geometry(&mover, 300, 1024)]
    );
}

#[test]
fn only_switches_off_what_is_listed_before() {
    let setup = four();
    assert_eq!(setup.only_monitor("C"), Some(vec![off("A"), off("B")]));
    assert_eq!(setup.only_monitor("A"), Some(vec![]));
    assert_eq!(setup.only_monitor("D"), Some(vec![off("A"), off("B"), off("C")]));
    assert_eq!(setup.only_monitor("2"), Some(vec![off("A"), off("B")]));
    assert_eq!(setup.only_monitor("E"), None);
}

#[test]
fn a_name_goes_before_a_number() {
    let setup = Setup {
        monitors: vec![
            monitor("HDMI", 1, (1, 1), (0, 0)),
            monitor("1", 5, (2, 2), (0, 0)),
            monitor("5", 0, (3, 3), (0, 0)),
        ],
    };
    assert_eq!(setup.get_monitor_from_id_or_name("1"), Some(&setup.monitors[1]));
    assert_eq!(setup.get_monitor_from_id("1"), Some(&setup.monitors[0]));
    assert_eq!(setup.get_monitor_from_name("1"), Some(&setup.monitors[1]));
    assert_eq!(setup.get_monitor_from_id_or_name("5"), Some(&setup.monitors[2]));
    assert_eq!(setup.get_monitor_from_id_or_name("0"), Some(&setup.monitors[2]));
    assert_eq!(setup.index_from_id_or_name("1"), Some(1));
    assert_eq!(setup.index_from_id("5"), Some(1));
    assert_eq!(setup.index_from_name("HDMI"), Some(0));
}

#[test]
fn the_first_match_wins() {
    let setup = Setup {
        monitors: vec![
            monitor("X", 7, (1, 1), (0, 0)),
            monitor("X", 8, (2, 2), (0, 0)),
            monitor("Y", 7, (3, 3), (0, 0)),
        ],
    };
    assert_eq!(setup.index_from_name("X"), Some(0));
    assert_eq!(setup.index_from_id("7"), Some(0));
    assert_eq!(setup.index_from_id("8"), Some(1));
    assert_eq!(setup.index_from_id("+8"), Some(1));
    assert_eq!(setup.index_from_id("008"), Some(1));
}

#[test]
fn lookups_that_find_nothing() {
    let setup = four();
    assert_eq!(setup.get_monitor_from_name("a"), None);
    assert_eq!(setup.get_monitor_from_name(""), None);
    assert_eq!(setup.get_monitor_from_id("4"), None);
    assert_eq!(setup.get_monitor_from_id("A"), None);
    assert_eq!(setup.get_monitor_from_id(""), None);
    assert_eq!(setup.get_monitor_from_id("-1"), None);
    assert_eq!(setup.get_monitor_from_id_or_name("Z"), None);
    let none = Setup { monitors: vec![] };
    assert_eq!(none.get_monitor_from_id_or_name("0"), None);
}

#[test]
fn the_same_move_gives_the_same_commands() {
    let setup = four();
    let once = setup.move_monitor("C", ThrowDirection::Left, "B");
    let again = setup.move_monitor("C", ThrowDirection::Left, "B");
    assert_eq!(once, again);
    let c = &setup.monitors[2];
    let b = &setup.monitors[1];
    assert_eq!(once, Ok(vec![geometry(c, 0, 0), geometry(b, 1280, 0)]));
}

#[test]
fn right_and_under_swap_the_monitors() {
    let setup = four();
    let a = &setup.monitors[0];
    let b = &setup.monitors[1];
    assert_eq!(
        setup.move_monitor("A", ThrowDirection::Right, "B"),
        setup.move_monitor("B", ThrowDirection::Left, "A")
    );
    assert_eq!(
        setup.move_monitor("A", ThrowDirection::Right, "B"),
        Ok(vec![geometry(b, 0, 0), geometry(a, 2560, 0)])
    );
    assert_eq!(
        setup.move_monitor("A", ThrowDirection::Under, "1"),
        setup.move_monitor("1", ThrowDirection::Above, "A")
    );
    assert_eq!(
        setup.move_monitor("A", ThrowDirection::Under, "B"),
        Ok(vec![geometry(b, 0, 1080)])
    );
    assert_eq!(
        setup.move_monitor("A", ThrowDirection::Above, "B"),
        Ok(vec![geometry(a, 1920, 1440)])
    );
    assert_eq!(
        setup.move_monitor("B", ThrowDirection::Left, "C"),
        Ok(vec![geometry(b, 0, 0), geometry(&setup.monitors[2], 2560, 0)])
    );
    assert_eq!(
        setup.move_monitor("D", ThrowDirection::Left, "B"),
        Ok(vec![geometry(&setup.monitors[3], 0, 0), geometry(b, 800, 0)])
    );
    assert_eq!(
        setup.move_monitor("B", ThrowDirection::Left, "0"),
        Ok(vec![geometry(b, 0, 0), geometry(a, 2560, 0)])
    );
}

#[test]
fn a_move_says_which_name_is_unknown() {
    let setup = four();
    assert_eq!(setup.move_monitor("Z", ThrowDirection::Left, "B"), Err(Unknown::Monitor));
    assert_eq!(setup.move_monitor("A", ThrowDirection::Left, "Z"), Err(Unknown::Target));
    assert_eq!(setup.move_monitor("Y", ThrowDirection::Left, "Z"), Err(Unknown::Monitor));
}

#[test]
fn one_coordinate_is_set_and_the_other_kept() {
    let setup = four();
    let c = &setup.monitors[2];
    assert_eq!(setup.change_monitor_pos_x("C", 100), Some(geometry(c, 100, 0)));
    assert_eq!(setup.change_monitor_pos_y("C", 100), Some(geometry(c, 4480, 100)));
    assert_eq!(setup.change_monitor_pos_y("2", 0), Some(geometry(c, 4480, 0)));
    assert_eq!(setup.change_monitor_pos_x("Z", 100), None);
    assert_eq!(setup.change_monitor_pos_y("Z", 100), None);
    assert_eq!(setup.change_monitor_pos_x_y(c, -5, 7), geometry(c, -5, 7));
    assert_eq!(
        setup.change_monitor_pos_x("C", usize::MAX).unwrap().keyword(),
        format!("C,1280x1024@60,{}x0,1", usize::MAX)
    );
}

#[test]
fn switching_off_looks_the_monitor_up() {
    let setup = four();
    assert_eq!(setup.disable_monitor("B"), Some(off("B")));
    assert_eq!(setup.disable_monitor("3"), Some(off("D")));
    assert_eq!(setup.disable_monitor("Z"), None);
}

#[test]
fn switching_on_takes_the_name_as_it_is() {
    let setup = four();
    assert_eq!(setup.enable_monitor("Z"), Command::Enable { ctlname: String::from("Z") });
    assert_eq!(setup.enable_monitor("1"), Command::Enable { ctlname: String::from("1") });
    assert_eq!(setup.enable_monitor("Z").keyword(), "Z,preferred,auto,1");
}

#[test]
fn commands_are_written_for_the_control_tool() {
    let mon = Monitor {
        ctlname: String::from("eDP-1"),
        res: Resolution { x: 1920, y: 1080, freq: String::from("60.001") },
        id: 0,
        pos: Position { x: 0, y: 0 },
    };
    assert_eq!(Command::place(&mon, 1920, 0).keyword(), "eDP-1,1920x1080@60.001,1920x0,1");
    assert_eq!(Command::place(&mon, -10, 20).keyword(), "eDP-1,1920x1080@60.001,-10x20,1");
    assert_eq!(Command::disable(&mon).keyword(), "eDP-1,disable");
    assert_eq!(Command::disable(&mon), off("eDP-1"));
}

#[test]
fn directions_are_read_whatever_the_case() {
    assert_eq!(ThrowDirection::from_str("left"), Some(ThrowDirection::Left));
    assert_eq!(ThrowDirection::from_str("RIGHT"), Some(ThrowDirection::Right));
    assert_eq!(ThrowDirection::from_str("aBoVe"), Some(ThrowDirection::Above));
    assert_eq!(ThrowDirection::from_str("Under"), Some(ThrowDirection::Under));
    assert_eq!(ThrowDirection::from_str(""), None);
    assert_eq!(ThrowDirection::from_str("lef"), None);
    assert_eq!(ThrowDirection::from_str("lefty"), None);
    assert_eq!(ThrowDirection::from_str(" left"), None);
    assert_eq!(ThrowDirection::from_str("below"), None);
    assert_eq!(ThrowDirection::from_str("l\u{212A}ft"), None);
    assert_eq!(ThrowDirection::from_str("r\u{130}ght"), None);
    assert_eq!(ThrowDirection::from_str("un\u{110}er"), None);
}

#[test]
fn directions_read_as_lowercase_reads_them() {
    for word in ["left", "LEFT", "Right", "rIGHT", "ABOVE", "under", "UNDEr", "up", "", "ŁEFT"] {
        let want = match word.to_lowercase().as_str() {
            "left" => Some(ThrowDirection::Left),
            "right" => Some(ThrowDirection::Right),
            "above" => Some(ThrowDirection::Above),
            "under" => Some(ThrowDirection::Under),
            _ => None,
        };
        assert_eq!(ThrowDirection::from_str(word), want, "{:?}", word);
    }
}

fn request(monitor: Option<&str>) -> Request {
    Request {
        monitor: monitor.map(String::from),
        target: None,
        throw: None,
        disable: false,
        enable: false,
        only: false,
        x: None,
        y: None,
    }
}

#[test]
fn without_a_monitor_the_layout_is_shown() {
    let setup = four();
    let mut r = request(None);
    r.disable = true;
    r.throw = Some(String::from("left"));
    r.target = Some(String::from("B"));
    assert_eq!(setup.plan(&r), Plan::Show);
}

#[test]
fn with_a_monitor_alone_nothing_is_sent() {
    let setup = four();
    assert_eq!(setup.plan(&request(Some("A"))), Plan::Send(vec![]));
    assert_eq!(setup.plan(&request(Some("Z"))), Plan::Send(vec![]));
}

#[test]
fn a_throw_goes_before_every_other_option() {
    let setup = four();
    let mut r = request(Some("C"));
    r.throw = Some(String::from("Left"));
    r.target = Some(String::from("B"));
    r.disable = true;
    r.enable = true;
    r.only = true;
    r.x = Some(5);
    r.y = Some(6);
    assert_eq!(setup.plan(&r), Plan::Send(setup.move_monitor("C", ThrowDirection::Left, "B").unwrap()));
    assert_eq!(setup.plan(&r), setup.plan_throw("C", "Left", "B"));
}

#[test]
fn a_throw_takes_a_side_and_a_target() {
    let setup = four();
    let mut r = request(Some("C"));
    r.throw = Some(String::from("left"));
    r.disable = true;
    assert_eq!(setup.plan(&r), Plan::Send(vec![off("C")]));
    let mut r = request(Some("C"));
    r.target = Some(String::from("B"));
    r.x = Some(9);
    assert_eq!(setup.plan(&r), Plan::Send(vec![geometry(&setup.monitors[2], 9, 0)]));
}

#[test]
fn a_throw_that_cannot_be_made_is_refused() {
    let setup = four();
    assert_eq!(setup.plan_throw("A", "sideways", "B"), Plan::Refuse(Refusal::InvalidDirection));
    assert_eq!(setup.plan_throw("A", "sideways", "A"), Plan::Refuse(Refusal::InvalidDirection));
    assert_eq!(setup.plan_throw("A", "left", "A"), Plan::Refuse(Refusal::SameTarget));
    assert_eq!(setup.plan_throw("Z", "left", "Z"), Plan::Refuse(Refusal::SameTarget));
    assert_eq!(
        setup.plan_throw("Z", "left", "A"),
        Plan::Refuse(Refusal::Unresolved(Unknown::Monitor))
    );
    assert_eq!(
        setup.plan_throw("A", "left", "Z"),
        Plan::Refuse(Refusal::Unresolved(Unknown::Target))
    );
    assert_eq!(
        setup.plan_throw("A", "under", "0"),
        Plan::Send(setup.move_monitor("A", ThrowDirection::Under, "0").unwrap())
    );
}

#[test]
fn options_count_in_their_order() {
    let setup = four();
    let mut r = request(Some("C"));
    r.y = Some(6);
    assert_eq!(setup.plan(&r), Plan::Send(vec![geometry(&setup.monitors[2], 4480, 6)]));
    r.x = Some(5);
    assert_eq!(setup.plan(&r), Plan::Send(vec![geometry(&setup.monitors[2], 5, 0)]));
    r.only = true;
    assert_eq!(setup.plan(&r), Plan::Send(vec![off("A"), off("B")]));
    r.enable = true;
    assert_eq!(setup.plan(&r), Plan::Send(vec![Command::Enable { ctlname: String::from("C") }]));
    r.disable = true;
    assert_eq!(setup.plan(&r), Plan::Send(vec![off("C")]));
}

#[test]
fn a_missing_monitor_is_reported() {
    let setup = four();
    let mut r = request(Some("Z"));
    r.y = Some(6);
    assert_eq!(setup.plan(&r), Plan::Refuse(Refusal::NotFound));
    r.y = None;
    r.x = Some(6);
    assert_eq!(setup.plan(&r), Plan::Refuse(Refusal::NotFound));
    r.x = None;
    r.only = true;
    assert_eq!(setup.plan(&r), Plan::Refuse(Refusal::NotFound));
    r.only = false;
    r.disable = true;
    assert_eq!(setup.plan(&r), Plan::Refuse(Refusal::NotFound));
    r.disable = false;
    r.enable = true;
    assert_eq!(setup.plan(&r), Plan::Send(vec![Command::Enable { ctlname: String::from("Z") }]));
}

#[test]
fn a_layout_that_was_read_can_be_rearranged() {
    let text = "Monitor eDP-1 (ID 0):\n\t1920x1080@60.00100 at 0x0\n\n\
                Monitor DP-2 (ID 1):\n\t2560x1440@143.99800 at 1920x0\n\n\n";
    let setup = Setup::new(text).unwrap();
    let list = setup.move_monitor("DP-2", ThrowDirection::Left, "0").unwrap();
    assert_eq!(
        keywords(&list),
        vec!["DP-2,2560x1440@143.99800,0x0,1", "eDP-1,1920x1080@60.00100,2560x0,1"]
    );
    let list = setup.move_monitor("eDP-1", ThrowDirection::Left, "DP-2").unwrap();
    assert_eq!(keywords(&list), vec!["eDP-1,1920x1080@60.00100,0x0,1"]);
    let list = setup.move_monitor("0", ThrowDirection::Above, "1").unwrap();
    assert_eq!(keywords(&list), vec!["eDP-1,1920x1080@60.00100,1920x1440,1"]);
}

#[test]
fn a_throw_to_the_side_keeps_the_row_of_the_right_monitor() {
    let setup = four();
    for x in [0usize, 1, 1919, 1920, 1921, 5000] {
        let target = monitor("T", 1, (1000, 1000), (x, 77));
        let mover = monitor("M", 2, (1920, 1080), (3000, 300));
        for command in setup.move_x_left_of_y(&mover, &target) {
            match command {
                Command::Geometry { y, .. } => assert_eq!(y, 77),
                other => panic!("{:?}", other),
            }
        }
    }
}

#[test]
fn what_is_found_has_the_name_or_the_number() {
    let setup = four();
    for token in ["A", "B", "0", "3", "03", "+2", "D"] {
        let mon = setup.get_monitor_from_id_or_name(token).unwrap();
        assert!(mon.ctlname == token || token.parse::<usize>().ok() == Some(mon.id));
    }
}
