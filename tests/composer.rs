use tagdriver::components::{Component, DisplayAreaType, Rect};
use tagdriver::canvas::Canvas;
use tagdriver::color::BWRColor;
use tagdriver::config::{build_state_map, make_ui_components};
use tagdriver::composer::{canvas_size, compose_order, composite_pass, draw_order, placements};
use tagdriver::framebuffer::{BWRDisplay, DisplayFlip, DisplayRotation};
use tagdriver::scheduler::{arm_deadline, expire_deadlines, mark_dirty};
use tagdriver::state::{ApplicationState, StateValue, StateValueType};

fn state_with_volume(v: u64) -> ApplicationState {
    let mut st = ApplicationState::new();
    st.insert("player:volume".to_string(), StateValue::new(Some(StateValueType::U64(v))));
    st.insert("workspace:active".to_string(), StateValue::new(Some(StateValueType::U64(0))));
    st.insert("workspace:count".to_string(), StateValue::new(Some(StateValueType::U64(3))));
    st
}

#[test]
fn zero_priority_is_dropped_and_ties_keep_registration_order() {
    let order = draw_order(&vec![5, 0, 3, 3], &vec![false; 4]);
    assert_eq!(order, vec![0, 2, 3]);
}

#[test]
fn highest_priority_is_composited_last() {
    let order = draw_order(&vec![5, 0, 3, 3], &vec![false; 4]);
    let mut back_to_front = order.clone();
    back_to_front.reverse();
    assert_eq!(*back_to_front.last().unwrap(), 0);
}

#[test]
fn dialog_hides_everything_beneath_it() {
    let order = draw_order(&vec![10, 100, 20, 200], &vec![false, true, false, false]);
    assert_eq!(order, vec![3, 1]);
}

#[test]
fn nothing_shown_gives_empty_order() {
    assert!(draw_order(&vec![0, 0], &vec![true, false]).is_empty());
    assert!(draw_order(&vec![], &vec![]).is_empty());
}

#[test]
fn dialog_priority_follows_the_watched_value() {
    let initial = state_with_volume(40);
    let dialog = Component::bar_dialog("volume".to_string(), "player:volume".to_string(), 1, &initial);
    assert_eq!(dialog.get_z_index(&initial, 0), 0);
    let changed = state_with_volume(41);
    assert_eq!(dialog.get_z_index(&changed, 0), 100);
    let empty = ApplicationState::new();
    assert_eq!(dialog.get_z_index(&empty, 0), 0);
}

#[test]
fn drawn_dialog_stays_open_then_closes() {
    let initial = state_with_volume(40);
    let mut dialog =
        Component::bar_dialog("volume".to_string(), "player:volume".to_string(), 1, &initial);
    let changed = state_with_volume(41);
    assert!(dialog.needs_refresh(&changed));
    dialog.note_drawn(&changed, 1000);
    assert!(!dialog.needs_refresh(&changed));
    assert_eq!(dialog.get_z_index(&changed, 2000), 90);
    assert_eq!(dialog.get_refresh_at(2000), Some(6000));
    assert_eq!(dialog.get_z_index(&changed, 6000), 0);
    assert_eq!(dialog.get_refresh_at(6000), None);
}

#[test]
fn one_update_marks_exactly_the_displays_hosting_the_watcher() {
    let initial = state_with_volume(40);
    let components = vec![
        Component::simple_item("logo".to_string(), 0),
        Component::bar_dialog("volume".to_string(), "player:volume".to_string(), 1, &initial),
        Component::static_image("background".to_string(), 2),
        Component::workspace_indicator(
            "workspaces".to_string(),
            0,
            Rect { x: 0, y: 60, width: 250, height: 40 },
            "workspace:active".to_string(),
            "workspace:count".to_string(),
            &initial,
        ),
    ];
    assert_eq!(mark_dirty(&components, &initial, 3), vec![false, false, false]);
    let updated = state_with_volume(55);
    assert_eq!(mark_dirty(&components, &updated, 3), vec![false, true, false]);
}

#[test]
fn compose_order_picks_the_display_and_stops_at_the_dialog() {
    let initial = state_with_volume(40);
    let components = vec![
        Component::static_image("background".to_string(), 1),
        Component::simple_item("logo".to_string(), 0),
        Component::bar_dialog("volume".to_string(), "player:volume".to_string(), 1, &initial),
        Component::simple_item("icon".to_string(), 1),
    ];
    let (members, order) = compose_order(&components, 1, &initial, 0);
    assert_eq!(members, vec![0, 2, 3]);
    assert_eq!(order, vec![2, 0]);

    let changed = state_with_volume(70);
    let (members, order) = compose_order(&components, 1, &changed, 0);
    assert_eq!(members, vec![0, 2, 3]);
    assert_eq!(order, vec![1]);
    assert_eq!(components[members[order[0]]].get_type(), DisplayAreaType::Dialog);
}

#[test]
fn icons_are_centred_in_a_row() {
    let rect = Rect { x: 5, y: 60, width: 100, height: 20 };
    let kinds = vec![
        DisplayAreaType::Fullscreen,
        DisplayAreaType::Icon(50, 50),
        DisplayAreaType::DisplayArea(rect),
        DisplayAreaType::Icon(50, 50),
        DisplayAreaType::Dialog,
    ];
    assert_eq!(
        placements(&kinds, 250),
        vec![(0, 0), (75, 10), (5, 60), (125, 10), (0, 0)]
    );
    assert_eq!(placements(&vec![DisplayAreaType::Icon(300, 50)], 250), vec![(0, 10)]);
}

#[test]
fn elapsed_deadline_forces_redraw_and_clears() {
    let mut deadlines = vec![Some(100), Some(200), None];
    let mut dirty = vec![false, false, false];
    expire_deadlines(&mut deadlines, &mut dirty, 100);
    assert_eq!(deadlines, vec![None, Some(200), None]);
    assert_eq!(dirty, vec![true, false, false]);
}

#[test]
fn nearer_wake_time_wins() {
    assert_eq!(arm_deadline(Some(500), Some(300)), Some(300));
    assert_eq!(arm_deadline(Some(300), Some(500)), Some(300));
    assert_eq!(arm_deadline(None, Some(500)), Some(500));
    assert_eq!(arm_deadline(Some(7), None), Some(7));
    assert_eq!(arm_deadline(None, None), None);
}

#[test]
fn canvas_sizes_follow_area_kinds() {
    assert_eq!(canvas_size(DisplayAreaType::Icon(50, 40), 250, 122), (50, 40));
    assert_eq!(canvas_size(DisplayAreaType::Fullscreen, 250, 122), (250, 122));
    assert_eq!(canvas_size(DisplayAreaType::Dialog, 400, 300), (400, 300));
    let rect = Rect { x: 3, y: 4, width: 30, height: 20 };
    assert_eq!(canvas_size(DisplayAreaType::DisplayArea(rect), 250, 122), (30, 20));
}

#[test]
fn best_ranked_canvas_ends_on_top() {
    let mut top = Canvas::new(8, 8);
    top.set_pixel(2, 2, BWRColor::Red);
    let mut below = Canvas::new(8, 8);
    below.set_pixel(2, 2, BWRColor::On);
    below.set_pixel(5, 5, BWRColor::On);
    let mut d = BWRDisplay::new(8, 8, DisplayRotation::Zero, DisplayFlip::NoFlip);
    composite_pass(
        &mut d,
        &vec![top, below],
        &vec![DisplayAreaType::Dialog, DisplayAreaType::Fullscreen],
    );
    assert_eq!(d.raw()[2 * 8 + 2], 2);
    assert_eq!(d.raw()[5 * 8 + 5], 1);
}

#[test]
fn application_components_are_registered_in_order() {
    let state = build_state_map();
    let ui = make_ui_components(&state);
    let names: Vec<&str> = ui.iter().map(|c| c.name.as_str()).collect();
    assert_eq!(
        names,
        vec![
            "brightness dialog",
            "player volume dialog",
            "Arch Icon",
            "Weed Icon",
            "Battery Icon",
            "Wifi Icon",
            "Background 1",
            "Background 2.5",
        ]
    );
    let displays: Vec<u8> = ui.iter().map(|c| c.get_display()).collect();
    assert_eq!(displays, vec![0, 1, 0, 0, 0, 0, 1, 2]);
    assert_eq!(ui[0].get_type(), DisplayAreaType::Dialog);
    assert_eq!(ui[1].get_type(), DisplayAreaType::Dialog);
    assert_eq!(ui[7].get_type(), DisplayAreaType::Fullscreen);
}

#[test]
fn starting_state_has_exactly_the_application_keys() {
    let state = build_state_map();
    for key in [
        "backlight:brightness",
        "player:volume",
        "battery:level",
        "battery:state",
        "wifi:state",
        "wifi:strength",
        "eth:state",
        "workspace:active",
        "workspace:count",
        "rear-image-path",
    ] {
        assert!(state.contains_key(key));
        assert_eq!(state.get(key), None);
    }
    assert!(!state.contains_key("battery:health"));
}
