use vstd::prelude::*;

use crate::components::{area_of, remembers, watched, Component, DisplayAreaType};
use crate::dbus::{BusType, DBusPropertyAdress, DBusProxyAdress};
use crate::state::{ApplicationState, StateValue};

verus! {

/// Number of panels the application drives.
pub const DISPLAY_COUNT: usize = 3;

fn text(s: &str) -> (r: String)
    ensures
        r@ == s@,
{
    let r = s.to_string();
    proof {
        vstd::string::to_string_from_display_ensures_for_str(s, r);
    }
    r
}

fn property(bus: BusType, dest: &str, path: &str, interface: &str, name: &str) -> (r:
    DBusPropertyAdress)
    ensures
        r.proxy.bus == bus,
        r.proxy.dest@ == dest@,
        r.proxy.path@ == path@,
        r.interface@ == interface@,
        r.property@ == name@,
{
    DBusPropertyAdress::new(DBusProxyAdress::new(bus, text(dest), text(path)), text(interface), text(name))
}

/// The keys of the application state.
pub open spec fn state_keys() -> Seq<Seq<char>> {
    seq![
        "backlight:brightness"@,
        "player:volume"@,
        "battery:level"@,
        "battery:state"@,
        "wifi:state"@,
        "wifi:strength"@,
        "eth:state"@,
        "workspace:active"@,
        "workspace:count"@,
        "rear-image-path"@,
    ]
}

/// The application state as it starts: every key present, none holding a
/// value yet; brightness, volume and battery are fed by bus properties.
pub fn build_state_map() -> (r: ApplicationState)
    ensures
        r.wf(),
        forall|i: int| 0 <= i < state_keys().len() ==> #[trigger] r.has(state_keys()[i]),
        forall|i: int| 0 <= i < state_keys().len() ==> #[trigger] r.value_of(state_keys()[i]) is None,
        forall|i: int| 0 <= i < 4 ==> #[trigger] r.entry(state_keys()[i]).dbus_property is Some,
        forall|i: int| 4 <= i < state_keys().len() ==> #[trigger] r.entry(state_keys()[i]).dbus_property is None,
        forall|k: Seq<char>| #[trigger] r.has(k) ==> state_keys().contains(k),
{
    let mut map = ApplicationState::new();
    proof {
        reveal_strlit("backlight:brightness");
        reveal_strlit("player:volume");
        reveal_strlit("battery:level");
        reveal_strlit("battery:state");
        reveal_strlit("wifi:state");
        reveal_strlit("wifi:strength");
        reveal_strlit("eth:state");
        reveal_strlit("workspace:active");
        reveal_strlit("workspace:count");
        reveal_strlit("rear-image-path");
        // The keys are distinct: a character where they differ, for each pair that needs it.
        assert("player:volume"@[0] != "battery:level"@[0]);
        assert("player:volume"@[0] != "battery:state"@[0]);
        assert("player:volume"@[0] != "wifi:strength"@[0]);
        assert("battery:level"@[8] != "battery:state"@[8]);
        assert("battery:level"@[0] != "wifi:strength"@[0]);
        assert("battery:state"@[0] != "wifi:strength"@[0]);
        assert("workspace:count"@[0] != "rear-image-path"@[0]);
        assert("wifi:state"@[0] != "backlight:brightness"@[0]);
        assert("wifi:state"@[0] != "player:volume"@[0]);
        assert("wifi:state"@[0] != "battery:level"@[0]);
        assert("wifi:state"@[0] != "battery:state"@[0]);
        assert("eth:state"@[0] != "backlight:brightness"@[0]);
        assert("eth:state"@[0] != "player:volume"@[0]);
        assert("eth:state"@[0] != "battery:level"@[0]);
        assert("eth:state"@[0] != "battery:state"@[0]);
        assert("workspace:active"@[0] != "backlight:brightness"@[0]);
        assert("workspace:active"@[0] != "player:volume"@[0]);
        assert("workspace:active"@[0] != "battery:level"@[0]);
        assert("workspace:active"@[0] != "battery:state"@[0]);
    }
    map.insert(text("wifi:state"), StateValue::new(None));
    map.insert(text("wifi:strength"), StateValue::new(None));
    map.insert(text("eth:state"), StateValue::new(None));
    map.insert(text("workspace:active"), StateValue::new(None));
    map.insert(text("workspace:count"), StateValue::new(None));
    map.insert(text("rear-image-path"), StateValue::new(None));
    map.insert(
        text("backlight:brightness"),
        StateValue::dbus(
            property(
                BusType::Session,
                "org.gnome.SettingsDaemon.Power",
                "/org/gnome/SettingsDaemon/Power",
                "org.gnome.SettingsDaemon.Power.Screen",
                "Brightness",
            ),
        ),
    );
    map.insert(
        text("player:volume"),
        StateValue::dbus(
            property(
                BusType::Session,
                "org.mpris.MediaPlayer2.playerctld",
                "/org/mpris/MediaPlayer2",
                "org.mpris.MediaPlayer2.Player",
                "Volume",
            ),
        ),
    );
    map.insert(
        text("battery:level"),
        StateValue::dbus(
            property(
                BusType::System,
                "org.freedesktop.UPower",
                "/org/freedesktop/UPower/devices/battery_BAT1",
                "org.freedesktop.UPower.Device",
                "Percentage",
            ),
        ),
    );
    map.insert(
        text("battery:state"),
        StateValue::dbus(
            property(
                BusType::System,
                "org.freedesktop.UPower",
                "/org/freedesktop/UPower/devices/battery_BAT1",
                "org.freedesktop.UPower.Device",
                "State",
            ),
        ),
    );
    proof {
        assert forall|k: Seq<char>| #[trigger] map.has(k) implies state_keys().contains(k) by {
            if !state_keys().contains(k) {
                assert forall|i: int| 0 <= i < state_keys().len() implies state_keys()[i] != k by {
                    if state_keys()[i] == k {
                        assert(state_keys().contains(k));
                    }
                }
                assert(k != state_keys()[0]);
                assert(k != state_keys()[1]);
                assert(k != state_keys()[2]);
                assert(k != state_keys()[3]);
                assert(k != state_keys()[4]);
                assert(k != state_keys()[5]);
                assert(k != state_keys()[6]);
                assert(k != state_keys()[7]);
                assert(k != state_keys()[8]);
                assert(k != state_keys()[9]);
            }
        }
    }
    map
}

/// The components that the application shows, in registration order.
pub open spec fn ui_layout() -> Seq<(u8, DisplayAreaType)> {
    seq![
        (0u8, DisplayAreaType::Dialog),
        (1u8, DisplayAreaType::Dialog),
        (0u8, DisplayAreaType::Icon(50, 50)),
        (0u8, DisplayAreaType::Icon(50, 50)),
        (0u8, DisplayAreaType::Icon(50, 50)),
        (0u8, DisplayAreaType::Icon(50, 50)),
        (1u8, DisplayAreaType::Fullscreen),
        (2u8, DisplayAreaType::Fullscreen),
    ]
}

/// The names of the application's components, in registration order.
pub open spec fn ui_names() -> Seq<Seq<char>> {
    seq![
        "brightness dialog"@,
        "player volume dialog"@,
        "Arch Icon"@,
        "Weed Icon"@,
        "Battery Icon"@,
        "Wifi Icon"@,
        "Background 1"@,
        "Background 2.5"@,
    ]
}

/// The keys each of the application's components reads, in registration order.
pub open spec fn ui_watched() -> Seq<Seq<Seq<char>>> {
    seq![
        seq!["backlight:brightness"@],
        seq!["player:volume"@],
        Seq::empty(),
        Seq::empty(),
        seq!["battery:level"@, "battery:state"@],
        seq!["wifi:state"@, "wifi:strength"@],
        Seq::empty(),
        seq!["rear-image-path"@],
    ]
}

/// Registers the application's components, remembering the values of `state`:
/// a brightness dialog and a volume dialog, two fixed icons, a battery icon
/// and a wifi icon, a fixed background and a background image chosen by
/// `rear-image-path`.
pub fn make_ui_components(state: &ApplicationState) -> (r: Vec<Component>)
    requires
        state.wf(),
    ensures
        r@.len() == ui_layout().len(),
        forall|i: int| 0 <= i < r@.len() ==> (#[trigger] r@[i].display, area_of(r@[i])) == ui_layout()[i],
        forall|i: int| 0 <= i < r@.len() ==> #[trigger] r@[i].name@ == ui_names()[i],
        forall|i: int| 0 <= i < r@.len() ==> #[trigger] watched(r@[i]) == ui_watched()[i],
        forall|i: int| 0 <= i < r@.len() ==> #[trigger] remembers(r@[i], *state),
{
    let mut ui: Vec<Component> = Vec::new();
    ui.push(Component::bar_dialog(text("brightness dialog"), text("backlight:brightness"), 0, state));
    ui.push(Component::bar_dialog(text("player volume dialog"), text("player:volume"), 1, state));
    ui.push(Component::simple_item(text("Arch Icon"), 0));
    ui.push(Component::simple_item(text("Weed Icon"), 0));
    let mut battery: Vec<String> = Vec::new();
    battery.push(text("battery:level"));
    battery.push(text("battery:state"));
    ui.push(Component::state_item(text("Battery Icon"), battery, 0, state));
    let mut wifi: Vec<String> = Vec::new();
    wifi.push(text("wifi:state"));
    wifi.push(text("wifi:strength"));
    ui.push(Component::state_item(text("Wifi Icon"), wifi, 0, state));
    ui.push(Component::static_image(text("Background 1"), 1));
    ui.push(Component::loading_image(text("Background 2.5"), 2, text("rear-image-path"), state));
    assert(ui@.len() == 8);
    proof {
        assert(watched(ui@[4]) =~= ui_watched()[4]);
        assert(watched(ui@[5]) =~= ui_watched()[5]);
        assert(watched(ui@[2]) =~= ui_watched()[2]);
        assert(watched(ui@[3]) =~= ui_watched()[3]);
        assert(watched(ui@[6]) =~= ui_watched()[6]);
    }
    ui
}

} // verus!
