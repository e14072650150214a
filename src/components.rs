use vstd::prelude::*;

use crate::state::{
    duplicate_opt, same_opt, same_opt_exec, same_value, ApplicationState, StateValueType,
};

verus! {

/// How long a dialog stays open after its value changed, in milliseconds.
pub const OPEN_TIME_MS: u64 = 5000;

/// Priority of a dialog whose value just changed.
pub const CHANGED_PRIORITY: u32 = 100;

/// Priority of a dialog that is still open.
pub const OPEN_PRIORITY: u32 = 90;

/// Priority of icons.
pub const ICON_PRIORITY: u32 = 20;

/// Priority of backgrounds and indicators.
pub const BACKGROUND_PRIORITY: u32 = 10;

/// Side of an icon's square, in pixels.
pub const ICON_SIZE: u32 = 50;

/// Whether a redraw clears ghosting or only updates what changed.
#[derive(Clone, Copy, Debug, PartialEq, Eq, Structural)]
pub enum RefreshType {
    Full,
    Partial,
}

/// An explicit rectangle of a display.
#[derive(Clone, Copy, Debug, PartialEq, Eq, Structural)]
pub struct Rect {
    pub x: i32,
    pub y: i32,
    pub width: u32,
    pub height: u32,
}

/// The area a component draws into.
#[derive(Clone, Copy, Debug, PartialEq, Eq, Structural)]
pub enum DisplayAreaType {
    /// A fixed-size icon, placed in the row of icons.
    Icon(u32, u32),
    /// The whole display; stays shown.
    Fullscreen,
    /// The whole display, shown for a while after a change; hides all beneath it.
    Dialog,
    /// An explicit rectangle.
    DisplayArea(Rect),
}

/// What a component is and what it remembers of the state it last drew.
#[derive(Clone, Debug)]
pub enum ComponentKind {
    /// A pop-up bar for one numeric value, shown when the value changes.
    BarDialog { property: String, close_at: u64, old_value: Option<StateValueType> },
    /// An icon that depends on several values.
    StateItem { properties: Vec<String>, old_values: Vec<Option<StateValueType>> },
    /// A row of dots showing the active workspace.
    WorkspaceIndicator {
        area: Rect,
        active_property: String,
        count_property: String,
        old_active: Option<StateValueType>,
        old_count: Option<StateValueType>,
    },
    /// A fixed icon.
    SimpleItem,
    /// A fixed background image.
    StaticImage,
    /// A background image named by a state value.
    LoadingImage { property: String, loaded: String, old_value: Option<StateValueType> },
}

/// A drawable unit assigned to one display.
#[derive(Clone, Debug)]
pub struct Component {
    pub name: String,
    pub display: u8,
    pub kind: ComponentKind,
}

/// `old` is a present value equal to `new`.
pub open spec fn unchanged(old: Option<StateValueType>, new: StateValueType) -> bool {
    match old {
        Some(o) => same_value(o, new),
        None => false,
    }
}

/// The component's priority on a state at time `now`: 0 means not shown.
/// A dialog has 100 while its value differs from the last one drawn, 90
/// while it is open, 0 otherwise or when its key holds nothing. Every other
/// component has a fixed priority, and 0 when a key it reads is missing.
pub open spec fn priority(c: Component, st: ApplicationState, now: u64) -> u32 {
    match c.kind {
        ComponentKind::BarDialog { property, close_at, old_value } => match st.value_of(
            property@,
        ) {
            None => 0,
            Some(v) => if !unchanged(old_value, v) {
                CHANGED_PRIORITY
            } else if now < close_at {
                OPEN_PRIORITY
            } else {
                0
            },
        },
        ComponentKind::StateItem { properties, .. } => if forall|i: int|
            0 <= i < properties@.len() ==> st.has(#[trigger] properties@[i]@) {
            ICON_PRIORITY
        } else {
            0
        },
        ComponentKind::WorkspaceIndicator { active_property, count_property, .. } => if st.has(
            active_property@,
        ) && st.has(count_property@) {
            BACKGROUND_PRIORITY
        } else {
            0
        },
        ComponentKind::SimpleItem => ICON_PRIORITY,
        ComponentKind::StaticImage => BACKGROUND_PRIORITY,
        ComponentKind::LoadingImage { property, .. } => if st.has(property@) {
            BACKGROUND_PRIORITY
        } else {
            0
        },
    }
}

/// A newly present value of a watched key differs from the one last drawn.
pub open spec fn differs(old: Option<StateValueType>, new: Option<StateValueType>) -> bool {
    match new {
        Some(v) => !unchanged(old, v),
        None => false,
    }
}

/// Whether a new state calls for the component to be drawn again.
pub open spec fn needs_refresh(c: Component, st: ApplicationState) -> bool {
    match c.kind {
        ComponentKind::BarDialog { property, old_value, .. } => differs(
            old_value,
            st.value_of(property@),
        ),
        ComponentKind::StateItem { properties, old_values } => exists|i: int|
            0 <= i < properties@.len() && i < old_values@.len() && differs(
                old_values@[i],
                st.value_of(#[trigger] properties@[i]@),
            ),
        ComponentKind::WorkspaceIndicator {
            active_property,
            count_property,
            old_active,
            old_count,
            ..
        } => !same_opt(old_active, st.value_of(active_property@)) || !same_opt(
            old_count,
            st.value_of(count_property@),
        ),
        ComponentKind::SimpleItem => false,
        ComponentKind::StaticImage => false,
        ComponentKind::LoadingImage { property, old_value, .. } => match st.value_of(
            property@,
        ) {
            Some(StateValueType::Text(t)) => match old_value {
                Some(StateValueType::Text(o)) => o@ != t@,
                _ => true,
            },
            _ => false,
        },
    }
}

/// The state keys a component reads.
pub open spec fn watched(c: Component) -> Seq<Seq<char>> {
    match c.kind {
        ComponentKind::BarDialog { property, .. } => seq![property@],
        ComponentKind::StateItem { properties, .. } => properties@.map_values(|k: String| k@),
        ComponentKind::WorkspaceIndicator { active_property, count_property, .. } => seq![
            active_property@,
            count_property@,
        ],
        ComponentKind::SimpleItem => Seq::empty(),
        ComponentKind::StaticImage => Seq::empty(),
        ComponentKind::LoadingImage { property, .. } => seq![property@],
    }
}

/// A freshly registered component: it remembers the values of `st` as the
/// ones last drawn, no dialog is open and no image is loaded.
pub open spec fn remembers(c: Component, st: ApplicationState) -> bool {
    match c.kind {
        ComponentKind::BarDialog { property, close_at, old_value } => close_at == 0 && old_value
            == st.value_of(property@),
        ComponentKind::StateItem { properties, old_values } => old_values@ == values_of(
            st,
            properties@,
        ),
        ComponentKind::WorkspaceIndicator {
            active_property,
            count_property,
            old_active,
            old_count,
            ..
        } => old_active == st.value_of(active_property@) && old_count == st.value_of(
            count_property@,
        ),
        ComponentKind::SimpleItem => true,
        ComponentKind::StaticImage => true,
        ComponentKind::LoadingImage { property, loaded, old_value } => loaded@ == Seq::<
            char,
        >::empty() && old_value == st.value_of(property@),
    }
}

/// The area the component draws into.
pub open spec fn area_of(c: Component) -> DisplayAreaType {
    match c.kind {
        ComponentKind::BarDialog { .. } => DisplayAreaType::Dialog,
        ComponentKind::StateItem { .. } => DisplayAreaType::Icon(ICON_SIZE, ICON_SIZE),
        ComponentKind::WorkspaceIndicator { area, .. } => DisplayAreaType::DisplayArea(area),
        ComponentKind::SimpleItem => DisplayAreaType::Icon(ICON_SIZE, ICON_SIZE),
        ComponentKind::StaticImage => DisplayAreaType::Fullscreen,
        ComponentKind::LoadingImage { .. } => DisplayAreaType::Fullscreen,
    }
}

/// When the component asks to be drawn again without a state change: the
/// closing time of an open dialog.
pub open spec fn refresh_at(c: Component, now: u64) -> Option<u64> {
    match c.kind {
        ComponentKind::BarDialog { close_at, .. } => if close_at > now {
            Some(close_at)
        } else {
            None
        },
        _ => None,
    }
}

fn all_present(st: &ApplicationState, properties: &Vec<String>) -> (r: bool)
    requires
        st.wf(),
    ensures
        r == forall|i: int| 0 <= i < properties@.len() ==> st.has(#[trigger] properties@[i]@),
{
    let n = properties.len();
    let mut i: usize = 0;
    while i < n
        invariant
            st.wf(),
            n == properties@.len(),
            0 <= i <= n,
            forall|j: int| 0 <= j < i ==> st.has(#[trigger] properties@[j]@),
        decreases n - i,
    {
        if !st.contains_key(properties[i].as_str()) {
            return false;
        }
        i = i + 1;
    }
    true
}

fn differs_exec(old: &Option<StateValueType>, new: &Option<StateValueType>) -> (r: bool)
    ensures
        r == differs(*old, *new),
{
    match new {
        Some(v) => match old {
            Some(o) => !o.same_as(v),
            None => true,
        },
        None => false,
    }
}

/// The values of `properties` in `st`.
pub open spec fn values_of(st: ApplicationState, properties: Seq<String>) -> Seq<
    Option<StateValueType>,
> {
    Seq::new(properties.len(), |i: int| st.value_of(properties[i]@))
}

fn read_values(st: &ApplicationState, properties: &Vec<String>) -> (r: Vec<Option<StateValueType>>)
    requires
        st.wf(),
    ensures
        r@ == values_of(*st, properties@),
{
    let n = properties.len();
    let mut r: Vec<Option<StateValueType>> = Vec::new();
    let mut i: usize = 0;
    while i < n
        invariant
            st.wf(),
            n == properties@.len(),
            0 <= i <= n,
            r@ =~= values_of(*st, properties@.subrange(0, i as int)),
        decreases n - i,
    {
        let v = st.get(properties[i].as_str());
        r.push(v);
        i = i + 1;
        assert(r@ =~= values_of(*st, properties@.subrange(0, i as int)));
    }
    assert(properties@.subrange(0, n as int) =~= properties@);
    r
}

fn any_differs(
    properties: &Vec<String>,
    old_values: &Vec<Option<StateValueType>>,
    new_state: &ApplicationState,
) -> (r: bool)
    requires
        new_state.wf(),
    ensures
        r == exists|i: int|
            0 <= i < properties@.len() && i < old_values@.len() && differs(
                old_values@[i],
                new_state.value_of(#[trigger] properties@[i]@),
            ),
{
    let n = if properties.len() < old_values.len() {
        properties.len()
    } else {
        old_values.len()
    };
    let mut i: usize = 0;
    while i < n
        invariant
            new_state.wf(),
            n <= properties@.len(),
            n <= old_values@.len(),
            n == properties@.len() || n == old_values@.len(),
            0 <= i <= n,
            forall|j: int|
                0 <= j < i ==> !differs(old_values@[j], new_state.value_of(#[trigger] properties@[j]@)),
        decreases n - i,
    {
        let v = new_state.get(properties[i].as_str());
        if differs_exec(&old_values[i], &v) {
            assert(differs(old_values@[i as int], new_state.value_of(properties@[i as int]@)));
            return true;
        }
        i = i + 1;
    }
    false
}

impl Component {
    /// A dialog for `property`, remembering its value in `initial`.
    pub fn bar_dialog(name: String, property: String, display: u8, initial: &ApplicationState) -> (r:
        Component)
        requires
            initial.wf(),
        ensures
            r.name == name,
            r.display == display,
            r.kind == (ComponentKind::BarDialog {
                property: property,
                close_at: 0,
                old_value: initial.value_of(property@),
            }),
    {
        let old_value = initial.get(property.as_str());
        Component { name, display, kind: ComponentKind::BarDialog { property, close_at: 0, old_value } }
    }

    /// An icon that depends on `properties`, remembering their values in `initial`.
    pub fn state_item(
        name: String,
        properties: Vec<String>,
        display: u8,
        initial: &ApplicationState,
    ) -> (r: Component)
        requires
            initial.wf(),
        ensures
            r.name == name,
            r.display == display,
            r.kind matches ComponentKind::StateItem { properties: p, old_values } && p == properties
                && old_values@ == values_of(*initial, properties@),
    {
        let old_values = read_values(initial, &properties);
        Component { name, display, kind: ComponentKind::StateItem { properties, old_values } }
    }

    /// A workspace indicator in `area`, remembering its values in `initial`.
    pub fn workspace_indicator(
        name: String,
        display: u8,
        area: Rect,
        active_property: String,
        count_property: String,
        initial: &ApplicationState,
    ) -> (r: Component)
        requires
            initial.wf(),
        ensures
            r.name == name,
            r.display == display,
            r.kind == (ComponentKind::WorkspaceIndicator {
                area: area,
                active_property: active_property,
                count_property: count_property,
                old_active: initial.value_of(active_property@),
                old_count: initial.value_of(count_property@),
            }),
    {
        let old_active = initial.get(active_property.as_str());
        let old_count = initial.get(count_property.as_str());
        Component {
            name,
            display,
            kind: ComponentKind::WorkspaceIndicator {
                area,
                active_property,
                count_property,
                old_active,
                old_count,
            },
        }
    }

    /// A fixed icon.
    pub fn simple_item(name: String, display: u8) -> (r: Component)
        ensures
            r.name == name,
            r.display == display,
            r.kind == ComponentKind::SimpleItem,
    {
        Component { name, display, kind: ComponentKind::SimpleItem }
    }

    /// A fixed background image.
    pub fn static_image(name: String, display: u8) -> (r: Component)
        ensures
            r.name == name,
            r.display == display,
            r.kind == ComponentKind::StaticImage,
    {
        Component { name, display, kind: ComponentKind::StaticImage }
    }

    /// A background image named by `property`, remembering its value in `initial`.
    pub fn loading_image(name: String, display: u8, property: String, initial: &ApplicationState) -> (r:
        Component)
        requires
            initial.wf(),
        ensures
            r.name == name,
            r.display == display,
            r.kind matches ComponentKind::LoadingImage { property: p, loaded, old_value } && p
                == property && loaded@ == Seq::<char>::empty() && old_value == initial.value_of(
                property@,
            ),
    {
        let old_value = initial.get(property.as_str());
        Component {
            name,
            display,
            kind: ComponentKind::LoadingImage { property, loaded: String::new(), old_value },
        }
    }

    /// The display the component is drawn on.
    pub fn get_display(&self) -> (r: u8)
        ensures
            r == self.display,
    {
        self.display
    }

    /// The area the component draws into.
    pub fn get_type(&self) -> (r: DisplayAreaType)
        ensures
            r == area_of(*self),
    {
        match &self.kind {
            ComponentKind::BarDialog { .. } => DisplayAreaType::Dialog,
            ComponentKind::StateItem { .. } => DisplayAreaType::Icon(ICON_SIZE, ICON_SIZE),
            ComponentKind::WorkspaceIndicator { area, .. } => DisplayAreaType::DisplayArea(*area),
            ComponentKind::SimpleItem => DisplayAreaType::Icon(ICON_SIZE, ICON_SIZE),
            ComponentKind::StaticImage => DisplayAreaType::Fullscreen,
            ComponentKind::LoadingImage { .. } => DisplayAreaType::Fullscreen,
        }
    }

    /// The component's priority on `values` at time `now`; 0 means not shown.
    pub fn get_z_index(&self, values: &ApplicationState, now: u64) -> (r: u32)
        requires
            values.wf(),
        ensures
            r == priority(*self, *values, now),
    {
        match &self.kind {
            ComponentKind::BarDialog { property, close_at, old_value } => {
                match values.get(property.as_str()) {
                    None => 0,
                    Some(v) => {
                        let same = match old_value {
                            Some(o) => o.same_as(&v),
                            None => false,
                        };
                        if !same {
                            CHANGED_PRIORITY
                        } else if now < *close_at {
                            OPEN_PRIORITY
                        } else {
                            0
                        }
                    },
                }
            },
            ComponentKind::StateItem { properties, .. } => {
                if all_present(values, properties) {
                    ICON_PRIORITY
                } else {
                    0
                }
            },
            ComponentKind::WorkspaceIndicator { active_property, count_property, .. } => {
                if values.contains_key(active_property.as_str()) && values.contains_key(
                    count_property.as_str(),
                ) {
                    BACKGROUND_PRIORITY
                } else {
                    0
                }
            },
            ComponentKind::SimpleItem => ICON_PRIORITY,
            ComponentKind::StaticImage => BACKGROUND_PRIORITY,
            ComponentKind::LoadingImage { property, .. } => {
                if values.contains_key(property.as_str()) {
                    BACKGROUND_PRIORITY
                } else {
                    0
                }
            },
        }
    }

    /// Whether `new_state` calls for the component to be drawn again.
    pub fn needs_refresh(&self, new_state: &ApplicationState) -> (r: bool)
        requires
            new_state.wf(),
        ensures
            r == needs_refresh(*self, *new_state),
    {
        match &self.kind {
            ComponentKind::BarDialog { property, old_value, .. } => {
                let v = new_state.get(property.as_str());
                differs_exec(old_value, &v)
            },
            ComponentKind::StateItem { properties, old_values } => {
                any_differs(properties, old_values, new_state)
            },
            ComponentKind::WorkspaceIndicator {
                active_property,
                count_property,
                old_active,
                old_count,
                ..
            } => {
                let a = new_state.get(active_property.as_str());
                let c = new_state.get(count_property.as_str());
                !same_opt_exec(old_active, &a) || !same_opt_exec(old_count, &c)
            },
            ComponentKind::SimpleItem => false,
            ComponentKind::StaticImage => false,
            ComponentKind::LoadingImage { property, old_value, .. } => {
                match new_state.get(property.as_str()) {
                    Some(StateValueType::Text(t)) => match old_value {
                        Some(StateValueType::Text(o)) => *o != t,
                        _ => true,
                    },
                    _ => false,
                }
            },
        }
    }

    /// When the component asks to be drawn again without a state change.
    pub fn get_refresh_at(&self, now: u64) -> (r: Option<u64>)
        ensures
            r == refresh_at(*self, now),
    {
        match &self.kind {
            ComponentKind::BarDialog { close_at, .. } => {
                if *close_at > now {
                    Some(*close_at)
                } else {
                    None
                }
            },
            _ => None,
        }
    }

    /// Records that the component was drawn from `values` at time `now`: it
    /// remembers the values it showed, and a dialog whose value changed stays
    /// open for a while.
    pub fn note_drawn(&mut self, values: &ApplicationState, now: u64)
        requires
            values.wf(),
        ensures
            final(self).name == old(self).name,
            final(self).display == old(self).display,
            area_of(*final(self)) == area_of(*old(self)),
            !needs_refresh(*final(self), *values),
            drawn_kind(old(self).kind, *values, now, final(self).kind),
    {
        match &mut self.kind {
            ComponentKind::BarDialog { property, close_at, old_value } => {
                let v = values.get(property.as_str());
                match &v {
                    Some(nv) => {
                        let reopen = match old_value {
                            Some(o) => !o.same_as(nv),
                            None => false,
                        };
                        if reopen {
                            *close_at = if now <= u64::MAX - OPEN_TIME_MS {
                                now + OPEN_TIME_MS
                            } else {
                                u64::MAX
                            };
                        }
                        *old_value = v;
                    },
                    None => {},
                }
            },
            ComponentKind::StateItem { properties, old_values } => {
                *old_values = read_values(values, properties);
            },
            ComponentKind::WorkspaceIndicator {
                active_property,
                count_property,
                old_active,
                old_count,
                ..
            } => {
                *old_active = values.get(active_property.as_str());
                *old_count = values.get(count_property.as_str());
            },
            ComponentKind::SimpleItem => {},
            ComponentKind::StaticImage => {},
            ComponentKind::LoadingImage { property, old_value, .. } => {
                *old_value = values.get(property.as_str());
            },
        }
    }

    /// The image that should be loaded for `values`, if it is not the one loaded.
    pub fn image_to_load(&self, values: &ApplicationState) -> (r: Option<String>)
        requires
            values.wf(),
        ensures
            r == (match self.kind {
                ComponentKind::LoadingImage { property, loaded, .. } => match values.value_of(
                    property@,
                ) {
                    Some(StateValueType::Text(t)) => if t@ != loaded@ {
                        Some(t)
                    } else {
                        None
                    },
                    _ => None,
                },
                _ => None,
            }),
    {
        match &self.kind {
            ComponentKind::LoadingImage { property, loaded, .. } => {
                match values.get(property.as_str()) {
                    Some(StateValueType::Text(t)) => if t != *loaded {
                        Some(t)
                    } else {
                        None
                    },
                    _ => None,
                }
            },
            _ => None,
        }
    }

    /// Records which image is loaded.
    pub fn set_loaded(&mut self, image: String)
        ensures
            final(self).name == old(self).name,
            final(self).display == old(self).display,
            match (old(self).kind, final(self).kind) {
                (
                    ComponentKind::LoadingImage { property: prop_before, old_value: v0, .. },
                    ComponentKind::LoadingImage { property: prop_after, loaded, old_value: v1 },
                ) => prop_after == prop_before && v1 == v0 && loaded == image,
                (k0, k1) => k1 == k0,
            },
    {
        match &mut self.kind {
            ComponentKind::LoadingImage { loaded, .. } => {
                *loaded = image;
            },
            _ => {},
        }
    }
}

/// What drawing from `st` at time `now` makes of a component's memory.
pub open spec fn drawn_kind(k: ComponentKind, st: ApplicationState, now: u64, r: ComponentKind) -> bool {
    match (k, r) {
        (
            ComponentKind::BarDialog { property: prop_before, close_at: c0, old_value: v0 },
            ComponentKind::BarDialog { property: prop_after, close_at: c1, old_value: v1 },
        ) => prop_after == prop_before && match st.value_of(prop_before@) {
            None => c1 == c0 && v1 == v0,
            Some(v) => v1 == Some(v) && c1 == (if v0 is Some && !unchanged(v0, v) {
                if now <= u64::MAX - OPEN_TIME_MS {
                    (now + OPEN_TIME_MS) as u64
                } else {
                    u64::MAX
                }
            } else {
                c0
            }),
        },
        (
            ComponentKind::StateItem { properties: prop_before, .. },
            ComponentKind::StateItem { properties: prop_after, old_values },
        ) => prop_after == prop_before && old_values@ == values_of(st, prop_before@),
        (
            ComponentKind::WorkspaceIndicator {
                area: a0,
                active_property: ap0,
                count_property: cp0,
                ..
            },
            ComponentKind::WorkspaceIndicator {
                area: a1,
                active_property: ap1,
                count_property: cp1,
                old_active,
                old_count,
            },
        ) => a1 == a0 && ap1 == ap0 && cp1 == cp0 && old_active == st.value_of(ap0@)
            && old_count == st.value_of(cp0@),
        (ComponentKind::SimpleItem, ComponentKind::SimpleItem) => true,
        (ComponentKind::StaticImage, ComponentKind::StaticImage) => true,
        (
            ComponentKind::LoadingImage { property: prop_before, loaded: l0, .. },
            ComponentKind::LoadingImage { property: prop_after, loaded: l1, old_value },
        ) => prop_after == prop_before && l1 == l0 && old_value == st.value_of(prop_before@),
        _ => false,
    }
}

} // verus!
