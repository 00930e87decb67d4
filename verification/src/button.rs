//! The four buttons: debouncing, counting and presses from elsewhere.
use vstd::prelude::*;
use vstd::string::*;

use crate::text::same_text;

verus! {

/// How long a level must last before it counts, in nanoseconds.
pub const DEBOUNCE_NS: u128 = 30_000_000;

/// What is known of a button.
#[derive(Clone, Debug, PartialEq, Eq)]
pub struct ButtonEvent {
    pub button: String,
    pub pressed: bool,
    pub count: u64,
}

/// What is known of a button, with its name as characters.
#[verifier::ext_equal]
pub struct EventView {
    pub button: Seq<char>,
    pub pressed: bool,
    pub count: u64,
}

impl View for ButtonEvent {
    type V = EventView;

    open spec fn view(&self) -> EventView {
        EventView { button: self.button@, pressed: self.pressed, count: self.count }
    }
}

/// The views of some events.
pub open spec fn event_views(events: Seq<ButtonEvent>) -> Seq<EventView> {
    events.map_values(|event: ButtonEvent| event@)
}

/// A button: the level last seen and since when, the level that counts, and how often it was
/// pressed.
#[derive(Clone, Copy, Debug, PartialEq, Eq, Structural)]
pub struct ButtonState {
    pub raw: bool,
    pub stable: bool,
    pub changed_at_ns: u128,
    pub count: u64,
}

/// A button that was never touched.
pub open spec fn untouched() -> ButtonState {
    ButtonState { raw: false, stable: false, changed_at_ns: 0, count: 0 }
}

/// A button after its level was seen, before it is decided whether the level counts.
pub open spec fn seen(state: ButtonState, pressed: bool, now_ns: u128) -> ButtonState {
    if state.raw != pressed {
        ButtonState { raw: pressed, changed_at_ns: now_ns, ..state }
    } else {
        state
    }
}

/// Whether a level that was seen has lasted long enough to count anew.
pub open spec fn settles(state: ButtonState, pressed: bool, now_ns: u128) -> bool {
    let after = seen(state, pressed, now_ns);
    after.stable != pressed && now_ns - after.changed_at_ns >= DEBOUNCE_NS
}

/// A button after its level was seen.
pub open spec fn after_level(state: ButtonState, pressed: bool, now_ns: u128) -> ButtonState {
    let after = seen(state, pressed, now_ns);
    if settles(state, pressed, now_ns) {
        ButtonState {
            stable: pressed,
            count: if pressed {
                (after.count + 1) as u64
            } else {
                after.count
            },
            ..after
        }
    } else {
        after
    }
}

/// What there is to tell after a button's level was seen.
pub open spec fn told(
    name: Seq<char>,
    state: ButtonState,
    pressed: bool,
    now_ns: u128,
) -> Option<EventView> {
    if settles(state, pressed, now_ns) {
        Some(
            EventView {
                button: name,
                pressed,
                count: after_level(state, pressed, now_ns).count,
            },
        )
    } else {
        None
    }
}

/// The view of an optional event.
pub open spec fn event_view(event: Option<ButtonEvent>) -> Option<EventView> {
    match event {
        Some(event) => Some(event@),
        None => None,
    }
}

impl Default for ButtonState {
    /// A button that was never touched.
    fn default() -> (state: ButtonState)
        ensures
            state == untouched(),
    {
        ButtonState { raw: false, stable: false, changed_at_ns: 0, count: 0 }
    }
}

impl ButtonState {
    /// Takes note of a button's level, and tells when the level that counts has changed.
    pub fn observe(&mut self, button: &str, pressed: bool, now_ns: u128) -> (event: Option<
        ButtonEvent,
    >)
        requires
            pressed && settles(*old(self), pressed, now_ns) ==> old(self).count < u64::MAX,
        ensures
            *final(self) == after_level(*old(self), pressed, now_ns),
            event_view(event) == told(button@, *old(self), pressed, now_ns),
    {
        if self.raw != pressed {
            self.raw = pressed;
            self.changed_at_ns = now_ns;
        }
        let lasted_ns: u128 = if now_ns >= self.changed_at_ns {
            now_ns - self.changed_at_ns
        } else {
            0
        };
        if self.stable != self.raw && lasted_ns >= DEBOUNCE_NS {
            self.stable = self.raw;
            if self.stable {
                self.count = self.count + 1;
            }
            return Some(
                ButtonEvent { button: button.to_owned(), pressed: self.stable, count: self.count },
            );
        }
        None
    }
}

/// The name of a button.
pub open spec fn name_of(index: int) -> Seq<char> {
    if index == 0 {
        "A"@
    } else if index == 1 {
        "B"@
    } else if index == 2 {
        "X"@
    } else {
        "Y"@
    }
}

/// The name of a button.
pub fn button_name(index: usize) -> (name: &'static str)
    requires
        index < 4,
    ensures
        name@ == name_of(index as int),
{
    if index == 0 {
        "A"
    } else if index == 1 {
        "B"
    } else if index == 2 {
        "X"
    } else {
        "Y"
    }
}

/// The input line of a button.
pub open spec fn pin_of_button(index: int) -> u32 {
    if index == 0 {
        5
    } else if index == 1 {
        6
    } else if index == 2 {
        16
    } else {
        24
    }
}

/// The input line of a button.
pub fn button_pin(index: usize) -> (pin: u32)
    requires
        index < 4,
    ensures
        pin == pin_of_button(index as int),
{
    if index == 0 {
        5
    } else if index == 1 {
        6
    } else if index == 2 {
        16
    } else {
        24
    }
}

/// Which button has a name.
pub open spec fn index_of(name: Seq<char>) -> Option<int> {
    if name == name_of(0) {
        Some(0)
    } else if name == name_of(1) {
        Some(1)
    } else if name == name_of(2) {
        Some(2)
    } else if name == name_of(3) {
        Some(3)
    } else {
        None
    }
}

/// Which button has a name.
pub fn button_index(name: &str) -> (index: Option<usize>)
    ensures
        match index {
            Some(i) => i < 4 && index_of(name@) == Some(i as int),
            None => index_of(name@) is None,
        },
{
    if same_text(name, "A") {
        Some(0)
    } else if same_text(name, "B") {
        Some(1)
    } else if same_text(name, "X") {
        Some(2)
    } else if same_text(name, "Y") {
        Some(3)
    } else {
        None
    }
}

/// What is known of a button.
pub open spec fn snapshot(index: int, state: ButtonState) -> EventView {
    EventView { button: name_of(index), pressed: state.stable, count: state.count }
}

/// What is known of all four buttons.
pub open spec fn snapshots(buttons: Seq<ButtonState>) -> Seq<EventView> {
    Seq::new(4, |i: int| snapshot(i, buttons[i]))
}

fn snapshot_of(index: usize, state: &ButtonState) -> (event: ButtonEvent)
    requires
        index < 4,
    ensures
        event@ == snapshot(index as int, *state),
{
    ButtonEvent {
        button: button_name(index).to_owned(),
        pressed: state.stable,
        count: state.count,
    }
}

/// What is known of all four buttons.
pub fn button_snapshots(buttons: &[ButtonState; 4]) -> (events: [ButtonEvent; 4])
    ensures
        event_views(events@) == snapshots(buttons@),
{
    let events = [
        snapshot_of(0, &buttons[0]),
        snapshot_of(1, &buttons[1]),
        snapshot_of(2, &buttons[2]),
        snapshot_of(3, &buttons[3]),
    ];
    assert(event_views(events@) =~= snapshots(buttons@));
    events
}

/// A button that was pressed from elsewhere.
pub open spec fn remotely_pressed(state: ButtonState) -> ButtonState {
    ButtonState {
        count: if state.count < u64::MAX {
            (state.count + 1) as u64
        } else {
            state.count
        },
        ..state
    }
}

/// The buttons after the one of a name was pressed from elsewhere.
pub open spec fn after_virtual_press(buttons: Seq<ButtonState>, name: Seq<char>) -> Seq<
    ButtonState,
> {
    match index_of(name) {
        Some(i) => buttons.update(i, remotely_pressed(buttons[i])),
        None => buttons,
    }
}

/// What there is to tell of a press from elsewhere.
pub open spec fn virtual_event(buttons: Seq<ButtonState>, name: Seq<char>) -> Option<EventView> {
    match index_of(name) {
        Some(i) => Some(snapshot(i, remotely_pressed(buttons[i]))),
        None => None,
    }
}

/// Presses a button from elsewhere: its count rises, and its level stays what it is.
pub fn virtual_press(buttons: &mut [ButtonState; 4], button: &str) -> (event: Option<ButtonEvent>)
    ensures
        final(buttons)@ == after_virtual_press(old(buttons)@, button@),
        event_view(event) == virtual_event(old(buttons)@, button@),
{
    match button_index(button) {
        None => None,
        Some(index) => {
            let mut state: ButtonState = buttons[index];
            state.count = state.count.saturating_add(1);
            buttons[index] = state;
            Some(snapshot_of(index, &state))
        },
    }
}

/// A button after its level was seen at each of several times.
pub open spec fn after_levels(state: ButtonState, levels: Seq<(bool, u128)>) -> ButtonState
    decreases levels.len(),
{
    if levels.len() == 0 {
        state
    } else {
        after_level(
            after_levels(state, levels.drop_last()),
            levels.last().0,
            levels.last().1,
        )
    }
}

/// A level that does not last long enough changes neither the level that counts nor the
/// number of presses.
pub proof fn law_bounces_do_not_count(state: ButtonState, levels: Seq<(bool, u128)>)
    requires
        state.raw == state.stable,
        forall|i: int|
            0 <= i < levels.len() ==> (#[trigger] levels[i]).1 < levels[0].1 + DEBOUNCE_NS,
        forall|i: int| 0 <= i < levels.len() ==> levels[0].1 <= (#[trigger] levels[i]).1,
    ensures
        after_levels(state, levels).stable == state.stable,
        after_levels(state, levels).count == state.count,
        levels.len() > 0 ==> {
            let after = after_levels(state, levels);
            after.raw != after.stable ==> after.changed_at_ns >= levels[0].1
        },
    decreases levels.len(),
{
    if levels.len() > 0 {
        let earlier = levels.drop_last();
        assert forall|i: int| 0 <= i < earlier.len() implies (#[trigger] earlier[i]).1 < earlier[0].1
            + DEBOUNCE_NS by {
            assert(levels[i].1 < levels[0].1 + DEBOUNCE_NS);
        }
        assert forall|i: int| 0 <= i < earlier.len() implies earlier[0].1 <= (
        #[trigger] earlier[i]).1 by {
            assert(levels[0].1 <= levels[i].1);
        }
        law_bounces_do_not_count(state, earlier);
        assert(levels[levels.len() - 1].1 < levels[0].1 + DEBOUNCE_NS);
    }
}

/// A press counts once, however long it is held, and a release does not count.
pub proof fn law_a_held_level_counts_once(
    name: Seq<char>,
    state: ButtonState,
    pressed: bool,
    now_ns: u128,
)
    requires
        state.raw == state.stable,
        state.stable == pressed,
    ensures
        after_level(state, pressed, now_ns) == state,
        told(name, state, pressed, now_ns) is None,
{
}

/// Seeing a level changes the count by at most one, and only as a press begins to count.
pub proof fn law_count_rises_with_presses_only(state: ButtonState, pressed: bool, now_ns: u128)
    requires
        state.count < u64::MAX,
    ensures
        ({
            let after = after_level(state, pressed, now_ns);
            after.count == state.count + if !state.stable && after.stable {
                1int
            } else {
                0
            }
        }),
{
}

/// A press from elsewhere never fakes a held button: no button's levels change, and only the
/// named button's count does.
pub proof fn law_virtual_press_fakes_no_hold(buttons: Seq<ButtonState>, name: Seq<char>, i: int)
    requires
        buttons.len() == 4,
        0 <= i < 4,
    ensures
        ({
            let after = after_virtual_press(buttons, name)[i];
            &&& after.raw == buttons[i].raw
            &&& after.stable == buttons[i].stable
            &&& after.changed_at_ns == buttons[i].changed_at_ns
            &&& index_of(name) != Some(i) ==> after == buttons[i]
        }),
        index_of(name) is None ==> virtual_event(buttons, name) is None,
        virtual_event(buttons, name) matches Some(event) ==> event.pressed
            == buttons[index_of(name)->Some_0].stable,
{
}

/// A level that lasts counts after 30 milliseconds, and not before. A press that begins to count
/// raises the count by one, a release does not, and either is told once, with the button's name
/// and the count.
pub proof fn law_lasting_level_counts_after_30_ms(
    name: Seq<char>,
    state: ButtonState,
    pressed: bool,
    first_ns: u128,
    then_ns: u128,
)
    requires
        state.raw == state.stable,
        state.stable != pressed,
        state.count < u64::MAX,
        first_ns <= then_ns,
    ensures
        ({
            let first = after_level(state, pressed, first_ns);
            let later = after_level(first, pressed, then_ns);
            let lasted = then_ns - first_ns >= 30_000_000;
            let count = state.count + if pressed {
                1int
            } else {
                0
            };
            &&& told(name, state, pressed, first_ns) is None
            &&& first.stable == state.stable
            &&& first.count == state.count
            &&& lasted ==> later.stable == pressed && later.count == count
            &&& lasted ==> told(name, first, pressed, then_ns) is Some
            &&& told(name, first, pressed, then_ns) matches Some(event) ==> event.button == name
                && event.pressed == pressed && event.count == count
            &&& !lasted ==> later.stable == state.stable && later.count == state.count && told(
                name,
                first,
                pressed,
                then_ns,
            ) is None
            &&& told(name, later, pressed, then_ns) is None || !lasted
        }),
{
}

/// Each change of the level starts the time anew.
pub proof fn law_each_change_starts_the_time_anew(state: ButtonState, pressed: bool, now_ns: u128)
    ensures
        ({
            let after = after_level(state, pressed, now_ns);
            &&& after.raw == pressed
            &&& state.raw != pressed ==> after.changed_at_ns == now_ns && after.stable
                == state.stable
            &&& state.raw == pressed ==> after.changed_at_ns == state.changed_at_ns
        }),
{
}

/// The buttons are called A, B, X and Y and are the lines 5, 6, 16 and 24, in this order; no
/// other name is a button's.
pub proof fn law_names_and_lines_of_the_buttons(index: int, name: Seq<char>)
    requires
        0 <= index < 4,
    ensures
        name_of(index) == seq!["A"@, "B"@, "X"@, "Y"@][index],
        pin_of_button(index) == seq![5u32, 6, 16, 24][index],
        index_of(seq!["A"@, "B"@, "X"@, "Y"@][index]) == Some(index),
        index_of(name) == Some(index) <==> name == seq!["A"@, "B"@, "X"@, "Y"@][index],
        index_of(name) is None <==> name != "A"@ && name != "B"@ && name != "X"@ && name != "Y"@,
{
    reveal_strlit("A");
    reveal_strlit("B");
    reveal_strlit("X");
    reveal_strlit("Y");
    assert("A"@[0] == 'A' && "B"@[0] == 'B' && "X"@[0] == 'X' && "Y"@[0] == 'Y');
}

/// A press from elsewhere raises the count of the button of that name by one, up to the largest
/// number, and tells its name, its level and the new count.
pub proof fn law_virtual_press_counts(buttons: Seq<ButtonState>, name: Seq<char>, i: int)
    requires
        buttons.len() == 4,
        0 <= i < 4,
        name == seq!["A"@, "B"@, "X"@, "Y"@][i],
    ensures
        ({
            let after = after_virtual_press(buttons, name);
            let event = virtual_event(buttons, name);
            &&& after.len() == 4
            &&& buttons[i].count < u64::MAX ==> after[i].count == buttons[i].count + 1
            &&& buttons[i].count == u64::MAX ==> after[i].count == u64::MAX
            &&& forall|j: int| 0 <= j < 4 && j != i ==> #[trigger] after[j] == buttons[j]
            &&& event is Some
            &&& event->Some_0.button == name
            &&& event->Some_0.pressed == buttons[i].stable
            &&& event->Some_0.count == after[i].count
        }),
{
    law_names_and_lines_of_the_buttons(i, name);
}

/// What is told of all buttons: each by its name, whether it is held and how often it was
/// pressed, and nothing of a button that was never touched.
pub proof fn law_snapshots_tell_every_button(buttons: Seq<ButtonState>, i: int)
    requires
        0 <= i < 4,
    ensures
        snapshots(buttons).len() == 4,
        snapshots(buttons)[i].button == seq!["A"@, "B"@, "X"@, "Y"@][i],
        snapshots(buttons)[i].pressed == buttons[i].stable,
        snapshots(buttons)[i].count == buttons[i].count,
        !untouched().raw && !untouched().stable && untouched().count == 0,
{
}

} // verus!
