//! The display and the four buttons at work.
//!
//! [`PanelState`] takes in commands, levels and times, and tells what to send, to look up and
//! to draw. Times count in nanoseconds from the start of the panel.
use vstd::prelude::*;
use vstd::string::*;

use crate::button::{button_name, button_snapshots, virtual_press, ButtonEvent, ButtonState};
use crate::button::{EventView, DEBOUNCE_NS};
use crate::screen::{render, Address, ScreenReading, ScreenState, ScreenView};

verus! {

/// The nanoseconds of a second.
pub const SECOND_NS: u64 = 1_000_000_000;

/// The longest time a message stays, in seconds.
pub const MAX_MESSAGE_SECONDS: u64 = 3600;

/// How long the address of the machine is relied on, in nanoseconds.
pub const ADDRESS_NS: u64 = 5_000_000_000;

/// How often the levels of the buttons are read at most until they agree.
pub const SETTLE_TRIES: u64 = 10;

/// What the panel is asked for.
#[derive(Clone, Debug)]
pub enum PanelCommand {
    Message { text: String, ttl_seconds: u64 },
    Readings(Vec<ScreenReading>),
    VirtualPress { button: String },
}

/// The levels of the four buttons.
pub type Levels = [bool; 4];

/// Whether the levels of the buttons have come to rest.
#[derive(Clone, Copy, Debug, PartialEq, Eq, Structural)]
pub enum Settling {
    /// Read the levels again, after they had time to bounce.
    Again,
    Settled,
    /// They kept changing.
    GaveUp,
}

/// The levels last read, and how often they were read again.
pub struct Startup {
    pub levels: Levels,
    pub tries: u64,
}

fn same_levels(a: &Levels, b: &Levels) -> (same: bool)
    ensures
        same == (a@ == b@),
{
    if a[0] == b[0] && a[1] == b[1] && a[2] == b[2] && a[3] == b[3] {
        assert(a@ =~= b@);
        true
    } else {
        false
    }
}

/// Whether levels that were read again have come to rest, after some earlier tries.
pub open spec fn settling_of(before: Seq<bool>, tries: u64, levels: Seq<bool>) -> Settling {
    if levels == before {
        Settling::Settled
    } else if tries + 1 >= SETTLE_TRIES {
        Settling::GaveUp
    } else {
        Settling::Again
    }
}

impl Startup {
    /// Begins with the levels as first read.
    pub fn new(levels: Levels) -> (startup: Startup)
        ensures
            startup.levels@ == levels@,
            startup.tries == 0,
    {
        Startup { levels, tries: 0 }
    }

    /// Takes in the levels as read again: two equal readings in a row settle them, and they
    /// are given up after the last try.
    pub fn read_again(&mut self, levels: Levels) -> (settling: Settling)
        requires
            old(self).tries < SETTLE_TRIES,
        ensures
            final(self).levels@ == levels@,
            final(self).tries == old(self).tries + 1,
            settling == if levels@ == old(self).levels@ {
                Settling::Settled
            } else if final(self).tries == SETTLE_TRIES {
                Settling::GaveUp
            } else {
                Settling::Again
            },
            settling == settling_of(old(self).levels@, old(self).tries, levels@),
    {
        let same: bool = same_levels(&self.levels, &levels);
        self.levels = levels;
        self.tries = self.tries + 1;
        if same {
            Settling::Settled
        } else if self.tries == SETTLE_TRIES {
            Settling::GaveUp
        } else {
            Settling::Again
        }
    }
}

/// A panel at work.
pub struct PanelState {
    pub screen: ScreenState,
    pub message_until_ns: Option<u128>,
    pub last_snapshot_ns: u64,
    pub last_address_ns: u64,
    pub dirty: bool,
    pub last_frame: Vec<u16>,
}

/// A panel at work, in characters and sequences.
pub struct PanelView {
    pub screen: ScreenView,
    pub message_until_ns: Option<u128>,
    pub last_snapshot_ns: u64,
    pub last_address_ns: u64,
    pub dirty: bool,
    pub last_frame: Seq<u16>,
}

impl View for PanelState {
    type V = PanelView;

    open spec fn view(&self) -> PanelView {
        PanelView {
            screen: self.screen@,
            message_until_ns: self.message_until_ns,
            last_snapshot_ns: self.last_snapshot_ns,
            last_address_ns: self.last_address_ns,
            dirty: self.dirty,
            last_frame: self.last_frame@,
        }
    }
}

/// A button that is held or free from the start.
pub open spec fn at_rest(pressed: bool) -> ButtonState {
    ButtonState { raw: pressed, stable: pressed, changed_at_ns: 0, count: 0 }
}

/// The screen that a panel starts with.
pub open spec fn first_screen(levels: Seq<bool>, address: Option<Address>) -> ScreenView {
    ScreenView {
        buttons: Seq::new(4, |i: int| at_rest(levels[i])),
        ip_address: address,
        ..crate::screen::blank_screen()
    }
}

fn rest(pressed: bool) -> (state: ButtonState)
    ensures
        state == at_rest(pressed),
{
    ButtonState { raw: pressed, stable: pressed, changed_at_ns: 0, count: 0 }
}

/// A panel that shows something for so many seconds from a time on.
pub open spec fn showing(
    panel: PanelView,
    text: Seq<char>,
    seconds: int,
    now_ns: u64,
) -> PanelView {
    PanelView {
        screen: ScreenView { message: Some(text), ..panel.screen },
        message_until_ns: Some((now_ns + seconds * 1_000_000_000) as u128),
        dirty: true,
        ..panel
    }
}

/// How long a message stays, in seconds.
pub open spec fn lasting(ttl_seconds: u64) -> int {
    if ttl_seconds <= MAX_MESSAGE_SECONDS {
        ttl_seconds as int
    } else {
        MAX_MESSAGE_SECONDS as int
    }
}

/// A panel after a command.
pub open spec fn commanded(panel: PanelView, command: PanelCommand, now_ns: u64) -> PanelView {
    match command {
        PanelCommand::Readings(readings) => PanelView {
            screen: ScreenView {
                readings: crate::screen::reading_views(readings@),
                sample_number: if panel.screen.sample_number == u64::MAX {
                    0
                } else {
                    (panel.screen.sample_number + 1) as u64
                },
                ..panel.screen
            },
            dirty: true,
            ..panel
        },
        PanelCommand::Message { text, ttl_seconds } => showing(
            panel,
            text@,
            lasting(ttl_seconds),
            now_ns,
        ),
        PanelCommand::VirtualPress { button } => match crate::button::index_of(button@) {
            Some(_) => showing(
                PanelView {
                    screen: ScreenView {
                        buttons: crate::button::after_virtual_press(panel.screen.buttons, button@),
                        ..panel.screen
                    },
                    ..panel
                },
                "REMOTE "@ + button@,
                1,
                now_ns,
            ),
            None => panel,
        },
    }
}

/// What there is to tell after a command.
pub open spec fn command_event(panel: PanelView, command: PanelCommand) -> Option<EventView> {
    match command {
        PanelCommand::VirtualPress { button } => crate::button::virtual_event(
            panel.screen.buttons,
            button@,
        ),
        _ => None,
    }
}

/// A panel after the level of a button was seen.
pub open spec fn leveled(panel: PanelView, index: int, pressed: bool, now_ns: u64) -> PanelView {
    let state = panel.screen.buttons[index];
    PanelView {
        screen: ScreenView {
            buttons: panel.screen.buttons.update(
                index,
                crate::button::after_level(state, pressed, now_ns as u128),
            ),
            ..panel.screen
        },
        dirty: panel.dirty || crate::button::settles(state, pressed, now_ns as u128),
        ..panel
    }
}

/// Whether there is room to count a press, if a level makes one count.
pub open spec fn countable(state: ButtonState, pressed: bool, now_ns: u64) -> bool {
    pressed && crate::button::settles(state, pressed, now_ns as u128) ==> state.count < u64::MAX
}

/// A panel after its message has been looked at.
pub open spec fn expired(panel: PanelView, now_ns: u64) -> PanelView {
    match panel.message_until_ns {
        Some(until) => if now_ns >= until {
            PanelView {
                screen: ScreenView { message: None, ..panel.screen },
                message_until_ns: None,
                dirty: true,
                ..panel
            }
        } else {
            panel
        },
        None => panel,
    }
}

/// Whether so much time has passed since a time.
pub open spec fn passed(since_ns: u64, now_ns: u64, ns: u64) -> bool {
    now_ns - since_ns >= ns
}

fn has_passed(since_ns: u64, now_ns: u64, ns: u64) -> (yes: bool)
    ensures
        ns > 0 ==> yes == passed(since_ns, now_ns, ns),
{
    now_ns >= since_ns && now_ns - since_ns >= ns
}

/// A panel after it was drawn, if it was marked for that.
pub open spec fn redrawn(panel: PanelView) -> PanelView {
    PanelView {
        dirty: false,
        last_frame: if panel.dirty {
            crate::screen::rendered(panel.screen)
        } else {
            panel.last_frame
        },
        ..panel
    }
}

/// A panel after the address of the machine was looked up.
pub open spec fn addressed(panel: PanelView, address: Option<Address>, now_ns: u64) -> PanelView {
    PanelView {
        screen: ScreenView { ip_address: address, ..panel.screen },
        last_address_ns: now_ns,
        dirty: panel.dirty || address != panel.screen.ip_address,
        ..panel
    }
}

/// Whether it is time to tell what is known of the buttons.
pub open spec fn snapshots_due(panel: PanelView, now_ns: u64) -> bool {
    now_ns - panel.last_snapshot_ns >= SECOND_NS
}

impl PanelState {
    /// A panel that starts with settled levels. A button that is held is reported as held, and
    /// does not count as pressed.
    pub fn start(levels: Levels, address: Option<Address>) -> (panel: PanelState)
        ensures
            panel@.screen == first_screen(levels@, address),
            panel@.message_until_ns is None,
            panel@.last_snapshot_ns == 0,
            panel@.last_address_ns == 0,
            !panel@.dirty,
            panel@.last_frame == crate::screen::rendered(panel@.screen),
    {
        let mut screen = ScreenState::default();
        screen.buttons = [rest(levels[0]), rest(levels[1]), rest(levels[2]), rest(levels[3])];
        screen.ip_address = address;
        assert(screen@ =~= first_screen(levels@, address));
        let last_frame = render(&screen);
        PanelState {
            screen,
            message_until_ns: None,
            last_snapshot_ns: 0,
            last_address_ns: 0,
            dirty: false,
            last_frame,
        }
    }

    /// What is known of all four buttons.
    pub fn snapshots(&self) -> (events: [ButtonEvent; 4])
        ensures
            crate::button::event_views(events@) == crate::button::snapshots(self@.screen.buttons),
    {
        button_snapshots(&self.screen.buttons)
    }

    /// Carries out a command, and tells of a press from elsewhere.
    pub fn command(&mut self, command: PanelCommand, now_ns: u64) -> (event: Option<ButtonEvent>)
        ensures
            final(self)@ == commanded(old(self)@, command, now_ns),
            crate::button::event_view(event) == command_event(old(self)@, command),
    {
        match command {
            PanelCommand::Readings(readings) => {
                self.screen.readings = readings;
                self.screen.sample_number = self.screen.sample_number.wrapping_add(1);
                self.dirty = true;
                None
            },
            PanelCommand::Message { text, ttl_seconds } => {
                let seconds: u64 = if ttl_seconds <= MAX_MESSAGE_SECONDS {
                    ttl_seconds
                } else {
                    MAX_MESSAGE_SECONDS
                };
                self.screen.message = Some(text);
                self.message_until_ns = Some(now_ns as u128 + (seconds as u128) * 1_000_000_000);
                self.dirty = true;
                None
            },
            PanelCommand::VirtualPress { button } => {
                let mut buttons = self.screen.buttons;
                match virtual_press(&mut buttons, button.as_str()) {
                    Some(event) => {
                        self.screen.buttons = buttons;
                        self.screen.message = Some(
                            crate::text::after_each_other("REMOTE ", button.as_str()),
                        );
                        self.message_until_ns = Some(now_ns as u128 + 1_000_000_000);
                        self.dirty = true;
                        Some(event)
                    },
                    None => None,
                }
            },
        }
    }

    /// Whether the level of a button can be taken in: a press that begins to count needs room
    /// for it.
    pub fn can_take_level(&self, index: usize, pressed: bool, now_ns: u64) -> (yes: bool)
        requires
            index < 4,
        ensures
            yes == countable(self@.screen.buttons[index as int], pressed, now_ns),
    {
        let state: ButtonState = self.screen.buttons[index];
        if state.count < u64::MAX {
            return true;
        }
        let changed_at_ns: u128 = if state.raw != pressed {
            now_ns as u128
        } else {
            state.changed_at_ns
        };
        let lasted_ns: u128 = if now_ns as u128 >= changed_at_ns {
            now_ns as u128 - changed_at_ns
        } else {
            0
        };
        !(pressed && state.stable != pressed && lasted_ns >= DEBOUNCE_NS)
    }

    /// Takes note of a button's level, and tells when the level that counts has changed.
    pub fn level(&mut self, index: usize, pressed: bool, now_ns: u64) -> (event: Option<
        ButtonEvent,
    >)
        requires
            index < 4,
            countable(old(self)@.screen.buttons[index as int], pressed, now_ns),
        ensures
            final(self)@ == leveled(old(self)@, index as int, pressed, now_ns),
            crate::button::event_view(event) == crate::button::told(
                crate::button::name_of(index as int),
                old(self)@.screen.buttons[index as int],
                pressed,
                now_ns as u128,
            ),
    {
        let mut state: ButtonState = self.screen.buttons[index];
        let event = state.observe(button_name(index), pressed, now_ns as u128);
        self.screen.buttons[index] = state;
        if event.is_some() {
            self.dirty = true;
        }
        event
    }

    /// Takes down a message whose time is over.
    pub fn expire_message(&mut self, now_ns: u64)
        ensures
            final(self)@ == expired(old(self)@, now_ns),
    {
        if let Some(until) = self.message_until_ns {
            if now_ns as u128 >= until {
                self.screen.message = None;
                self.message_until_ns = None;
                self.dirty = true;
            }
        }
    }

    /// What is known of all four buttons, if a second has passed since that was last told.
    pub fn due_snapshots(&mut self, now_ns: u64) -> (events: Option<[ButtonEvent; 4]>)
        ensures
            events is Some <==> passed(old(self)@.last_snapshot_ns, now_ns, SECOND_NS),
            events is Some <==> snapshots_due(old(self)@, now_ns),
            events matches Some(events) ==> crate::button::event_views(events@)
                == crate::button::snapshots(old(self)@.screen.buttons),
            final(self)@ == (PanelView {
                last_snapshot_ns: if passed(old(self)@.last_snapshot_ns, now_ns, SECOND_NS) {
                    now_ns
                } else {
                    old(self)@.last_snapshot_ns
                },
                ..old(self)@
            }),
    {
        if has_passed(self.last_snapshot_ns, now_ns, SECOND_NS) {
            self.last_snapshot_ns = now_ns;
            Some(button_snapshots(&self.screen.buttons))
        } else {
            None
        }
    }

    /// Whether the address of the machine is to be looked up again.
    pub fn address_due(&self, now_ns: u64) -> (yes: bool)
        ensures
            yes == passed(self@.last_address_ns, now_ns, ADDRESS_NS),
    {
        has_passed(self.last_address_ns, now_ns, ADDRESS_NS)
    }

    /// Takes in the address of the machine, and tells whether it is another one.
    pub fn address(&mut self, address: Option<Address>, now_ns: u64) -> (changed: bool)
        ensures
            changed == (address != old(self)@.screen.ip_address),
            final(self)@ == (PanelView {
                screen: ScreenView { ip_address: address, ..old(self)@.screen },
                last_address_ns: now_ns,
                dirty: old(self)@.dirty || changed,
                ..old(self)@
            }),
            final(self)@ == addressed(old(self)@, address, now_ns),
    {
        let changed: bool = match (&address, &self.screen.ip_address) {
            (None, None) => false,
            (Some(new), Some(held)) => *new != *held,
            _ => true,
        };
        if changed {
            self.screen.ip_address = address;
            self.dirty = true;
        }
        self.last_address_ns = now_ns;
        changed
    }

    /// The frame to draw, if what is shown has changed since the last one.
    pub fn redraw(&mut self) -> (frame: Option<Vec<u16>>)
        ensures
            final(self)@ == (PanelView {
                dirty: false,
                last_frame: if old(self)@.dirty {
                    crate::screen::rendered(old(self)@.screen)
                } else {
                    old(self)@.last_frame
                },
                ..old(self)@
            }),
            match frame {
                Some(frame) => {
                    &&& old(self)@.dirty
                    &&& frame@ == crate::screen::rendered(old(self)@.screen)
                    &&& frame@ != old(self)@.last_frame
                    &&& frame@.len() == crate::canvas::PIXELS
                },
                None => !old(self)@.dirty || crate::screen::rendered(old(self)@.screen)
                    == old(self)@.last_frame,
            },
            final(self)@ == redrawn(old(self)@),
            frame is Some <==> redrawn(old(self)@).last_frame != old(self)@.last_frame,
            frame matches Some(frame) ==> frame@ == redrawn(old(self)@).last_frame,
    {
        if !self.dirty {
            return None;
        }
        self.dirty = false;
        let frame = render(&self.screen);
        if same_frame(&frame, &self.last_frame) {
            return None;
        }
        self.last_frame = copy_frame(&frame);
        Some(frame)
    }
}

fn same_frame(a: &Vec<u16>, b: &Vec<u16>) -> (same: bool)
    ensures
        same == (a@ == b@),
{
    if a.len() != b.len() {
        return false;
    }
    let mut i: usize = 0;
    while i < a.len()
        invariant
            i <= a@.len() == b@.len(),
            forall|j: int| 0 <= j < i ==> a@[j] == b@[j],
        decreases a.len() - i,
    {
        if a[i] != b[i] {
            return false;
        }
        i += 1;
    }
    assert(a@ =~= b@);
    true
}

fn copy_frame(frame: &Vec<u16>) -> (copy: Vec<u16>)
    ensures
        copy@ == frame@,
{
    let mut copy: Vec<u16> = Vec::with_capacity(frame.len());
    let mut i: usize = 0;
    while i < frame.len()
        invariant
            i <= frame@.len(),
            copy@ == frame@.take(i as int),
        decreases frame.len() - i,
    {
        copy.push(frame[i]);
        assert(copy@ =~= frame@.take(i + 1));
        i += 1;
    }
    assert(frame@.take(i as int) =~= frame@);
    copy
}

/// A message leaves the screen as soon as its time is over, and not before; no message stays
/// for more than an hour.
pub proof fn law_message_lasts_its_time(
    panel: PanelView,
    text: String,
    ttl_seconds: u64,
    shown_at_ns: u64,
    now_ns: u64,
)
    ensures
        ({
            let shown = commanded(panel, PanelCommand::Message { text, ttl_seconds }, shown_at_ns);
            let lasts = lasting(ttl_seconds) * 1_000_000_000;
            &&& shown.screen.message == Some(text@)
            &&& lasts <= 3_600_000_000_000
            &&& now_ns < shown_at_ns + lasts ==> expired(shown, now_ns) == shown
            &&& now_ns >= shown_at_ns + lasts ==> expired(shown, now_ns).screen.message is None
        }),
{
}

/// A press from elsewhere of a button that does not exist changes nothing and tells nothing.
pub proof fn law_unknown_button_is_ignored(panel: PanelView, button: String, now_ns: u64)
    requires
        crate::button::index_of(button@) is None,
    ensures
        commanded(panel, PanelCommand::VirtualPress { button }, now_ns) == panel,
        command_event(panel, PanelCommand::VirtualPress { button }) is None,
{
}

/// Readings do not take a message down, and a message does not lose readings: when it is
/// over, the latest readings show.
pub proof fn law_readings_survive_a_message(
    panel: PanelView,
    readings: Vec<ScreenReading>,
    now_ns: u64,
)
    ensures
        ({
            let after = commanded(panel, PanelCommand::Readings(readings), now_ns);
            &&& after.screen.message == panel.screen.message
            &&& after.message_until_ns == panel.message_until_ns
            &&& after.screen.readings == crate::screen::reading_views(readings@)
            &&& expired(after, now_ns).screen.readings == after.screen.readings
        }),
{
}

/// Whatever changes what is shown also marks the panel for drawing, so a clean panel shows
/// its state.
pub open spec fn up_to_date(panel: PanelView) -> bool {
    !panel.dirty ==> panel.last_frame == crate::screen::rendered(panel.screen)
}

proof fn lemma_buttons_look_the_same(
    frame: Seq<u16>,
    one: Seq<ButtonState>,
    other: Seq<ButtonState>,
    n: int,
)
    requires
        0 <= n <= 4,
        one.len() == other.len() == 4,
        forall|i: int|
            0 <= i < 4 ==> (#[trigger] one[i]).stable == other[i].stable && one[i].count
                == other[i].count,
    ensures
        crate::screen::with_buttons(frame, one, n) == crate::screen::with_buttons(frame, other, n),
    decreases n,
{
    if n > 0 {
        lemma_buttons_look_the_same(frame, one, other, n - 1);
        assert(one[n - 1].stable == other[n - 1].stable);
    }
}

/// A panel that is not marked for drawing shows its state, whatever is done with it.
pub proof fn law_clean_panel_is_up_to_date(
    panel: PanelView,
    command: PanelCommand,
    index: int,
    pressed: bool,
    now_ns: u64,
)
    requires
        up_to_date(panel),
        panel.screen.buttons.len() == 4,
        0 <= index < 4,
    ensures
        up_to_date(commanded(panel, command, now_ns)),
        up_to_date(leveled(panel, index, pressed, now_ns)),
        up_to_date(expired(panel, now_ns)),
{
    let after = leveled(panel, index, pressed, now_ns);
    if !after.dirty {
        let one = panel.screen;
        let other = after.screen;
        assert(crate::screen::lines_of(one) == crate::screen::lines_of(other)) by {
            assert(one.readings == other.readings);
            assert(crate::screen::reading_lines(one) =~= crate::screen::reading_lines(other));
        }
        lemma_buttons_look_the_same(
            crate::screen::with_lines(
                crate::screen::background(),
                crate::screen::lines_of(one),
                one.message is Some,
                crate::screen::lines_of(one).len() as int,
            ),
            one.buttons,
            other.buttons,
            4,
        );
    }
}

/// A button that is held when the panel starts is told as held, with no press counted.
pub proof fn law_held_at_start_is_not_a_press(
    levels: Seq<bool>,
    address: Option<Address>,
    i: int,
)
    requires
        0 <= i < 4,
    ensures
        crate::button::snapshots(first_screen(levels, address).buttons)[i].pressed == levels[i],
        crate::button::snapshots(first_screen(levels, address).buttons)[i].count == 0,
{
}

/// A message is shown for as many seconds as it asks for, but for an hour at most, from the time
/// that it came in; then it is taken down.
pub proof fn law_message_is_shown_for_its_seconds(
    panel: PanelView,
    text: String,
    ttl_seconds: u64,
    shown_at_ns: u64,
    now_ns: u64,
)
    ensures
        ({
            let shown = commanded(panel, PanelCommand::Message { text, ttl_seconds }, shown_at_ns);
            let later = expired(shown, now_ns);
            let seconds = if ttl_seconds <= 3600 {
                ttl_seconds as int
            } else {
                3600
            };
            &&& shown.screen.message == Some(text@)
            &&& shown.dirty
            &&& shown.screen.buttons == panel.screen.buttons
            &&& shown.screen.readings == panel.screen.readings
            &&& shown.screen.sample_number == panel.screen.sample_number
            &&& shown.screen.ip_address == panel.screen.ip_address
            &&& now_ns < shown_at_ns + seconds * 1_000_000_000 ==> later == shown
            &&& now_ns >= shown_at_ns + seconds * 1_000_000_000 ==> later.screen.message is None
                && later.message_until_ns is None && later.dirty
            &&& command_event(panel, PanelCommand::Message { text, ttl_seconds }) is None
        }),
{
}

/// A press from elsewhere shows for a second which button was pressed, and counts.
pub proof fn law_remote_press_shows_for_a_second(
    panel: PanelView,
    button: String,
    i: int,
    pressed_at_ns: u64,
    now_ns: u64,
)
    requires
        panel.screen.buttons.len() == 4,
        0 <= i < 4,
        button@ == seq!["A"@, "B"@, "X"@, "Y"@][i],
        panel.screen.buttons[i].count < u64::MAX,
    ensures
        ({
            let command = PanelCommand::VirtualPress { button };
            let shown = commanded(panel, command, pressed_at_ns);
            let event = command_event(panel, command);
            &&& shown.screen.message == Some("REMOTE "@ + button@)
            &&& shown.dirty
            &&& shown.screen.buttons[i].count == panel.screen.buttons[i].count + 1
            &&& shown.screen.buttons[i].stable == panel.screen.buttons[i].stable
            &&& event is Some
            &&& event->Some_0.button == button@
            &&& event->Some_0.pressed == panel.screen.buttons[i].stable
            &&& event->Some_0.count == panel.screen.buttons[i].count + 1
            &&& now_ns < pressed_at_ns + 1_000_000_000 ==> expired(shown, now_ns) == shown
            &&& now_ns >= pressed_at_ns + 1_000_000_000 ==> expired(
                shown,
                now_ns,
            ).screen.message is None
        }),
{
    crate::button::law_virtual_press_counts(panel.screen.buttons, button@, i);
    crate::button::law_names_and_lines_of_the_buttons(i, button@);
}

/// Readings replace the earlier ones, as they are, and count as one more sample. After the
/// largest number the samples count from zero.
pub proof fn law_readings_count_as_a_sample(
    panel: PanelView,
    readings: Vec<ScreenReading>,
    now_ns: u64,
    i: int,
)
    requires
        0 <= i < readings@.len(),
    ensures
        ({
            let after = commanded(panel, PanelCommand::Readings(readings), now_ns);
            &&& after.dirty
            &&& after.screen.readings.len() == readings@.len()
            &&& after.screen.readings[i].channel == readings@[i].channel
            &&& after.screen.readings[i].status == readings@[i].status
            &&& after.screen.readings[i].percent == readings@[i].percent@
            &&& after.screen.readings[i].hertz == readings@[i].hertz@
            &&& panel.screen.sample_number < u64::MAX ==> after.screen.sample_number
                == panel.screen.sample_number + 1
            &&& panel.screen.sample_number == u64::MAX ==> after.screen.sample_number == 0
            &&& after.screen.buttons == panel.screen.buttons
            &&& after.screen.ip_address == panel.screen.ip_address
            &&& command_event(panel, PanelCommand::Readings(readings)) is None
        }),
{
}

/// The level of a button touches that button alone, and marks the panel for drawing exactly if
/// it begins to count.
pub proof fn law_level_touches_its_button(
    panel: PanelView,
    index: int,
    other: int,
    pressed: bool,
    now_ns: u64,
)
    requires
        panel.screen.buttons.len() == 4,
        0 <= index < 4,
        0 <= other < 4,
        other != index,
    ensures
        ({
            let after = leveled(panel, index, pressed, now_ns);
            &&& after.screen.buttons[other] == panel.screen.buttons[other]
            &&& after.screen.message == panel.screen.message
            &&& after.screen.readings == panel.screen.readings
            &&& after.dirty <==> panel.dirty || after.screen.buttons[index].stable
                != panel.screen.buttons[index].stable
        }),
{
}

/// What is told of the buttons is told every second, and the address is looked up every five;
/// levels that keep changing are given up after ten tries, and no message stays over an hour.
pub proof fn law_rhythm_of_the_panel(since_ns: u64, now_ns: u64)
    ensures
        passed(since_ns, now_ns, SECOND_NS) <==> now_ns >= since_ns + 1_000_000_000,
        passed(since_ns, now_ns, ADDRESS_NS) <==> now_ns >= since_ns + 5_000_000_000,
        SETTLE_TRIES == 10,
        MAX_MESSAGE_SECONDS == 3600,
{
}

/// A panel starts with the buttons as they are, without a message, a reading or a sample.
pub proof fn law_panel_starts_blank(levels: Seq<bool>, address: Option<Address>, i: int)
    requires
        0 <= i < 4,
    ensures
        ({
            let screen = first_screen(levels, address);
            &&& screen.message is None
            &&& screen.readings.len() == 0
            &&& screen.sample_number == 0
            &&& screen.ip_address == address
            &&& screen.buttons.len() == 4
            &&& screen.buttons[i].raw == levels[i]
            &&& screen.buttons[i].stable == levels[i]
            &&& screen.buttons[i].count == 0
        }),
{
}

/// Levels have come to rest as soon as two readings in a row agree; they are read again until
/// then, but ten times at most.
pub proof fn law_two_equal_readings_settle(before: Seq<bool>, tries: u64, levels: Seq<bool>)
    requires
        tries < 10,
    ensures
        settling_of(before, tries, levels) is Settled <==> levels == before,
        settling_of(before, tries, levels) is GaveUp <==> levels != before && tries == 9,
        settling_of(before, tries, levels) is Again <==> levels != before && tries < 9,
{
}

/// A drawn panel shows its state, if a clean one did before, and nothing else of it changes;
/// drawing it once more changes nothing.
pub proof fn law_drawing_shows_the_state(panel: PanelView)
    requires
        up_to_date(panel),
    ensures
        !redrawn(panel).dirty,
        redrawn(panel).last_frame == crate::screen::rendered(panel.screen),
        redrawn(panel).screen == panel.screen,
        redrawn(panel).message_until_ns == panel.message_until_ns,
        redrawn(redrawn(panel)) == redrawn(panel),
{
}

/// A new address is shown, and what was looked up is relied on from that time on; an address
/// that has not changed is not drawn again.
pub proof fn law_address_is_shown(panel: PanelView, address: Option<Address>, now_ns: u64)
    requires
        up_to_date(panel),
    ensures
        ({
            let after = addressed(panel, address, now_ns);
            &&& after.screen.ip_address == address
            &&& after.last_address_ns == now_ns
            &&& after.screen.readings == panel.screen.readings
            &&& after.screen.buttons == panel.screen.buttons
            &&& after.screen.message == panel.screen.message
            &&& after.dirty <==> panel.dirty || address != panel.screen.ip_address
            &&& up_to_date(after)
        }),
{
}

/// What is known of the buttons is told once a second has passed since it was last told.
pub proof fn law_buttons_are_told_every_second(panel: PanelView, now_ns: u64)
    ensures
        snapshots_due(panel, now_ns) <==> now_ns >= panel.last_snapshot_ns + 1_000_000_000,
{
}

} // verus!
