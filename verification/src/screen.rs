//! What the screen shows: a message or the readings, above the row of buttons.
use vstd::prelude::*;
use vstd::string::*;

use crate::button::{button_name, ButtonState};
use crate::canvas::{draw_text, fill_rect, rgb565, PIXELS};
use crate::message::layout_message;
use crate::sensor::ReadingStatus;
use crate::text::{decimal_text, four_digit_text};

verus! {

/// An IPv4 address.
#[derive(Clone, Copy, Debug, PartialEq, Eq, Structural)]
pub struct Address {
    pub a: u8,
    pub b: u8,
    pub c: u8,
    pub d: u8,
}

/// A reading as the screen shows it.
#[derive(Clone, Debug)]
pub struct ScreenReading {
    pub channel: u8,
    pub status: ReadingStatus,
    /// The moisture percentage, rounded to a whole number.
    pub percent: String,
    /// The frequency, rounded to one decimal place.
    pub hertz: String,
}

/// A reading as the screen shows it, in characters.
pub struct ScreenReadingView {
    pub channel: u8,
    pub status: ReadingStatus,
    pub percent: Seq<char>,
    pub hertz: Seq<char>,
}

impl View for ScreenReading {
    type V = ScreenReadingView;

    open spec fn view(&self) -> ScreenReadingView {
        ScreenReadingView {
            channel: self.channel,
            status: self.status,
            percent: self.percent@,
            hertz: self.hertz@,
        }
    }
}

/// Everything that the screen depends on.
#[derive(Clone)]
pub struct ScreenState {
    pub readings: Vec<ScreenReading>,
    pub buttons: [ButtonState; 4],
    pub message: Option<String>,
    pub sample_number: u64,
    pub ip_address: Option<Address>,
}

/// Everything that the screen depends on, in characters.
#[verifier::ext_equal]
pub struct ScreenView {
    pub readings: Seq<ScreenReadingView>,
    pub buttons: Seq<ButtonState>,
    pub message: Option<Seq<char>>,
    pub sample_number: u64,
    pub ip_address: Option<Address>,
}

/// The readings as the screen shows them, in characters.
pub open spec fn reading_views(readings: Seq<ScreenReading>) -> Seq<ScreenReadingView> {
    readings.map_values(|reading: ScreenReading| reading@)
}

impl View for ScreenState {
    type V = ScreenView;

    open spec fn view(&self) -> ScreenView {
        ScreenView {
            readings: reading_views(self.readings@),
            buttons: self.buttons@,
            message: crate::sensor::words(self.message),
            sample_number: self.sample_number,
            ip_address: self.ip_address,
        }
    }
}

/// A screen before anything is known.
pub open spec fn blank_screen() -> ScreenView {
    ScreenView {
        readings: Seq::empty(),
        buttons: Seq::new(4, |i: int| crate::button::untouched()),
        message: None,
        sample_number: 0,
        ip_address: None,
    }
}

impl Default for ScreenState {
    /// A screen before anything is known.
    fn default() -> (state: ScreenState)
        ensures
            state@ == blank_screen(),
    {
        let none = ButtonState::default();
        let state = ScreenState {
            readings: Vec::new(),
            buttons: [none, none, none, none],
            message: None,
            sample_number: 0,
            ip_address: None,
        };
        assert(state@ =~= blank_screen());
        state
    }
}

/// The words for an address.
pub open spec fn address_words(address: Option<Address>) -> Seq<char> {
    match address {
        Some(ip) => crate::text::decimal(ip.a as nat) + "."@ + crate::text::decimal(ip.b as nat)
            + "."@ + crate::text::decimal(ip.c as nat) + "."@ + crate::text::decimal(ip.d as nat),
        None => "unavailable"@,
    }
}

/// The words for an address.
pub fn address_text(address: &Option<Address>) -> (text: String)
    ensures
        text@ == address_words(*address),
{
    match address {
        Some(ip) => decimal_text(ip.a as u64).concat(".").concat(
            decimal_text(ip.b as u64).as_str(),
        ).concat(".").concat(decimal_text(ip.c as u64).as_str()).concat(".").concat(
            decimal_text(ip.d as u64).as_str(),
        ),
        None => "unavailable".to_owned(),
    }
}

/// The first reading of a channel among those from the `i`th on.
pub open spec fn first_reading(
    readings: Seq<ScreenReadingView>,
    channel: u8,
    i: int,
) -> Option<ScreenReadingView>
    decreases readings.len() - i,
{
    if i >= readings.len() {
        None
    } else if readings[i].channel == channel {
        Some(readings[i])
    } else {
        first_reading(readings, channel, i + 1)
    }
}

/// The line for the address and the sample number.
pub open spec fn head_line(state: ScreenView) -> Seq<char> {
    "IP "@ + address_words(state.ip_address) + " #"@ + crate::text::four_digits(
        state.sample_number as nat,
    )
}

/// What a channel's line says of its reading.
pub open spec fn reading_words(reading: Option<ScreenReadingView>) -> Seq<char> {
    match reading {
        None => "--"@,
        Some(reading) => match reading.status {
            ReadingStatus::Valid => reading.percent + "%  "@ + reading.hertz + "Hz"@,
            ReadingStatus::Uncalibrated => reading.hertz + "Hz  no cal"@,
            ReadingStatus::NoSignal => "NO SIGNAL"@,
            ReadingStatus::Invalid => "INVALID"@,
            ReadingStatus::Stale => "STALE"@,
        },
    }
}

/// The line of a channel.
pub open spec fn channel_line(state: ScreenView, channel: u8) -> Seq<char> {
    "M"@ + crate::text::decimal(channel as nat) + ": "@ + reading_words(
        first_reading(state.readings, channel, 0),
    )
}

/// The lines that show the readings.
pub open spec fn reading_lines(state: ScreenView) -> Seq<Seq<char>> {
    seq![
        head_line(state),
        channel_line(state, 1),
        channel_line(state, 2),
        channel_line(state, 3),
    ]
}

fn reading_text(state: &ScreenState, channel: u8) -> (text: String)
    ensures
        text@ == reading_words(first_reading(state@.readings, channel, 0)),
{
    let mut i: usize = 0;
    while i < state.readings.len()
        invariant
            i <= state.readings@.len(),
            state@.readings.len() == state.readings@.len(),
            first_reading(state@.readings, channel, 0) == first_reading(
                state@.readings,
                channel,
                i as int,
            ),
        decreases state.readings.len() - i,
    {
        let reading = &state.readings[i];
        assert(state@.readings[i as int] == reading@);
        if reading.channel == channel {
            return match reading.status {
                ReadingStatus::Valid => reading.percent.clone().concat("%  ").concat(
                    reading.hertz.as_str(),
                ).concat("Hz"),
                ReadingStatus::Uncalibrated => reading.hertz.clone().concat("Hz  no cal"),
                ReadingStatus::NoSignal => "NO SIGNAL".to_owned(),
                ReadingStatus::Invalid => "INVALID".to_owned(),
                ReadingStatus::Stale => "STALE".to_owned(),
            };
        }
        i += 1;
    }
    "--".to_owned()
}

fn channel_text(state: &ScreenState, channel: u8) -> (text: String)
    ensures
        text@ == channel_line(state@, channel),
{
    "M".to_owned().concat(decimal_text(channel as u64).as_str()).concat(": ").concat(
        reading_text(state, channel).as_str(),
    )
}

/// The lines that show the readings: the address with the sample number, and one line for
/// each channel.
pub fn display_lines(state: &ScreenState) -> (lines: Vec<String>)
    ensures
        crate::message::lines_view(lines@) == reading_lines(state@),
{
    let head = "IP ".to_owned().concat(address_text(&state.ip_address).as_str()).concat(
        " #",
    ).concat(four_digit_text(state.sample_number).as_str());
    let mut lines: Vec<String> = Vec::new();
    lines.push(head);
    lines.push(channel_text(state, 1));
    lines.push(channel_text(state, 2));
    lines.push(channel_text(state, 3));
    assert(crate::message::lines_view(lines@) =~= reading_lines(state@));
    lines
}

/// The lines that the screen shows.
pub open spec fn lines_of(state: ScreenView) -> Seq<Seq<char>> {
    match state.message {
        Some(text) => crate::message::shown_lines(text),
        None => reading_lines(state),
    }
}

/// The row that a line begins at. Messages are set closer than readings.
pub open spec fn line_row(is_message: bool, i: int) -> int {
    if is_message {
        i * 10
    } else {
        3 + i * 12
    }
}

/// The colour of highlights.
pub open spec fn highlight() -> u16 {
    crate::canvas::colour(0, 220, 150)
}

/// A frame with the first `n` lines on it. The first line is highlighted.
pub open spec fn with_lines(
    frame: Seq<u16>,
    lines: Seq<Seq<char>>,
    is_message: bool,
    n: int,
) -> Seq<u16>
    decreases n,
{
    if n <= 0 {
        frame
    } else {
        crate::canvas::written(
            with_lines(frame, lines, is_message, n - 1),
            5,
            line_row(is_message, n - 1),
            lines[n - 1],
            if n == 1 {
                highlight()
            } else {
                0xffff
            },
        )
    }
}

/// A frame with a button on it: its field, its name and its count. A held one is highlighted.
pub open spec fn with_button(frame: Seq<u16>, state: ButtonState, i: int) -> Seq<u16> {
    let fill = if state.stable {
        highlight()
    } else {
        crate::canvas::colour(30, 55, 65)
    };
    let ink: u16 = if state.stable {
        0
    } else {
        0xffff
    };
    crate::canvas::written(
        crate::canvas::written(
            crate::canvas::filled(frame, i * 40 + 1, 51, 38, 28, fill),
            i * 40 + 16,
            55,
            crate::button::name_of(i),
            ink,
        ),
        i * 40 + 13,
        67,
        crate::text::decimal(state.count as nat),
        ink,
    )
}

/// A frame with the first `n` buttons on it.
pub open spec fn with_buttons(frame: Seq<u16>, buttons: Seq<ButtonState>, n: int) -> Seq<u16>
    decreases n,
{
    if n <= 0 {
        frame
    } else {
        with_button(with_buttons(frame, buttons, n - 1), buttons[n - 1], n - 1)
    }
}

/// An empty frame.
pub open spec fn background() -> Seq<u16> {
    Seq::new(PIXELS as nat, |k: int| crate::canvas::colour(8, 20, 28))
}

/// The frame for a state.
pub open spec fn rendered(state: ScreenView) -> Seq<u16> {
    with_buttons(
        with_lines(
            background(),
            lines_of(state),
            state.message is Some,
            lines_of(state).len() as int,
        ),
        state.buttons,
        4,
    )
}

fn draw_lines(pixels: &mut Vec<u16>, lines: &Vec<String>, is_message: bool)
    requires
        old(pixels)@.len() == PIXELS,
        lines@.len() <= 5,
    ensures
        final(pixels)@ == with_lines(
            old(pixels)@,
            crate::message::lines_view(lines@),
            is_message,
            lines@.len() as int,
        ),
        final(pixels)@.len() == PIXELS,
{
    let ghost before = pixels@;
    let mut i: usize = 0;
    while i < lines.len()
        invariant
            i <= lines@.len() <= 5,
            pixels@.len() == PIXELS,
            pixels@ == with_lines(
                before,
                crate::message::lines_view(lines@),
                is_message,
                i as int,
            ),
        decreases lines.len() - i,
    {
        let y: usize = if is_message {
            i * 10
        } else {
            3 + i * 12
        };
        let ink: u16 = if i == 0 {
            rgb565(0, 220, 150)
        } else {
            0xffff
        };
        draw_text(pixels, 5, y, lines[i].as_str(), ink);
        i += 1;
    }
}

fn draw_button(pixels: &mut Vec<u16>, state: &ButtonState, i: usize)
    requires
        old(pixels)@.len() == PIXELS,
        i < 4,
    ensures
        final(pixels)@ == with_button(old(pixels)@, *state, i as int),
        final(pixels)@.len() == PIXELS,
{
    let fill: u16 = if state.stable {
        rgb565(0, 220, 150)
    } else {
        rgb565(30, 55, 65)
    };
    let ink: u16 = if state.stable {
        0
    } else {
        0xffff
    };
    fill_rect(pixels, i * 40 + 1, 51, 38, 28, fill);
    draw_text(pixels, i * 40 + 16, 55, button_name(i), ink);
    draw_text(pixels, i * 40 + 13, 67, decimal_text(state.count).as_str(), ink);
}

fn empty_frame() -> (pixels: Vec<u16>)
    ensures
        pixels@ == background(),
{
    let colour: u16 = rgb565(8, 20, 28);
    let mut pixels: Vec<u16> = Vec::with_capacity(PIXELS);
    let mut k: usize = 0;
    while k < PIXELS
        invariant
            k <= PIXELS,
            colour == crate::canvas::colour(8, 20, 28),
            pixels@ == background().take(k as int),
        decreases PIXELS - k,
    {
        pixels.push(colour);
        assert(pixels@ =~= background().take(k + 1));
        k += 1;
    }
    assert(background().take(k as int) =~= background());
    pixels
}

/// The frame for a state.
pub fn render(state: &ScreenState) -> (pixels: Vec<u16>)
    ensures
        pixels@ == rendered(state@),
        pixels@.len() == PIXELS,
{
    let mut pixels = empty_frame();
    let lines: Vec<String> = match &state.message {
        Some(message) => layout_message(message.as_str()).0,
        None => display_lines(state),
    };
    proof {
        if state.message is Some {
            crate::message::law_message_stays_on_the_screen(state.message->Some_0@);
        }
        assert(lines@.len() == crate::message::lines_view(lines@).len());
    }
    draw_lines(&mut pixels, &lines, state.message.is_some());
    let mut i: usize = 0;
    let ghost before = pixels@;
    while i < 4
        invariant
            i <= 4,
            pixels@.len() == PIXELS,
            pixels@ == with_buttons(before, state.buttons@, i as int),
        decreases 4 - i,
    {
        draw_button(&mut pixels, &state.buttons[i], i);
        i += 1;
    }
    pixels
}

proof fn lemma_lines_stay_above(
    frame: Seq<u16>,
    lines: Seq<Seq<char>>,
    is_message: bool,
    n: int,
    k: int,
)
    requires
        0 <= k < frame.len(),
        0 <= n <= 5,
        !is_message ==> n <= 4,
        crate::canvas::row(k) >= 47,
    ensures
        with_lines(frame, lines, is_message, n).len() == frame.len(),
        with_lines(frame, lines, is_message, n)[k] == frame[k],
    decreases n,
{
    if n > 0 {
        lemma_lines_stay_above(frame, lines, is_message, n - 1, k);
    }
}

proof fn lemma_buttons_agree(
    one: Seq<u16>,
    other: Seq<u16>,
    buttons: Seq<ButtonState>,
    n: int,
    k: int,
)
    requires
        one.len() == other.len(),
        0 <= k < one.len(),
        one[k] == other[k],
    ensures
        with_buttons(one, buttons, n).len() == one.len(),
        with_buttons(other, buttons, n).len() == one.len(),
        with_buttons(one, buttons, n)[k] == with_buttons(other, buttons, n)[k],
    decreases n,
{
    if n > 0 {
        lemma_buttons_agree(one, other, buttons, n - 1, k);
    }
}

/// Whatever message or readings are shown, the rows of the buttons look the same: nothing
/// above ever covers them.
pub proof fn law_button_rows_show_the_buttons_only(one: ScreenView, other: ScreenView, k: int)
    requires
        one.buttons == other.buttons,
        0 <= k < PIXELS,
        crate::canvas::row(k) >= 47,
    ensures
        rendered(one).len() == PIXELS,
        rendered(one)[k] == rendered(other)[k],
{
    if let Some(text) = one.message {
        crate::message::law_message_stays_on_the_screen(text);
    }
    if let Some(text) = other.message {
        crate::message::law_message_stays_on_the_screen(text);
    }
    let lines = lines_of(one);
    let others = lines_of(other);
    lemma_lines_stay_above(background(), lines, one.message is Some, lines.len() as int, k);
    lemma_lines_stay_above(background(), others, other.message is Some, others.len() as int, k);
    lemma_buttons_agree(
        with_lines(background(), lines, one.message is Some, lines.len() as int),
        with_lines(background(), others, other.message is Some, others.len() as int),
        one.buttons,
        4,
        k,
    );
}

/// A message hides the readings, the address and the sample number completely.
pub proof fn law_message_hides_the_readings(one: ScreenView, other: ScreenView)
    requires
        one.message is Some,
        one.message == other.message,
        one.buttons == other.buttons,
    ensures
        rendered(one) == rendered(other),
{
}

/// Whether a text of the screen has a dot at a pixel, if it begins in column 5 of a row: each
/// character takes six columns, of which five can have dots, and no more than 25 characters
/// find room. A row of a glyph has its dots from the left as 16, 8, 4, 2 and 1.
pub open spec fn line_dot(text: Seq<char>, top: int, x: int, y: int) -> bool {
    let i = (x - 5) / 6;
    let bits = crate::glyph::glyph_rows(crate::glyph::capital(text[i]))[y - top];
    &&& 5 <= x < 155
    &&& top <= y < top + 7
    &&& i < text.len()
    &&& (x - 5) % 6 < 5
    &&& bits / seq![16u8, 8, 4, 2, 1][(x - 5) % 6] % 2 == 1
}

proof fn lemma_line_dot(text: Seq<char>, top: int, x: int, y: int)
    requires
        0 <= x < 160,
    ensures
        crate::canvas::inked(text, 5, top, x, y) <==> line_dot(text, top, x, y),
{
    if x >= 5 {
        assert((160 - 5) / 6 == 25int);
        assert((x - 5) / 6 < 25 <==> x < 155);
    }
}

/// The lines do not share a row: the seven rows of each end before the next one begins, on a
/// screen of readings as well as in a message, and the last one ends above the buttons.
pub proof fn law_lines_are_apart(is_message: bool, i: int, j: int)
    requires
        0 <= i < j,
    ensures
        line_row(is_message, i) >= 0,
        line_row(is_message, i) + 7 <= line_row(is_message, j),
        !is_message && j <= 3 || is_message && j <= 4 ==> line_row(is_message, j) + 7 <= 47,
{
}

proof fn lemma_lines_on_a_row(
    frame: Seq<u16>,
    lines: Seq<Seq<char>>,
    is_message: bool,
    n: int,
    k: int,
)
    requires
        0 <= k < frame.len(),
        0 <= n <= lines.len(),
    ensures
        with_lines(frame, lines, is_message, n).len() == frame.len(),
        forall|i: int|
            0 <= i < n && line_row(is_message, i) <= k / 160 < line_row(is_message, i) + 7
                ==> with_lines(frame, lines, is_message, n)[k] == if line_dot(
                #[trigger] lines[i],
                line_row(is_message, i),
                k % 160,
                k / 160,
            ) {
                if i == 0 {
                    highlight()
                } else {
                    0xffff
                }
            } else {
                frame[k]
            },
        (forall|i: int|
            0 <= i < n ==> !(line_row(is_message, i) <= k / 160 < #[trigger] line_row(
                is_message,
                i,
            ) + 7)) ==> with_lines(frame, lines, is_message, n)[k] == frame[k],
    decreases n,
{
    if n > 0 {
        lemma_lines_on_a_row(frame, lines, is_message, n - 1, k);
        let before = with_lines(frame, lines, is_message, n - 1);
        let after = with_lines(frame, lines, is_message, n);
        let top = line_row(is_message, n - 1);
        lemma_line_dot(lines[n - 1], top, k % 160, k / 160);
        assert forall|i: int|
            0 <= i < n && line_row(is_message, i) <= k / 160 < line_row(is_message, i)
                + 7 implies after[k] == if line_dot(
            #[trigger] lines[i],
            line_row(is_message, i),
            k % 160,
            k / 160,
        ) {
            if i == 0 {
                highlight()
            } else {
                0xffff
            }
        } else {
            frame[k]
        } by {
            if i < n - 1 {
                law_lines_are_apart(is_message, i, n - 1);
                assert(after[k] == before[k]);
            } else {
                assert forall|h: int| 0 <= h < n - 1 implies !(line_row(is_message, h) <= k / 160
                    < #[trigger] line_row(is_message, h) + 7) by {
                    law_lines_are_apart(is_message, h, n - 1);
                }
            }
        }
        if forall|i: int|
            0 <= i < n ==> !(line_row(is_message, i) <= k / 160 < #[trigger] line_row(
                is_message,
                i,
            ) + 7) {
            assert(!(line_row(is_message, n - 1) <= k / 160 < line_row(is_message, n - 1) + 7));
            assert forall|i: int| 0 <= i < n - 1 implies !(line_row(is_message, i) <= k / 160
                < #[trigger] line_row(is_message, i) + 7) by {
                assert(0 <= i < n);
            }
        }
    }
}

proof fn lemma_buttons_leave_the_rows_above(
    frame: Seq<u16>,
    buttons: Seq<ButtonState>,
    n: int,
    k: int,
)
    requires
        0 <= k < frame.len(),
        k / 160 < 51,
    ensures
        with_buttons(frame, buttons, n).len() == frame.len(),
        with_buttons(frame, buttons, n)[k] == frame[k],
    decreases n,
{
    if n > 0 {
        lemma_buttons_leave_the_rows_above(frame, buttons, n - 1, k);
    }
}

/// What the screen shows of the readings, pixel by pixel. Without a message the line with the
/// address and the sample number stands in rows 3 to 9, in green, and the lines of channels 1, 2
/// and 3 in rows 15 to 21, 27 to 33 and 39 to 45, in white; all other rows above the buttons are
/// empty.
pub proof fn law_readings_show_line_by_line(state: ScreenView, x: int, y: int)
    requires
        state.message is None,
        0 <= x < 160,
        0 <= y < 51,
    ensures
        ({
            let pixel = rendered(state)[y * 160 + x];
            let empty = 2211u16;
            &&& rendered(state).len() == 12_800
            &&& 3 <= y < 10 ==> pixel == if line_dot(head_line(state), 3, x, y) {
                1778u16
            } else {
                empty
            }
            &&& 15 <= y < 22 ==> pixel == if line_dot(channel_line(state, 1), 15, x, y) {
                0xffffu16
            } else {
                empty
            }
            &&& 27 <= y < 34 ==> pixel == if line_dot(channel_line(state, 2), 27, x, y) {
                0xffffu16
            } else {
                empty
            }
            &&& 39 <= y < 46 ==> pixel == if line_dot(channel_line(state, 3), 39, x, y) {
                0xffffu16
            } else {
                empty
            }
            &&& y < 3 || 10 <= y < 15 || 22 <= y < 27 || 34 <= y < 39 || 46 <= y ==> pixel == empty
        }),
{
    let k = y * 160 + x;
    assert(k / 160 == y && k % 160 == x);
    let lines = reading_lines(state);
    let above = with_lines(background(), lines, false, 4);
    lemma_lines_on_a_row(background(), lines, false, 4, k);
    lemma_buttons_leave_the_rows_above(above, state.buttons, 4, k);
    lemma_colours();
    assert(lines[0] == head_line(state));
    assert(lines[1] == channel_line(state, 1));
    assert(lines[2] == channel_line(state, 2));
    assert(lines[3] == channel_line(state, 3));
    assert(line_row(false, 0) == 3 && line_row(false, 1) == 15 && line_row(false, 2) == 27
        && line_row(false, 3) == 39);
    if y < 3 || 10 <= y < 15 || 22 <= y < 27 || 34 <= y < 39 || 46 <= y {
        assert forall|i: int| 0 <= i < 4 implies !(line_row(false, i) <= k / 160
            < #[trigger] line_row(false, i) + 7) by {}
    }
}

proof fn lemma_colours()
    ensures
        highlight() == 1778,
        crate::canvas::colour(8, 20, 28) == 2211,
        crate::canvas::colour(30, 55, 65) == 6568,
{
}

/// What the screen shows of a message, pixel by pixel: its lines begin ten rows apart, from the
/// top, the first one in green and the others in white, and the other rows above the buttons are
/// empty.
pub proof fn law_message_shows_line_by_line(state: ScreenView, x: int, y: int)
    requires
        state.message is Some,
        0 <= x < 160,
        0 <= y < 51,
    ensures
        ({
            let pixel = rendered(state)[y * 160 + x];
            let lines = crate::message::shown_lines(state.message->Some_0);
            let i = y / 10;
            let shown = y % 10 < 7 && i < lines.len() && line_dot(lines[i], 10 * i, x, y);
            pixel == if !shown {
                2211u16
            } else if i == 0 {
                1778u16
            } else {
                0xffffu16
            }
        }),
{
    let k = y * 160 + x;
    assert(k / 160 == y && k % 160 == x);
    let lines = crate::message::shown_lines(state.message->Some_0);
    let n = lines.len() as int;
    let above = with_lines(background(), lines, true, n);
    crate::message::law_message_stays_on_the_screen(state.message->Some_0);
    lemma_lines_on_a_row(background(), lines, true, n, k);
    lemma_buttons_leave_the_rows_above(above, state.buttons, 4, k);
    lemma_colours();
    let i = y / 10;
    if y % 10 < 7 && i < n {
        assert(line_row(true, i) <= k / 160 < line_row(true, i) + 7);
        assert(lines[i] == lines[i]);
    } else {
        assert forall|h: int| 0 <= h < n implies !(line_row(true, h) <= k / 160
            < #[trigger] line_row(true, h) + 7) by {
            if 10 * h <= y < 10 * h + 7 {
                assert(y / 10 == h);
            }
        }
    }
}

proof fn lemma_later_buttons_keep_the_field(
    frame: Seq<u16>,
    buttons: Seq<ButtonState>,
    i: int,
    n: int,
    k: int,
)
    requires
        0 <= k < frame.len(),
        0 <= i < n <= 4,
        40 * i <= k % 160 < 40 * i + 40,
    ensures
        with_buttons(frame, buttons, n).len() == frame.len(),
        with_buttons(frame, buttons, n)[k] == with_buttons(frame, buttons, i + 1)[k],
    decreases n,
{
    if n > i + 1 {
        lemma_later_buttons_keep_the_field(frame, buttons, i, n - 1, k);
    } else {
        lemma_buttons_keep_the_size(frame, buttons, n);
    }
}

proof fn lemma_buttons_keep_the_size(frame: Seq<u16>, buttons: Seq<ButtonState>, n: int)
    ensures
        with_buttons(frame, buttons, n).len() == frame.len(),
    decreases n,
{
    if n > 0 {
        lemma_buttons_keep_the_size(frame, buttons, n - 1);
    }
}

/// Whether a text of the screen has a dot at a pixel, if it begins at a place.
pub open spec fn text_dot(text: Seq<char>, left: int, top: int, x: int, y: int) -> bool {
    let i = (x - left) / 6;
    let bits = crate::glyph::glyph_rows(crate::glyph::capital(text[i]))[y - top];
    &&& left <= x
    &&& top <= y < top + 7
    &&& i < text.len()
    &&& (x - left) % 6 < 5
    &&& bits / seq![16u8, 8, 4, 2, 1][(x - left) % 6] % 2 == 1
}

/// What the screen shows of a button, pixel by pixel. Its field lies below the lines, in the
/// quarter of the screen that belongs to it, and is green while the button is held and dark
/// otherwise. On it stand the button's name and below that how often it was pressed, in black
/// on green and in white on dark.
pub proof fn law_buttons_show_name_and_count(state: ScreenView, i: int, x: int, y: int)
    requires
        state.buttons.len() == 4,
        0 <= i < 4,
        1 <= x < 37,
        51 <= y < 79,
    ensures
        ({
            let button = state.buttons[i];
            let name = seq!["A"@, "B"@, "X"@, "Y"@][i];
            let count = crate::text::decimal(button.count as nat);
            rendered(state)[y * 160 + 40 * i + x] == if text_dot(name, 16, 55, x, y) || text_dot(
                count,
                13,
                67,
                x,
                y,
            ) {
                if button.stable {
                    0u16
                } else {
                    0xffff
                }
            } else if button.stable {
                1778
            } else {
                6568
            }
        }),
{
    let k = y * 160 + 40 * i + x;
    assert(k / 160 == y && k % 160 == 40 * i + x);
    let lines = lines_of(state);
    let above = with_lines(background(), lines, state.message is Some, lines.len() as int);
    lemma_lines_on_a_row(
        background(),
        lines,
        state.message is Some,
        lines.len() as int,
        k,
    );
    lemma_later_buttons_keep_the_field(above, state.buttons, i, 4, k);
    lemma_buttons_keep_the_size(above, state.buttons, i);
    lemma_colours();
    reveal_strlit("A");
    reveal_strlit("B");
    reveal_strlit("X");
    reveal_strlit("Y");
    let name = crate::button::name_of(i);
    assert(name.len() == 1);
    let count = crate::text::decimal(state.buttons[i].count as nat);
    lemma_text_dot_within_a_button(name, i, 16, 55, x, y);
    lemma_text_dot_within_a_button(count, i, 13, 67, x, y);
}

proof fn lemma_text_dot_within_a_button(
    text: Seq<char>,
    i: int,
    left: int,
    top: int,
    x: int,
    y: int,
)
    requires
        0 <= i < 4,
        13 <= left <= 16,
        1 <= x < 37,
    ensures
        crate::canvas::inked(text, 40 * i + left, top, 40 * i + x, y) <==> text_dot(
            text,
            left,
            top,
            x,
            y,
        ),
{
    if left <= x {
        assert((40 * i + x - (40 * i + left)) == x - left);
        assert((160 - (40 * i + left)) / 6 >= (x - left) / 6 + 1);
    }
}

/// The line of a channel says what the first reading of that channel says: moisture and
/// frequency if it is valid, the frequency if it is not calibrated, and otherwise why there is
/// none. Without a reading it says nothing.
pub proof fn law_channel_lines_tell_the_reading(state: ScreenView, channel: u8, i: int)
    requires
        1 <= channel <= 3,
    ensures
        ({
            let head = "M"@ + crate::text::decimal(channel as nat) + ": "@;
            let line = channel_line(state, channel);
            let first = 0 <= i < state.readings.len() && state.readings[i].channel == channel && (
            forall|j: int| 0 <= j < i ==> (#[trigger] state.readings[j]).channel != channel);
            let reading = state.readings[i];
            &&& first && reading.status is Valid ==> line == head + (reading.percent + "%  "@
                + reading.hertz + "Hz"@)
            &&& first && reading.status is Uncalibrated ==> line == head + (reading.hertz
                + "Hz  no cal"@)
            &&& first && reading.status is NoSignal ==> line == head + "NO SIGNAL"@
            &&& first && reading.status is Invalid ==> line == head + "INVALID"@
            &&& first && reading.status is Stale ==> line == head + "STALE"@
            &&& (forall|j: int|
                0 <= j < state.readings.len() ==> (#[trigger] state.readings[j]).channel
                    != channel) ==> line == head + "--"@
        }),
{
    if 0 <= i < state.readings.len() && state.readings[i].channel == channel && (forall|j: int|
        0 <= j < i ==> (#[trigger] state.readings[j]).channel != channel) {
        lemma_first_reading(state.readings, channel, 0, i);
    }
    if forall|j: int|
        0 <= j < state.readings.len() ==> (#[trigger] state.readings[j]).channel != channel {
        lemma_no_reading(state.readings, channel, 0);
    }
}

proof fn lemma_first_reading(readings: Seq<ScreenReadingView>, channel: u8, from: int, i: int)
    requires
        0 <= from <= i < readings.len(),
        readings[i].channel == channel,
        forall|j: int| 0 <= j < i ==> (#[trigger] readings[j]).channel != channel,
    ensures
        first_reading(readings, channel, from) == Some(readings[i]),
    decreases i - from,
{
    if from < i {
        lemma_first_reading(readings, channel, from + 1, i);
    }
}

proof fn lemma_no_reading(readings: Seq<ScreenReadingView>, channel: u8, from: int)
    requires
        0 <= from,
        forall|j: int| 0 <= j < readings.len() ==> (#[trigger] readings[j]).channel != channel,
    ensures
        first_reading(readings, channel, from) is None,
    decreases readings.len() - from,
{
    if from < readings.len() {
        lemma_no_reading(readings, channel, from + 1);
    }
}

/// The first line tells the address, its four numbers with dots between them, and the last four
/// digits of the sample number.
pub proof fn law_head_line_tells_address_and_sample(state: ScreenView)
    ensures
        ({
            let line = head_line(state);
            let n = line.len() as int;
            let digits = line.skip(n - 4);
            &&& n >= 9
            &&& line[n - 6] == ' ' && line[n - 5] == '#'
            &&& state.ip_address is None ==> line.take(n - 6) == "IP "@ + "unavailable"@
            &&& state.ip_address matches Some(ip) ==> line.take(n - 6) == "IP "@ + (
            crate::text::decimal(ip.a as nat) + "."@ + crate::text::decimal(ip.b as nat) + "."@
                + crate::text::decimal(ip.c as nat) + "."@ + crate::text::decimal(ip.d as nat))
            &&& crate::text::number_in(digits) == state.sample_number % 10_000
            &&& forall|i: int| 0 <= i < 4 ==> '0' <= #[trigger] digits[i] <= '9'
        }),
{
    reveal_strlit("IP ");
    reveal_strlit(" #");
    let words = "IP "@ + address_words(state.ip_address);
    let digits = crate::text::four_digits(state.sample_number as nat);
    let line = head_line(state);
    let n = line.len() as int;
    assert("IP "@.len() == 3);
    assert(" #"@.len() == 2 && " #"@[0] == ' ' && " #"@[1] == '#');
    assert(digits.len() == 4);
    assert(line.take(n - 6) =~= words);
    assert(line.skip(n - 4) =~= digits);
    crate::text::law_four_digits(state.sample_number as nat);
}

} // verus!
