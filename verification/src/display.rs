//! The transfers that set up the display and put a frame on it.
use vstd::prelude::*;

use crate::canvas::{rotated_rgb565_bytes, PIXELS};

verus! {

/// The most bytes that one write takes.
pub const CHUNK: usize = 4096;

/// Bytes for the display: a command byte or the data that belongs to it, and how long the
/// display needs afterwards.
#[derive(Clone, Debug, PartialEq, Eq)]
pub struct Transfer {
    pub is_data: bool,
    pub bytes: Vec<u8>,
    pub wait_ms: u64,
}

/// Bytes for the display, as a sequence.
#[verifier::ext_equal]
pub struct TransferView {
    pub is_data: bool,
    pub bytes: Seq<u8>,
    pub wait_ms: u64,
}

impl View for Transfer {
    type V = TransferView;

    open spec fn view(&self) -> TransferView {
        TransferView { is_data: self.is_data, bytes: self.bytes@, wait_ms: self.wait_ms }
    }
}

/// The views of some transfers.
pub open spec fn transfer_views(transfers: Seq<Transfer>) -> Seq<TransferView> {
    transfers.map_values(|transfer: Transfer| transfer@)
}

/// A command byte, its data and how long the display needs afterwards.
pub type DisplayCommand = (u8, Seq<u8>, u64);

/// The transfers of a command: the command byte, and its data if it has any.
pub open spec fn transfers_of(command: DisplayCommand) -> Seq<TransferView> {
    if command.1.len() == 0 {
        seq![TransferView { is_data: false, bytes: seq![command.0], wait_ms: command.2 }]
    } else {
        seq![
            TransferView { is_data: false, bytes: seq![command.0], wait_ms: 0 },
            TransferView { is_data: true, bytes: command.1, wait_ms: command.2 },
        ]
    }
}

/// The transfers of the first `n` commands.
pub open spec fn transfers_of_all(commands: Seq<DisplayCommand>, n: int) -> Seq<TransferView>
    decreases n,
{
    if n <= 0 {
        Seq::empty()
    } else {
        transfers_of_all(commands, n - 1) + transfers_of(commands[n - 1])
    }
}

/// The columns of the display that the screen uses.
pub open spec fn column_window() -> DisplayCommand {
    (0x2au8, seq![0u8, 26, 0, 105], 0u64)
}

/// The rows of the display that the screen uses.
pub open spec fn row_window() -> DisplayCommand {
    (0x2bu8, seq![0u8, 1, 0, 160], 0u64)
}

/// The commands that set the display up: reset, wake up, frame rates, power, colours inverted
/// and of 16 bits, the window of the screen, the two gamma curves, and on.
pub open spec fn setup_commands() -> Seq<DisplayCommand> {
    seq![
        (0x01u8, Seq::empty(), 150u64),
        (0x11u8, Seq::empty(), 500u64),
        (0xb1u8, seq![1u8, 0x2c, 0x2d], 0u64),
        (0xb2u8, seq![1u8, 0x2c, 0x2d], 0u64),
        (0xb3u8, seq![1u8, 0x2c, 0x2d, 1, 0x2c, 0x2d], 0u64),
        (0xb4u8, seq![7u8], 0u64),
        (0xc0u8, seq![0xa2u8, 2, 0x84], 0u64),
        (0xc1u8, seq![0x0au8, 0], 0u64),
        (0xc3u8, seq![0x8au8, 0x2a], 0u64),
        (0xc4u8, seq![0x8au8, 0xee], 0u64),
        (0xc5u8, seq![0x0eu8], 0u64),
        (0x21u8, Seq::empty(), 0u64),
        (0x36u8, seq![0xc8u8], 0u64),
        (0x3au8, seq![5u8], 0u64),
        column_window(),
        row_window(),
        (0xe0u8, seq![2u8, 28, 7, 18, 55, 50, 41, 45, 41, 37, 43, 57, 0, 1, 3, 16], 0u64),
        (0xe1u8, seq![3u8, 29, 7, 6, 46, 44, 41, 45, 46, 46, 55, 63, 0, 0, 2, 16], 0u64),
        (0x13u8, Seq::empty(), 100u64),
        (0x29u8, Seq::empty(), 100u64),
    ]
}

fn add_command(transfers: &mut Vec<Transfer>, command: u8, data: Vec<u8>, wait_ms: u64)
    ensures
        transfer_views(final(transfers)@) == transfer_views(old(transfers)@) + transfers_of(
            (command, data@, wait_ms),
        ),
{
    let ghost before = transfer_views(transfers@);
    let byte: Vec<u8> = vec![command];
    assert(byte@ =~= seq![command]);
    if data.is_empty() {
        transfers.push(Transfer { is_data: false, bytes: byte, wait_ms });
    } else {
        transfers.push(Transfer { is_data: false, bytes: byte, wait_ms: 0 });
        transfers.push(Transfer { is_data: true, bytes: data, wait_ms });
    }
    assert(transfer_views(transfers@) =~= before + transfers_of((command, data@, wait_ms)));
}

fn setup_command(n: usize) -> (command: (u8, Vec<u8>, u64))
    requires
        n < 20,
    ensures
        command.0 == setup_commands()[n as int].0,
        command.1@ == setup_commands()[n as int].1,
        command.2 == setup_commands()[n as int].2,
{
    if n == 0 {
        (0x01, Vec::new(), 150)
    } else if n == 1 {
        (0x11, Vec::new(), 500)
    } else if n == 2 {
        (0xb1, vec![1, 0x2c, 0x2d], 0)
    } else if n == 3 {
        (0xb2, vec![1, 0x2c, 0x2d], 0)
    } else if n == 4 {
        (0xb3, vec![1, 0x2c, 0x2d, 1, 0x2c, 0x2d], 0)
    } else if n == 5 {
        (0xb4, vec![7], 0)
    } else if n == 6 {
        (0xc0, vec![0xa2, 2, 0x84], 0)
    } else if n == 7 {
        (0xc1, vec![0x0a, 0], 0)
    } else if n == 8 {
        (0xc3, vec![0x8a, 0x2a], 0)
    } else if n == 9 {
        (0xc4, vec![0x8a, 0xee], 0)
    } else if n == 10 {
        (0xc5, vec![0x0e], 0)
    } else if n == 11 {
        (0x21, Vec::new(), 0)
    } else if n == 12 {
        (0x36, vec![0xc8], 0)
    } else if n == 13 {
        (0x3a, vec![5], 0)
    } else if n == 14 {
        (0x2a, vec![0, 26, 0, 105], 0)
    } else if n == 15 {
        (0x2b, vec![0, 1, 0, 160], 0)
    } else if n == 16 {
        (0xe0, vec![2, 28, 7, 18, 55, 50, 41, 45, 41, 37, 43, 57, 0, 1, 3, 16], 0)
    } else if n == 17 {
        (0xe1, vec![3, 29, 7, 6, 46, 44, 41, 45, 46, 46, 55, 63, 0, 0, 2, 16], 0)
    } else if n == 18 {
        (0x13, Vec::new(), 100)
    } else {
        (0x29, Vec::new(), 100)
    }
}

/// The transfers that set the display up.
pub fn setup() -> (transfers: Vec<Transfer>)
    ensures
        transfer_views(transfers@) == transfers_of_all(setup_commands(), 20),
{
    let mut transfers: Vec<Transfer> = Vec::new();
    let mut n: usize = 0;
    assert(transfer_views(transfers@) =~= Seq::<TransferView>::empty());
    while n < 20
        invariant
            n <= 20,
            transfer_views(transfers@) == transfers_of_all(setup_commands(), n as int),
        decreases 20 - n,
    {
        let (command, data, wait_ms): (u8, Vec<u8>, u64) = setup_command(n);
        add_command(&mut transfers, command, data, wait_ms);
        n += 1;
    }
    transfers
}

/// The commands that put a frame on the display.
pub open spec fn frame_commands(frame: Seq<u16>) -> Seq<DisplayCommand> {
    seq![column_window(), row_window(), (0x2cu8, crate::canvas::rotated(frame), 0u64)]
}

/// The transfers that put a frame on the display; none for what is no frame.
pub fn frame(pixels: &Vec<u16>) -> (transfers: Option<Vec<Transfer>>)
    ensures
        match transfers {
            Some(transfers) => pixels@.len() == PIXELS && transfer_views(transfers@)
                == transfers_of_all(frame_commands(pixels@), 3),
            None => pixels@.len() != PIXELS,
        },
{
    if pixels.len() != PIXELS {
        return None;
    }
    let mut transfers: Vec<Transfer> = Vec::new();
    assert(transfer_views(transfers@) =~= Seq::<TransferView>::empty());
    let columns: Vec<u8> = vec![0, 26, 0, 105];
    let rows: Vec<u8> = vec![0, 1, 0, 160];
    let ghost commands = frame_commands(pixels@);
    assert(columns@ =~= commands[0].1);
    assert(rows@ =~= commands[1].1);
    add_command(&mut transfers, 0x2a, columns, 0);
    assert(transfer_views(transfers@) =~= transfers_of_all(commands, 1)) by {
        assert(transfers_of_all(commands, 0) =~= Seq::<TransferView>::empty());
    }
    add_command(&mut transfers, 0x2b, rows, 0);
    assert(transfer_views(transfers@) =~= transfers_of_all(commands, 2));
    add_command(&mut transfers, 0x2c, rotated_rgb565_bytes(pixels), 0);
    Some(transfers)
}

/// A frame is sent into the window of the screen: after the commands for its columns and rows,
/// 80 and 160 of them, comes the one to write, with two bytes for every pixel.
pub proof fn law_frame_fills_the_window(frame: Seq<u16>)
    requires
        frame.len() == 12_800,
    ensures
        ({
            let sent = transfers_of_all(frame_commands(frame), 3);
            let columns = sent[1].bytes;
            let rows = sent[3].bytes;
            &&& sent.len() == 6
            &&& !sent[0].is_data && sent[0].bytes == seq![0x2au8]
            &&& sent[1].is_data && columns == seq![0u8, 26, 0, 105]
            &&& !sent[2].is_data && sent[2].bytes == seq![0x2bu8]
            &&& sent[3].is_data && rows == seq![0u8, 1, 0, 160]
            &&& !sent[4].is_data && sent[4].bytes == seq![0x2cu8]
            &&& sent[5].is_data && sent[5].bytes == crate::canvas::rotated(frame)
            &&& columns[3] - columns[1] + 1 == 80
            &&& rows[3] - rows[1] + 1 == 160
            &&& sent[5].bytes.len() == 2 * (columns[3] - columns[1] + 1) * (rows[3] - rows[1] + 1)
            &&& forall|i: int| 0 <= i < 6 ==> (#[trigger] sent[i]).wait_ms == 0
        }),
{
    let commands = frame_commands(frame);
    reveal_with_fuel(transfers_of_all, 4);
    assert(crate::canvas::rotated(frame).len() == 25_600);
    let sent = transfers_of_all(commands, 3);
    assert(sent =~= transfers_of(commands[0]) + transfers_of(commands[1]) + transfers_of(
        commands[2],
    ));
}

/// A command goes out as its byte and then its data, if it has any; what the display needs
/// afterwards is waited for last.
pub proof fn law_commands_go_out_in_order(command: DisplayCommand)
    ensures
        ({
            let sent = transfers_of(command);
            let n = sent.len() as int;
            &&& n == if command.1.len() == 0 {
                1int
            } else {
                2
            }
            &&& !sent[0].is_data
            &&& sent[0].bytes == seq![command.0]
            &&& n == 2 ==> sent[1].is_data && sent[1].bytes == command.1 && sent[0].wait_ms == 0
            &&& sent[n - 1].wait_ms == command.2
        }),
{
}

/// The display is set up with twenty commands: it is reset and woken up first, each with time to
/// recover, takes colours of 16 bits inverted, gets the window of the screen as every frame
/// does, and is turned on last.
pub proof fn law_setup_wakes_and_turns_on(n: int)
    requires
        0 <= n < 20,
    ensures
        ({
            let commands = setup_commands();
            let bytes = seq![
                0x01u8,
                0x11,
                0xb1,
                0xb2,
                0xb3,
                0xb4,
                0xc0,
                0xc1,
                0xc3,
                0xc4,
                0xc5,
                0x21,
                0x36,
                0x3a,
                0x2a,
                0x2b,
                0xe0,
                0xe1,
                0x13,
                0x29,
            ];
            &&& commands.len() == 20
            &&& commands[n].0 == bytes[n]
            &&& commands[n].2 == if n == 0 {
                150u64
            } else if n == 1 {
                500
            } else if n >= 18 {
                100
            } else {
                0
            }
            &&& commands[2].1 == seq![1u8, 44, 45]
            &&& commands[3].1 == commands[2].1
            &&& commands[4].1 == commands[2].1 + commands[3].1
            &&& commands[5].1 == seq![7u8]
            &&& commands[6].1 == seq![162u8, 2, 132]
            &&& commands[7].1 == seq![10u8, 0]
            &&& commands[8].1 == seq![138u8, 42]
            &&& commands[9].1 == seq![138u8, 238]
            &&& commands[10].1 == seq![14u8]
            &&& commands[16].1 == seq![2u8, 28, 7, 18, 55, 50, 41, 45, 41, 37, 43, 57, 0, 1, 3, 16]
            &&& commands[17].1 == seq![3u8, 29, 7, 6, 46, 44, 41, 45, 46, 46, 55, 63, 0, 0, 2, 16]
            &&& commands[12].1 == seq![0xc8u8]
            &&& commands[13].1 == seq![5u8]
            &&& commands[14].1 == seq![0u8, 26, 0, 105]
            &&& commands[15].1 == seq![0u8, 1, 0, 160]
            &&& (n == 0 || n == 1 || n == 11 || n >= 18) <==> commands[n].1.len() == 0
        }),
{
}

} // verus!
