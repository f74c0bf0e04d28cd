//! The SSD1677 panel's bring-up sequence.
use vstd::prelude::*;

verus! {

/// One step of a panel command sequence.
#[derive(Clone, Copy, Debug, PartialEq, Eq)]
pub enum SpiOp {
    /// Write command byte, then data bytes.
    Cmd { cmd: u8, data: &'static [u8] },
    /// Delay in milliseconds.
    DelayMs(u16),
    /// Assert/deassert reset pin.
    Reset,
}

/// A step written as plain values: `Cmd` with its bytes, `DelayMs`, or `Reset`.
pub enum SpiStep {
    Cmd(u8, Seq<u8>),
    DelayMs(u16),
    Reset,
}

/// The plain-value form of a step.
pub open spec fn spi_step(op: SpiOp) -> SpiStep {
    match op {
        SpiOp::Cmd { cmd, data } => SpiStep::Cmd(cmd, data@),
        SpiOp::DelayMs(ms) => SpiStep::DelayMs(ms),
        SpiOp::Reset => SpiStep::Reset,
    }
}

/// The initialization sequence for the 800x480 panel: reset, software reset,
/// a 10 ms pause, booster soft start, internal temperature sensor, 480 gate
/// lines, Hi-Z border, X/Y increment, the RAM window over all 100 bytes by
/// 480 lines, then a load of the temperature and analog settings.
pub open spec fn init_steps() -> Seq<SpiStep> {
    seq![
        SpiStep::Reset,
        SpiStep::Cmd(0x12, seq![]),
        SpiStep::DelayMs(10),
        SpiStep::Cmd(0x0C, seq![0xAE, 0xC7, 0xC3, 0xC0, 0x40]),
        SpiStep::Cmd(0x18, seq![0x80]),
        SpiStep::Cmd(0x01, seq![0xDF, 0x01, 0x00]),
        SpiStep::Cmd(0x3C, seq![0xC0]),
        SpiStep::Cmd(0x11, seq![0x03]),
        SpiStep::Cmd(0x44, seq![0x00, 0x63]),
        SpiStep::Cmd(0x45, seq![0x00, 0x00, 0xDF, 0x01]),
        SpiStep::Cmd(0x22, seq![0xB1]),
        SpiStep::Cmd(0x20, seq![]),
    ]
}

/// Initialization sequence for the Xteink X4 (Good Display 4.26" panel,
/// SSD1677 controller, 800x480, 1bpp): the RAM-window bytes are calculated
/// for 800x480 (RAM X end = 99 bytes, RAM Y end = 479 lines).
pub fn init_sequence() -> (ops: Vec<SpiOp>)
    ensures
        ops@.map_values(|op: SpiOp| spi_step(op)) == init_steps(),
{
    let ops = vec![
        SpiOp::Reset,
        SpiOp::Cmd { cmd: 0x12, data: &[] },
        SpiOp::DelayMs(10),
        SpiOp::Cmd { cmd: 0x0C, data: &[0xAE, 0xC7, 0xC3, 0xC0, 0x40] },
        SpiOp::Cmd { cmd: 0x18, data: &[0x80] },
        SpiOp::Cmd { cmd: 0x01, data: &[0xDF, 0x01, 0x00] },
        SpiOp::Cmd { cmd: 0x3C, data: &[0xC0] },
        SpiOp::Cmd { cmd: 0x11, data: &[0x03] },
        SpiOp::Cmd { cmd: 0x44, data: &[0x00, 0x63] },
        SpiOp::Cmd { cmd: 0x45, data: &[0x00, 0x00, 0xDF, 0x01] },
        SpiOp::Cmd { cmd: 0x22, data: &[0xB1] },
        SpiOp::Cmd { cmd: 0x20, data: &[] },
    ];
    broadcast use vstd::array::group_array_axioms;
    assert(spi_step(ops@[1]) == init_steps()[1]) by {
        assert(ops@[1]->data@ =~= Seq::<u8>::empty());
    }
    assert(spi_step(ops@[11]) == init_steps()[11]) by {
        assert(ops@[11]->data@ =~= Seq::<u8>::empty());
    }
    assert(spi_step(ops@[0]) == init_steps()[0]);
    assert(spi_step(ops@[2]) == init_steps()[2]);
    assert(spi_step(ops@[3]) == init_steps()[3]);
    assert(spi_step(ops@[4]) == init_steps()[4]) by {
        assert(ops@[4]->data@ =~= seq![0x80u8]);
    }
    assert(spi_step(ops@[5]) == init_steps()[5]);
    assert(spi_step(ops@[6]) == init_steps()[6]) by {
        assert(ops@[6]->data@ =~= seq![0xC0u8]);
    }
    assert(spi_step(ops@[7]) == init_steps()[7]) by {
        assert(ops@[7]->data@ =~= seq![0x03u8]);
    }
    assert(spi_step(ops@[8]) == init_steps()[8]);
    assert(spi_step(ops@[9]) == init_steps()[9]);
    assert(spi_step(ops@[10]) == init_steps()[10]) by {
        assert(ops@[10]->data@ =~= seq![0xB1u8]);
    }
    assert(ops@.map_values(|op: SpiOp| spi_step(op)) =~= init_steps());
    ops
}

/// A little-endian 16-bit value at `at` in `d`.
pub open spec fn le16(d: Seq<u8>, at: int) -> int {
    d[at] + 256 * d[at + 1]
}

/// Whether `step` sends command `cmd`.
pub open spec fn sends(step: SpiStep, cmd: u8) -> bool {
    step matches SpiStep::Cmd(c, _) && c == cmd
}

/// Panel start-up addresses every pixel: the driver output control names
/// the last of the 480 lines, the RAM X window spans bytes 0 to 99 of a row,
/// and the RAM Y window spans lines 0 to 479. Each of these commands is
/// sent, and each time with exactly these values.
pub proof fn init_window_covers_the_panel()
    ensures
        forall|i: int|
            0 <= i < init_steps().len() && #[trigger] sends(init_steps()[i], 0x01) ==> {
                let d = init_steps()[i]->Cmd_1;
                d.len() == 3 && le16(d, 0) == crate::shell::HEIGHT - 1
            },
        forall|i: int|
            0 <= i < init_steps().len() && #[trigger] sends(init_steps()[i], 0x44) ==> {
                let d = init_steps()[i]->Cmd_1;
                d.len() == 2 && d[0] == 0 && d[1] == crate::fb::ROW_BYTES - 1
            },
        forall|i: int|
            0 <= i < init_steps().len() && #[trigger] sends(init_steps()[i], 0x45) ==> {
                let d = init_steps()[i]->Cmd_1;
                d.len() == 4 && le16(d, 0) == 0 && le16(d, 2) == crate::shell::HEIGHT - 1
            },
        exists|i: int| 0 <= i < init_steps().len() && #[trigger] sends(init_steps()[i], 0x01),
        exists|i: int| 0 <= i < init_steps().len() && #[trigger] sends(init_steps()[i], 0x44),
        exists|i: int| 0 <= i < init_steps().len() && #[trigger] sends(init_steps()[i], 0x45),
{
    assert(sends(init_steps()[5], 0x01));
    assert(sends(init_steps()[8], 0x44));
    assert(sends(init_steps()[9], 0x45));
}

} // verus!
