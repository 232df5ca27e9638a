//! ARM64 memory-mapped I/O: the device addresses of the QEMU virt machine
//! and the PL011 UART status decisions. The volatile accesses themselves are
//! made by the platform layer.

use vstd::prelude::*;

verus! {

/// MMIO access (ARM64 has no port I/O).
#[derive(Clone, Copy, Debug, PartialEq, Eq, Structural)]
pub struct Io;

/// ARM PL011 UART base address (QEMU virt).
pub const PL011_BASE: u64 = 0x0900_0000;

/// UART data register offset.
pub const UARTDR: u64 = 0x000;

/// UART flag register offset.
pub const UARTFR: u64 = 0x018;

/// UART control register offset.
pub const UARTCR: u64 = 0x030;

/// UART interrupt mask register offset.
pub const UARTIMSC: u64 = 0x038;

/// GIC distributor base (QEMU virt).
pub const GICD_BASE: u64 = 0x0800_0000;

/// GIC CPU interface base (GICv2).
pub const GICC_BASE: u64 = 0x0801_0000;

/// GIC redistributor base (GICv3 and later).
pub const GICR_BASE: u64 = 0x0808_0000;

/// Generic timer control base.
pub const CNTCTL_BASE: u64 = 0x0902_0000;

/// PSCI function that powers the system off.
pub const PSCI_SYSTEM_OFF: u64 = 0x8400_0008;

/// PSCI function that resets the system.
pub const PSCI_SYSTEM_RESET: u64 = 0x8400_0009;

/// Receive FIFO empty flag of `UARTFR`.
pub const UARTFR_RXFE: u32 = 0x10;

/// Transmit FIFO full flag of `UARTFR`.
pub const UARTFR_TXFF: u32 = 0x20;

/// A byte can be read when the receive FIFO is not empty.
pub fn uart_rx_ready(flags: u32) -> (r: bool)
    ensures
        r == (flags & 0x10 == 0),
{
    flags & UARTFR_RXFE == 0
}

/// A byte must wait while the transmit FIFO is full.
pub fn uart_tx_full(flags: u32) -> (r: bool)
    ensures
        r == (flags & 0x20 != 0),
{
    flags & UARTFR_TXFF != 0
}

/// What a read of the UART yields for the flag register `flags` and the
/// data register `data`: the byte when one is available.
pub fn uart_read(flags: u32, data: u8) -> (r: Option<u8>)
    ensures
        r == (if flags & 0x10 == 0 { Some(data) } else { None::<u8> }),
{
    if uart_rx_ready(flags) {
        Some(data)
    } else {
        None
    }
}

/// Port reads on ARM64 (which has no I/O ports) read zero.
pub fn port_read_u8(_port: u16) -> (r: u8)
    ensures
        r == 0,
{
    0
}

/// Port reads on ARM64 (which has no I/O ports) read zero.
pub fn port_read_u32(_port: u16) -> (r: u32)
    ensures
        r == 0,
{
    0
}

} // verus!
