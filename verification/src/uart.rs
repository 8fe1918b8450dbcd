use vstd::prelude::*;

verus! {

/// Where the 16550 UART of the QEMU `virt` machine is mapped.
pub const UART_BASE_ADDRESS: usize = 0x1000_0000;

/// Transmit holding / receive buffer register (divisor latch low with DLAB).
pub const THR_OFFSET: usize = 0;
/// Interrupt enable register (divisor latch high with DLAB).
pub const IER_OFFSET: usize = 1;
/// FIFO control register.
pub const FCR_OFFSET: usize = 2;
/// Line control register.
pub const LCR_OFFSET: usize = 3;
/// Line status register.
pub const LSR_OFFSET: usize = 5;
/// Eight data bits per word.
pub const LCR_WORD_LEN_8BIT: u8 = 0b11;
/// Divisor latch access bit.
pub const LCR_DLAB: u8 = 0x80;
/// Enables the FIFOs.
pub const FCR_ENABLE: u8 = 1;
/// Interrupt when data arrives.
pub const IER_RX_AVAILABLE: u8 = 1;
/// A received byte is waiting.
pub const LSR_DATA_READY: u8 = 1;
/// Divisor for 2400 baud: ceil(22_729_000 / (2400 * 16)).
pub const BAUD_DIVISOR: u16 = 592;

/// The register writes that set the UART at `base` up: 8-bit words, FIFOs
/// on, interrupt on received data, then the baud divisor through the divisor
/// latch, which is closed again at the end.
pub open spec fn init_sequence(base: usize) -> Seq<(usize, u8)> {
    seq![
        ((base + LCR_OFFSET) as usize, LCR_WORD_LEN_8BIT),
        ((base + FCR_OFFSET) as usize, FCR_ENABLE),
        ((base + IER_OFFSET) as usize, IER_RX_AVAILABLE),
        ((base + LCR_OFFSET) as usize, (LCR_WORD_LEN_8BIT | LCR_DLAB) as u8),
        ((base + THR_OFFSET) as usize, (BAUD_DIVISOR % 256) as u8),
        ((base + IER_OFFSET) as usize, (BAUD_DIVISOR / 256) as u8),
        ((base + LCR_OFFSET) as usize, LCR_WORD_LEN_8BIT),
    ]
}

/// A 16550 UART: where its registers are and whether it was set up.
pub struct Uart {
    base: usize,
    is_init: bool,
}

impl Uart {
    /// Where its registers start.
    pub closed spec fn base_addr(&self) -> usize {
        self.base
    }

    /// Whether the UART was set up.
    pub closed spec fn initialized(&self) -> bool {
        self.is_init
    }

    /// The UART at `base`, not set up yet.
    pub fn new(base: usize) -> (r: Self)
        ensures
            r.base_addr() == base,
            !r.initialized(),
    {
        Uart { base, is_init: false }
    }

    /// Sets the UART up: returns the register writes to perform, in order
    /// (address, value), and marks it ready.
    pub fn init(&mut self) -> (r: Vec<(usize, u8)>)
        requires
            old(self).base_addr() + LSR_OFFSET <= usize::MAX,
        ensures
            r@ == init_sequence(old(self).base_addr()),
            final(self).base_addr() == old(self).base_addr(),
            final(self).initialized(),
    {
        let base = self.base;
        proof {
            assert((592u16 & 0xffu16) as u8 == 80u8 && (592u16 >> 8u16) as u8 == 2u8) by (bit_vector);
        }
        let divisor_least: u8 = (BAUD_DIVISOR & 0xff) as u8;
        let divisor_most: u8 = (BAUD_DIVISOR >> 8) as u8;
        let mut writes: Vec<(usize, u8)> = Vec::new();
        writes.push((base + LCR_OFFSET, LCR_WORD_LEN_8BIT));
        writes.push((base + FCR_OFFSET, FCR_ENABLE));
        writes.push((base + IER_OFFSET, IER_RX_AVAILABLE));
        writes.push((base + LCR_OFFSET, LCR_WORD_LEN_8BIT | LCR_DLAB));
        writes.push((base + THR_OFFSET, divisor_least));
        writes.push((base + IER_OFFSET, divisor_most));
        writes.push((base + LCR_OFFSET, LCR_WORD_LEN_8BIT));
        self.is_init = true;
        assert((LCR_WORD_LEN_8BIT | LCR_DLAB) == 0x83u8) by (bit_vector);
        assert(writes@ =~= init_sequence(base));
        writes
    }

    /// The address of the transmit/receive register.
    pub fn data_register(&self) -> (r: usize)
        ensures
            r == self.base_addr() + THR_OFFSET,
    {
        self.base + THR_OFFSET
    }

    /// The address of the line status register.
    pub fn status_register(&self) -> (r: usize)
        requires
            self.base_addr() + LSR_OFFSET <= usize::MAX,
        ensures
            r == self.base_addr() + LSR_OFFSET,
    {
        self.base + LSR_OFFSET
    }

    /// Whether a received byte waits, given the line status `lsr`.
    pub fn data_ready(lsr: u8) -> (r: bool)
        ensures
            r == (lsr & LSR_DATA_READY != 0),
    {
        lsr & LSR_DATA_READY != 0
    }

    /// The bytes to put on the line for the text `s` (its UTF-8 bytes): all
    /// of them once the UART is set up, none before.
    pub fn bytes_to_send(&self, s: &[u8]) -> (r: Vec<u8>)
        ensures
            r@ == if self.initialized() {
                s@
            } else {
                Seq::<u8>::empty()
            },
    {
        if !self.is_init {
            return Vec::new();
        }
        vstd::slice::slice_to_vec(s)
    }
}

} // verus!
