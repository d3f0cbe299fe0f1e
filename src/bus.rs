//! The physical link to the co-processor: word reads and writes on a bus
//! address, two status registers, and a pause.
use vstd::prelude::*;

verus! {

/// Word-addressed access to the co-processor.
pub trait Bus {
    /// Reads `words` consecutive 32-bit words from bus address `addr`.
    fn read(&mut self, addr: u32, words: usize) -> (r: Vec<u32>)
        requires
            words < 0x1000_0000,
        ensures
            r@.len() == words,
    ;

    /// Writes `buf` to bus address `addr`.
    fn write(&mut self, addr: u32, buf: &[u32]);

    /// Reads status register 0.
    fn read_sr0(&mut self) -> u8;

    /// Reads status register 1.
    fn read_sr1(&mut self) -> u8;

    /// Reads status register 2.
    fn read_sr2(&mut self) -> u8;

    /// Writes status register 2.
    fn write_sr2(&mut self, val: u8);

    /// Pauses for `ms` milliseconds.
    fn delay_ms(&mut self, ms: u32);
}

/// A byte-level SPI device with chip select handled per call.
pub trait SpiTransport {
    /// Writes `write`, then reads `read_len` bytes, in one transaction.
    fn write_then_read(&mut self, write: &[u8], read_len: usize) -> Vec<u8>;

    /// Clocks out `write` while reading `read_len` bytes (full duplex).
    fn transfer(&mut self, write: &[u8], read_len: usize) -> Vec<u8>;

    /// Writes `bytes` in one transaction.
    fn write(&mut self, bytes: &[u8]);

    /// Pauses for `ms` milliseconds.
    fn delay_ms(&mut self, ms: u32);
}

/// SPI opcode of a fast read.
pub const SPI_CMD_READ: u8 = 0x0B;
/// SPI opcode of a page write.
pub const SPI_CMD_WRITE: u8 = 0x02;
/// SPI opcode that reads status register 0.
pub const SPI_CMD_READ_SR0: u8 = 0x05;
/// SPI opcode that reads status register 1.
pub const SPI_CMD_READ_SR1: u8 = 0x1F;
/// SPI opcode that reads status register 2.
pub const SPI_CMD_READ_SR2: u8 = 0x2F;
/// SPI opcode that writes status register 2.
pub const SPI_CMD_WRITE_SR2: u8 = 0x3F;

/// The command bytes of a read at `addr`: opcode, three address bytes (most
/// significant first), one dummy byte.
pub open spec fn read_header_spec(addr: u32) -> Seq<u8> {
    seq![SPI_CMD_READ, (addr / 0x1_0000) as u8, (addr / 0x100) as u8, addr as u8, 0u8]
}

/// The command bytes of a write at `addr`: opcode, then the three address
/// bytes with the top bit of the first one set.
pub open spec fn write_header_spec(addr: u32) -> Seq<u8> {
    seq![SPI_CMD_WRITE, (((addr / 0x1_0000) as u8) | 0x80) as u8, (addr / 0x100) as u8, addr as u8]
}

/// The word made of the four bytes of `b` from `o`, least significant first,
/// missing bytes counting as zero.
pub open spec fn le_word_spec(b: Seq<u8>, o: int) -> u32 {
    let at = |k: int| if o + k < b.len() { b[o + k] as int } else { 0 };
    (at(0) + at(1) * 0x100 + at(2) * 0x1_0000 + at(3) * 0x100_0000) as u32
}

/// The bytes of `w`, least significant first.
pub open spec fn word_bytes_spec(w: u32) -> Seq<u8> {
    seq![(w % 0x100) as u8, ((w / 0x100) % 0x100) as u8, ((w / 0x1_0000) % 0x100) as u8, (w / 0x100_0000) as u8]
}

/// The bytes of `ws`, word after word.
pub open spec fn words_bytes_spec(ws: Seq<u32>) -> Seq<u8>
    decreases ws.len(),
{
    if ws.len() == 0 {
        Seq::empty()
    } else {
        words_bytes_spec(ws.drop_last()) + word_bytes_spec(ws.last())
    }
}

/// Serializes words to bytes, least significant byte first.
pub fn words_to_bytes(ws: &[u32]) -> (r: Vec<u8>)
    requires
        ws@.len() < 0x1000_0000,
    ensures
        r@ == words_bytes_spec(ws@),
        r@.len() == 4 * ws@.len(),
{
    let mut r: Vec<u8> = Vec::new();
    let mut i: usize = 0;
    while i < ws.len()
        invariant
            0 <= i <= ws@.len() < 0x1000_0000,
            r@ == words_bytes_spec(ws@.subrange(0, i as int)),
            r@.len() == 4 * i,
        decreases ws@.len() - i,
    {
        let w = ws[i];
        r.push((w % 0x100) as u8);
        r.push(((w / 0x100) % 0x100) as u8);
        r.push(((w / 0x1_0000) % 0x100) as u8);
        r.push((w / 0x100_0000) as u8);
        i = i + 1;
        assert(ws@.subrange(0, i as int).drop_last() =~= ws@.subrange(0, i - 1));
        assert(r@ =~= words_bytes_spec(ws@.subrange(0, i as int)));
    }
    assert(ws@.subrange(0, ws@.len() as int) =~= ws@);
    r
}

/// The byte at `o` of `b`, or zero past its end.
fn byte_or_zero(b: &[u8], o: usize) -> (r: u32)
    ensures
        r == if (o as int) < b@.len() { b@[o as int] as int } else { 0 },
{
    if o < b.len() {
        b[o] as u32
    } else {
        0
    }
}

/// Reads `words` words out of `b`, least significant byte first; bytes
/// missing at the end count as zero.
pub fn bytes_to_words(b: &[u8], words: usize) -> (r: Vec<u32>)
    requires
        words < 0x1000_0000,
    ensures
        r@.len() == words,
        forall|i: int| 0 <= i < words ==> #[trigger] r@[i] == le_word_spec(b@, 4 * i),
{
    let mut r: Vec<u32> = Vec::new();
    let mut i: usize = 0;
    while i < words
        invariant
            0 <= i <= words < 0x1000_0000,
            r@.len() == i,
            forall|k: int| 0 <= k < i ==> #[trigger] r@[k] == le_word_spec(b@, 4 * k),
        decreases words - i,
    {
        let o = 4 * i;
        let w = byte_or_zero(b, o) + byte_or_zero(b, o + 1) * 0x100 + byte_or_zero(b, o + 2) * 0x1_0000
            + byte_or_zero(b, o + 3) * 0x100_0000;
        r.push(w);
        i = i + 1;
    }
    r
}

/// The bus over an SPI device.
pub struct SpiBus<T> {
    spi: T,
}

impl<T> SpiBus<T> {
    /// A bus over `spi`.
    pub fn new(spi: T) -> (r: SpiBus<T>)
        ensures
            r.spi() == spi,
    {
        SpiBus { spi }
    }

    /// The SPI device.
    pub closed spec fn spi(&self) -> T {
        self.spi
    }

    /// Gives back the SPI device.
    pub fn into_inner(self) -> (r: T)
        ensures
            r == self.spi(),
    {
        self.spi
    }
}

/// The command bytes of a read at `addr`.
pub fn read_header(addr: u32) -> (r: [u8; 5])
    ensures
        r@ == read_header_spec(addr),
{
    let r = [SPI_CMD_READ, (addr / 0x1_0000) as u8, (addr / 0x100) as u8, addr as u8, 0u8];
    assert(r@ =~= read_header_spec(addr));
    r
}

/// The command bytes of a write at `addr`, followed by `buf`.
pub fn write_frame(addr: u32, buf: &[u32]) -> (r: Vec<u8>)
    requires
        buf@.len() < 0x1000_0000,
    ensures
        r@ == write_header_spec(addr) + words_bytes_spec(buf@),
{
    let mut r: Vec<u8> = Vec::new();
    r.push(SPI_CMD_WRITE);
    r.push(((addr / 0x1_0000) as u8) | 0x80);
    r.push((addr / 0x100) as u8);
    r.push(addr as u8);
    let mut data = words_to_bytes(buf);
    r.append(&mut data);
    assert(r@ =~= write_header_spec(addr) + words_bytes_spec(buf@));
    r
}

/// The second byte of a two-byte full-duplex status read, or zero.
fn status_byte(b: &[u8]) -> (r: u8)
    ensures
        b@.len() >= 2 ==> r == b@[1],
{
    if b.len() >= 2 {
        b[1]
    } else {
        0
    }
}

impl<T: SpiTransport> Bus for SpiBus<T> {
    fn read(&mut self, addr: u32, words: usize) -> (r: Vec<u32>) {
        let header = read_header(addr);
        let bytes = self.spi.write_then_read(&header, 4 * words);
        bytes_to_words(bytes.as_slice(), words)
    }

    fn write(&mut self, addr: u32, buf: &[u32]) {
        if buf.len() < 0x1000_0000 {
            let frame = write_frame(addr, buf);
            self.spi.write(frame.as_slice());
        }
    }

    fn read_sr0(&mut self) -> u8 {
        let b = self.spi.transfer(&[SPI_CMD_READ_SR0], 2);
        status_byte(b.as_slice())
    }

    fn read_sr1(&mut self) -> u8 {
        let b = self.spi.transfer(&[SPI_CMD_READ_SR1], 2);
        status_byte(b.as_slice())
    }

    fn read_sr2(&mut self) -> u8 {
        let b = self.spi.transfer(&[SPI_CMD_READ_SR2], 2);
        status_byte(b.as_slice())
    }

    fn write_sr2(&mut self, val: u8) {
        self.spi.write(&[SPI_CMD_WRITE_SR2, val]);
    }

    fn delay_ms(&mut self, ms: u32) {
        self.spi.delay_ms(ms);
    }
}

} // verus!
