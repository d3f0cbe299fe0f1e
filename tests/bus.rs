use nrf70::bus::{bytes_to_words, read_header, words_to_bytes, write_frame, Bus, SpiBus, SpiTransport};

#[derive(Default)]
struct MockSpi {
    sent: Vec<Vec<u8>>,
    reply: Vec<u8>,
}

impl SpiTransport for MockSpi {
    fn write_then_read(&mut self, write: &[u8], _read_len: usize) -> Vec<u8> {
        self.sent.push(write.to_vec());
        self.reply.clone()
    }
    fn transfer(&mut self, write: &[u8], _read_len: usize) -> Vec<u8> {
        self.sent.push(write.to_vec());
        self.reply.clone()
    }
    fn write(&mut self, bytes: &[u8]) {
        self.sent.push(bytes.to_vec());
    }
    fn delay_ms(&mut self, _ms: u32) {}
}

#[test]
fn spi_framing() {
    assert_eq!(read_header(0x0C_1234), [0x0B, 0x0C, 0x12, 0x34, 0x00]);
    assert_eq!(write_frame(0x0C_1234, &[0x0403_0201]), vec![0x02, 0x8C, 0x12, 0x34, 1, 2, 3, 4]);
    assert_eq!(words_to_bytes(&[0x0403_0201, 0x0807_0605]), vec![1, 2, 3, 4, 5, 6, 7, 8]);
    assert_eq!(bytes_to_words(&[1, 2, 3, 4, 5], 2), vec![0x0403_0201, 5]);
}

#[test]
fn spi_bus_reads_words_and_status() {
    let spi = MockSpi { reply: vec![0xAA, 0x42, 0, 0, 9, 0, 0, 0], ..MockSpi::default() };
    let mut bus = SpiBus::new(spi);
    assert_eq!(bus.read(0x10, 2), vec![0x0000_42AA, 9]);
    assert_eq!(bus.read_sr1(), 0x42);
    bus.write_sr2(1);
    let spi = bus.into_inner();
    assert_eq!(spi.sent[0], vec![0x0B, 0, 0, 0x10, 0]);
    assert_eq!(spi.sent[1], vec![0x1F]);
    assert_eq!(spi.sent[2], vec![0x3F, 1]);
}
