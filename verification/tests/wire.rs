use naia_core::wire::bit_reader::BitReader;
use naia_core::wire::bit_writer::BitWriter;
use naia_core::wire::integer::UnsignedVariableInteger;
use naia_core::wire::serde::{read_bits, write_bits, Serde};

fn flushed(writer: &mut BitWriter) -> Vec<u8> {
    let (length, buffer) = writer.flush();
    assert_eq!(length, buffer.len());
    buffer
}

#[test]
fn bits_fill_bytes_from_the_low_end() {
    let mut writer = BitWriter::new();
    true.ser(&mut writer);
    0xA5u8.ser(&mut writer);
    assert_eq!(writer.bits_written(), 9);
    assert_eq!(flushed(&mut writer), vec![75, 1]);
    assert_eq!(writer.bits_written(), 0);
    assert!(flushed(&mut writer).is_empty());
}

#[test]
fn write_byte_is_eight_bits() {
    let mut writer = BitWriter::new();
    writer.write_byte(0x3C);
    writer.write_bit(true);
    writer.write_byte(0xFF);
    assert_eq!(flushed(&mut writer), vec![0x3C, 0xFF, 0x01]);
}

#[test]
fn reader_reads_what_writer_wrote() {
    let mut writer = BitWriter::new();
    false.ser(&mut writer);
    513u16.ser(&mut writer);
    0xDEADBEEFu32.ser(&mut writer);
    u64::MAX.ser(&mut writer);
    Some(7u8).ser(&mut writer);
    Option::<u8>::None.ser(&mut writer);
    let bytes = flushed(&mut writer);
    let mut reader = BitReader::new(&bytes);
    assert_eq!(bool::de(&mut reader), Ok(false));
    assert_eq!(u16::de(&mut reader), Ok(513));
    assert_eq!(u32::de(&mut reader), Ok(0xDEADBEEF));
    assert_eq!(u64::de(&mut reader), Ok(u64::MAX));
    assert_eq!(Option::<u8>::de(&mut reader), Ok(Some(7)));
    assert_eq!(Option::<u8>::de(&mut reader), Ok(None));
}

#[test]
fn reading_past_the_end_fails() {
    let bytes = vec![0xFFu8];
    let mut reader = BitReader::new(&bytes);
    assert_eq!(u8::de(&mut reader), Ok(0xFF));
    assert!(bool::de(&mut reader).is_err());
    assert!(reader.read_bit().is_err());
    let mut reader = BitReader::new(&bytes);
    assert!(u16::de(&mut reader).is_err());
    let empty: Vec<u8> = vec![];
    let mut reader = BitReader::new(&empty);
    assert!(reader.read_byte().is_err());
    assert!(Option::<u8>::de(&mut reader).is_err());
}

#[test]
fn read_byte_and_read_bits_agree_with_the_writer() {
    let mut writer = BitWriter::new();
    write_bits(&mut writer, 0b1011, 4);
    writer.write_byte(200);
    let bytes = flushed(&mut writer);
    let mut reader = BitReader::new(&bytes);
    assert_eq!(read_bits(&mut reader, 4), Ok(0b1011));
    assert_eq!(reader.read_byte(), Ok(200));
    assert_eq!(read_bits(&mut reader, 0), Ok(0));
}

#[test]
fn variable_integer_takes_one_group_for_small_numbers() {
    let mut writer = BitWriter::new();
    UnsignedVariableInteger::<5>::new(3).ser(&mut writer);
    assert_eq!(writer.bits_written(), 6);
    assert_eq!(flushed(&mut writer), vec![6]);
}

#[test]
fn variable_integer_takes_more_groups_for_large_numbers() {
    let mut writer = BitWriter::new();
    UnsignedVariableInteger::<5>::new(32).ser(&mut writer);
    assert_eq!(writer.bits_written(), 12);
    assert_eq!(flushed(&mut writer), vec![129, 0]);
}

#[test]
fn variable_integer_round_trips() {
    let values = [0u64, 1, 31, 32, 33, 1023, 1024, 65535, 1 << 40, u64::MAX - 1, u64::MAX];
    for value in values {
        let mut writer = BitWriter::new();
        UnsignedVariableInteger::<5>::new(value).ser(&mut writer);
        UnsignedVariableInteger::<7>::new(value).ser(&mut writer);
        UnsignedVariableInteger::<63>::new(value).ser(&mut writer);
        true.ser(&mut writer);
        let bytes = flushed(&mut writer);
        let mut reader = BitReader::new(&bytes);
        assert_eq!(UnsignedVariableInteger::<5>::de(&mut reader).unwrap().get(), value);
        assert_eq!(UnsignedVariableInteger::<7>::de(&mut reader).unwrap().get(), value);
        assert_eq!(UnsignedVariableInteger::<63>::de(&mut reader).unwrap().get(), value);
        assert_eq!(bool::de(&mut reader), Ok(true));
    }
}

#[test]
fn variable_integer_rejects_truncated_and_oversized_input() {
    // A group that announces another one, and then the end.
    let bytes = vec![0b0011_1111u8];
    let mut reader = BitReader::new(&bytes);
    assert!(UnsignedVariableInteger::<5>::de(&mut reader).is_err());
    // Groups without end: more than 64 bits of number.
    let bytes = vec![0xFFu8; 16];
    let mut reader = BitReader::new(&bytes);
    assert!(UnsignedVariableInteger::<5>::de(&mut reader).is_err());
}

#[test]
fn same_compares_values() {
    assert!(5u8.same(&5));
    assert!(!5u8.same(&6));
    assert!(Some(1u16).same(&Some(1)));
    assert!(!Some(1u16).same(&None));
    assert!(Option::<u16>::None.same(&None));
    assert!(UnsignedVariableInteger::<5>::new(9).same(&UnsignedVariableInteger::<5>::new(9)));
}
