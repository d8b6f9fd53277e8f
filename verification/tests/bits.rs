use uuid::Uuid;
use uuid_readable_rs::bits::{assemble, from_bits, partition, push_bits, to_bits, to_byte};
use uuid_readable_rs::sentence::{NORMAL, SHORT};

#[test]
fn to_bits_is_least_significant_first() {
    assert_eq!(to_bits(&[1]), vec![1, 0, 0, 0, 0, 0, 0, 0]);
    assert_eq!(
        to_bits(&[0x80, 0x03]),
        vec![0, 0, 0, 0, 0, 0, 0, 1, 1, 1, 0, 0, 0, 0, 0, 0]
    );
}

#[test]
fn to_bits_of_nothing_is_empty() {
    assert_eq!(to_bits(&[]), Vec::<u8>::new());
}

#[test]
fn to_bits_gives_eight_bits_a_byte() {
    let bits = to_bits(&[0xff; 16]);
    assert_eq!(bits.len(), 128);
    assert!(bits.iter().all(|b| *b == 1));
}

#[test]
fn to_byte_reads_first_bit_as_most_significant() {
    assert_eq!(to_byte(&[1, 0, 1]), 5);
    assert_eq!(to_byte(&[0, 0, 1, 1]), 3);
    assert_eq!(to_byte(&[1, 0, 0, 0]), 8);
    assert_eq!(to_byte(&[]), 0);
    assert_eq!(to_byte(&[1; 16]), 65535);
}

#[test]
fn partition_long_table() {
    let uuid = Uuid::parse_str("0ee001c7-12f3-4b29-a4cc-f48838b3587a").unwrap();
    let values = partition(&NORMAL, uuid.as_bytes());
    assert_eq!(
        values,
        [1792, 960, 7273, 831, 2378, 74, 1637, 1809, 1843, 8, 52, 94]
    );
}

#[test]
fn partition_short_table_fills_the_front() {
    let uuid = Uuid::parse_str("0ee001c7-12f3-4b29-a4cc-f48838b3587a").unwrap();
    let values = partition(&SHORT, uuid.as_bytes());
    assert_eq!(values, [28, 0, 60, 7, 3, 0, 0, 0, 0, 0, 0, 0]);
}

#[test]
fn partition_of_extremes() {
    assert_eq!(partition(&NORMAL, &[0; 16]), [0; 12]);
    assert_eq!(
        partition(&NORMAL, &[0xff; 16]),
        [4095, 2047, 16383, 8191, 8191, 1023, 4095, 2047, 16383, 31, 63, 127]
    );
}

#[test]
fn partition_with_no_groups() {
    assert_eq!(partition(&[], &[0xff; 2]), [0; 12]);
}

#[test]
fn partition_does_not_reuse_bits() {
    // 0x0f is 1,1,1,1,0,0,0,0 least significant first.
    assert_eq!(
        partition(&[2, 3, 3], &[0x0f]),
        [3, 6, 0, 0, 0, 0, 0, 0, 0, 0, 0, 0]
    );
}

#[test]
fn push_bits_is_most_significant_first() {
    let mut bits = vec![1];
    push_bits(&mut bits, 5, 4);
    assert_eq!(bits, vec![1, 0, 1, 0, 1]);
    push_bits(&mut bits, 7, 0);
    assert_eq!(bits, vec![1, 0, 1, 0, 1]);
    push_bits(&mut bits, 7, 2);
    assert_eq!(bits, vec![1, 0, 1, 0, 1, 1, 1]);
}

#[test]
fn from_bits_undoes_to_bits() {
    let bytes = [0x0e, 0xe0, 0x01, 0xc7, 0x00, 0xff];
    assert_eq!(from_bits(&to_bits(&bytes)), bytes.to_vec());
    assert_eq!(from_bits(&[1, 0, 0, 0, 0, 0, 0, 0]), vec![1]);
    assert_eq!(from_bits(&[0, 0, 0, 0, 0, 0, 0, 1, 1]), vec![0x80]);
}

#[test]
fn assemble_puts_numbers_into_groups() {
    let residues = [17, 10, 23, 6, 3, 24, 12, 9, 18, 8, 2, 19];
    let bytes = assemble(&NORMAL, &residues);
    assert_eq!(
        bytes,
        vec![128, 8, 40, 0, 29, 128, 1, 96, 48, 0, 6, 144, 0, 146, 128, 200]
    );
    assert_eq!(partition(&NORMAL, &bytes), residues);
}

#[test]
fn partition_undoes_assemble_for_the_largest_numbers() {
    let largest = [4095, 2047, 16383, 8191, 8191, 1023, 4095, 2047, 16383, 31, 63, 127];
    let bytes = assemble(&NORMAL, &largest);
    assert_eq!(bytes, vec![0xff; 16]);
    assert_eq!(partition(&NORMAL, &bytes), largest);
}
