use lib::util::{
    align_up, clear_bit, copy_slice, get_bit, get_multiple_bits, minimum_amount_of_pages,
    set_bit, set_multiple_bits, set_or_clear_bit,
};
use lib::page::PAGE_SIZE;

#[test]
fn align_up_examples() {
    assert_eq!(align_up(26, 4), 28);
    assert_eq!(align_up(37, 3), 39);
    assert_eq!(align_up(64, 2), 64);
}

#[test]
fn align_up_number_of_pages() {
    assert_eq!(minimum_amount_of_pages(PAGE_SIZE - 15), 1);
    assert_eq!(minimum_amount_of_pages(PAGE_SIZE + 15), 2);
    assert_eq!(minimum_amount_of_pages(PAGE_SIZE * 2), 2);
    assert_eq!(minimum_amount_of_pages(0), 0);
}

#[test]
fn copy_from_slice() {
    let src = [1, 2, 3, 4, 5];
    let mut dst = [0, 0, 0, 0, 0, 0, 0];
    copy_slice(&src, &mut dst);
    assert_eq!(dst, [1, 2, 3, 4, 5, 0, 0]);
}

#[test]
fn set_or_clear_bit_examples() {
    let mut value: u64 = 0b1101101;
    set_or_clear_bit(&mut value, true, 1);
    assert_eq!(value, 0b1101111);
    set_or_clear_bit(&mut value, false, 1);
    assert_eq!(value, 0b1101101);
    set_or_clear_bit(&mut value, false, 0);
    assert_eq!(value, 0b1101100);
}

#[test]
fn set_bit_examples() {
    let mut value: u64 = 0b1101110;
    set_bit(&mut value, 0);
    assert_eq!(value, 0b1101111);
    set_bit(&mut value, 4);
    assert_eq!(value, 0b1111111);
}

#[test]
fn clear_bit_examples() {
    let mut value: u64 = 0b1101111;
    clear_bit(&mut value, 0);
    assert_eq!(value, 0b1101110);
    clear_bit(&mut value, 5);
    assert_eq!(value, 0b1001110);
    clear_bit(&mut value, 0);
    assert_eq!(value, 0b1001110);
}

#[test]
fn get_bit_examples() {
    let value: u64 = 0b1101101;
    assert!(get_bit(value, 0));
    assert!(!get_bit(value, 1));
    assert!(get_bit(value, 2));
}

#[test]
fn set_multiple_bits_examples() {
    let mut value: u64 = 0b1101101;
    set_multiple_bits(&mut value, 0b111, 3, 0);
    assert_eq!(value, 0b1101111);
    set_multiple_bits(&mut value, 0b110, 3, 1);
    assert_eq!(value, 0b1101101);
    set_multiple_bits(&mut value, 0b011, 3, 2);
    assert_eq!(value, 0b1101101);
}

#[test]
fn get_multiple_bits_examples() {
    let value: u64 = 0b1101101;
    assert_eq!(get_multiple_bits(value, 3, 0), 0b101);
    assert_eq!(get_multiple_bits(value, 3, 1), 0b110);
    assert_eq!(get_multiple_bits(value, 3, 2), 0b011);
}
