use bitarray::bitarray::BitArray;
use bitarray::error::BitArrayError;

#[test]
fn show_writes_the_highest_bit_first() {
    assert_eq!(BitArray::from_u8(0b10010110).show(), "10010110");
    assert_eq!(BitArray::from_u8(1).show(), "00000001");
    assert_eq!(BitArray::new(0).show(), "");
    assert_eq!(BitArray::new(3).show(), "000");
    let mut a = BitArray::new(10);
    a.set(0, true);
    a.set(8, true);
    assert_eq!(a.show(), "0100000001");
}

#[test]
fn from_str_reads_the_last_character_as_bit_zero() {
    let a = BitArray::from_str("100").unwrap();
    assert_eq!(a.get_bit_sz(), 3);
    assert_eq!(a.get(0), false);
    assert_eq!(a.get(1), false);
    assert_eq!(a.get(2), true);
    let empty = BitArray::from_str("").unwrap();
    assert_eq!(empty.get_bit_sz(), 0);
}

#[test]
fn text_comes_back_as_it_was_read() {
    for s in ["", "0", "1", "10", "10010110", "111111101111111", "0000000000000000011"] {
        assert_eq!(BitArray::from_str(s).unwrap().show(), s);
    }
    let mut long = String::new();
    for i in 0..777 {
        long.push(if i % 5 == 0 || i % 7 == 3 { '1' } else { '0' });
    }
    assert_eq!(BitArray::from_str(&long).unwrap().show(), long);
}

#[test]
fn bits_come_back_as_they_were_written() {
    let mut a = BitArray::new(21);
    for i in 0..21 {
        a.set(i, i % 4 == 1);
    }
    assert_eq!(BitArray::from_str(&a.show()).unwrap(), a);
}

#[test]
fn from_str_refuses_other_characters() {
    for s in ["2", "10a1", " 1", "1 ", "0b101", "10\n", "1\u{e9}0", "\u{ff11}", "10010x10"] {
        assert_eq!(BitArray::from_str(s).err(), Some(BitArrayError::InvalidCharacter));
    }
}
