use bitarray::bitarray::BitArray;
use bitarray::error::BitArrayError;
use rand::Rng;

const N: usize = 1000;

#[test]
fn test_set1() {
    let mut arr = BitArray::new(N);
    for i in 0..N {
        arr.set(i, true);
        assert_eq!(arr.get(i), true);
    }
}

#[test]
fn test_set2() {
    let mut arr = BitArray::new(N);
    for i in 0..N {
        arr.set(i, false);
        assert_eq!(arr.get(i), false);
    }
}

#[test]
fn test_set3() {
    let mut rng = rand::thread_rng();
    let mut arr = BitArray::new(N);

    for i in 0..N {
        let x: bool = rng.gen();
        arr.set(i, x);
        assert_eq!(arr.get(i), x);
    }
}

#[test]
fn test_u8_constructor() {
    let ba = BitArray::from_u8(0b10010110);
    assert_eq!(ba.get_bit_sz(), 8);

    assert_eq!(ba.get(0), false);
    assert_eq!(ba.get(1), true);
    assert_eq!(ba.get(2), true);
    assert_eq!(ba.get(3), false);
    assert_eq!(ba.get(4), true);
    assert_eq!(ba.get(5), false);
    assert_eq!(ba.get(6), false);
    assert_eq!(ba.get(7), true);
}

#[test]
fn test_str_constructor() {
    let ba1 = BitArray::from_str("10010110").unwrap();
    let ba2 = BitArray::from_u8(0b10010110);

    assert_eq!(ba1.get_bit_sz(), 8);
    for i in 0..ba1.get_bit_sz() {
        assert_eq!(ba1.get(i), ba2.get(i))
    }
}

#[test]
fn test_str_constructor_2() {
    let ba = BitArray::from_str("111111111111111").unwrap();
    assert_eq!(15, ba.get_bit_sz());

    for i in 0..ba.get_bit_sz() {
        assert_eq!(ba.get(i), true);
    }
}

#[test]
fn new_has_the_length_asked_for_and_only_zeros() {
    for n in [0usize, 1, 7, 8, 9, 15, 16, 17, 63, 64, 65, 1000] {
        let arr = BitArray::new(n);
        assert_eq!(arr.get_bit_sz(), n);
        for i in 0..n {
            assert_eq!(arr.get(i), false);
        }
    }
}

#[test]
fn set_changes_one_bit_and_no_other() {
    for n in [1usize, 8, 9, 23] {
        for i in 0..n {
            for v in [true, false] {
                let mut arr = BitArray::new(n);
                for j in 0..n {
                    arr.set(j, j % 3 == 0);
                }
                arr.set(i, v);
                for j in 0..n {
                    let want = if j == i { v } else { j % 3 == 0 };
                    assert_eq!(arr.get(j), want);
                }
            }
        }
    }
}

#[test]
fn bitmask_selects_the_position_within_the_byte() {
    assert_eq!(BitArray::bitmask(0), 0b0000_0001);
    assert_eq!(BitArray::bitmask(3), 0b0000_1000);
    assert_eq!(BitArray::bitmask(7), 0b1000_0000);
    assert_eq!(BitArray::bitmask(8), 0b0000_0001);
    assert_eq!(BitArray::bitmask(13), 0b0010_0000);
}

#[test]
fn access_at_the_length_is_out_of_range() {
    for n in [0usize, 1, 8, 9, 1000] {
        let mut arr = BitArray::new(n);
        assert_eq!(arr.try_get(n), Err(BitArrayError::OutOfRange));
        assert_eq!(arr.try_set(n, true), Err(BitArrayError::OutOfRange));
        assert_eq!(arr.try_get(n + 1), Err(BitArrayError::OutOfRange));
        assert_eq!(arr.try_get(usize::MAX), Err(BitArrayError::OutOfRange));
        assert_eq!(arr, BitArray::new(n));
    }
    let byte = BitArray::from_u8(0xff);
    assert_eq!(byte.try_get(8), Err(BitArrayError::OutOfRange));
    let text = BitArray::from_str("").unwrap();
    assert_eq!(text.try_get(0), Err(BitArrayError::OutOfRange));
}

#[test]
fn access_within_the_length_succeeds() {
    let mut arr = BitArray::new(9);
    assert_eq!(arr.try_get(8), Ok(false));
    assert_eq!(arr.try_set(8, true), Ok(()));
    assert_eq!(arr.try_get(8), Ok(true));
    assert_eq!(arr.try_get(7), Ok(false));
}

#[test]
fn equality_compares_lengths_and_bits() {
    assert_eq!(BitArray::new(5), BitArray::new(5));
    assert_ne!(BitArray::new(5), BitArray::new(6));
    let mut a = BitArray::new(5);
    a.set(4, true);
    assert_ne!(a, BitArray::new(5));
    assert_eq!(BitArray::from_u8(0x5a), BitArray::from_str("01011010").unwrap());
    assert_ne!(BitArray::from_u8(0x5a), BitArray::from_u8(0x5b));
}

#[test]
fn equality_leaves_out_what_lies_beyond_the_last_bit() {
    let mut a = BitArray::new(5);
    let mut b = BitArray::new(5);
    a.fill_from_bytes(&vec![0b0001_0110]);
    b.fill_from_bytes(&vec![0b1111_0110]);
    assert_eq!(a, b);
    assert_eq!(a.show(), "10110");
    assert_eq!(b.show(), "10110");

    let mut c = BitArray::new(12);
    let mut d = BitArray::new(12);
    c.fill_from_bytes(&vec![0xa5, 0x03]);
    d.fill_from_bytes(&vec![0xa5, 0xf3]);
    assert_eq!(c, d);
    d.fill_from_bytes(&vec![0xa5, 0xfb]);
    assert_ne!(c, d);
}

#[test]
fn fill_from_bytes_packs_least_significant_bit_first() {
    let mut a = BitArray::new(10);
    a.fill_from_bytes(&vec![0b1001_0110, 0b0000_0010]);
    let want = [false, true, true, false, true, false, false, true, false, true];
    for i in 0..10 {
        assert_eq!(a.get(i), want[i]);
    }
}

#[test]
fn randfill_keeps_the_length() {
    for n in [0usize, 1, 8, 9, 40, 1000] {
        let mut arr = BitArray::new(n);
        arr.randfill();
        assert_eq!(arr.get_bit_sz(), n);
        assert_eq!(arr.show().len(), n);
        if n > 0 {
            assert!(arr.try_get(n - 1).is_ok());
        }
        assert_eq!(arr.try_get(n), Err(BitArrayError::OutOfRange));
    }
}

#[test]
fn randfill_draws_both_values() {
    let mut arr = BitArray::new(4096);
    arr.randfill();
    let mut ones = 0;
    for i in 0..4096 {
        if arr.get(i) {
            ones += 1;
        }
    }
    assert!(ones > 0 && ones < 4096);
}

#[test]
fn storage_bytes_is_the_length_in_bytes_rounded_up() {
    assert_eq!(BitArray::new(0).storage_bytes(), 0);
    assert_eq!(BitArray::new(1).storage_bytes(), 1);
    assert_eq!(BitArray::new(8).storage_bytes(), 1);
    assert_eq!(BitArray::new(9).storage_bytes(), 2);
    assert_eq!(BitArray::new(1000).storage_bytes(), 125);
    assert_eq!(BitArray::from_u8(7).storage_bytes(), 1);
    assert_eq!(BitArray::from_str("101").unwrap().storage_bytes(), 1);
}
