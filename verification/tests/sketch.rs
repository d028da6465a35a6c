use approx_distinct::HyperLogLog;

fn estimate(register: impl Fn(usize) -> u8) -> u64 {
    let mut registers = [0u8; 16384];
    for (i, r) in registers.iter_mut().enumerate() {
        *r = register(i);
    }
    HyperLogLog::<u64>::new_with_registers(registers).count()
}

#[test]
fn estimates_are_exact() {
    assert_eq!(estimate(|_| 0), 0);
    assert_eq!(estimate(|i| (i == 0) as u8), 1);
    assert_eq!(estimate(|i| if i == 5 { 51 } else { 0 }), 1);
    assert_eq!(estimate(|_| 1), 23637);
    assert_eq!(estimate(|_| 3), 94548);
    assert_eq!(estimate(|i| (i % 4) as u8), 21922);
    assert_eq!(estimate(|i| (i % 20) as u8), 115182);
    assert_eq!(estimate(|i| (i < 8192) as u8), 10360);
    // Registers at the greatest rank.
    assert_eq!(estimate(|i| if i % 2 == 1 { 51 } else { 20 }), 24785312068);
    assert_eq!(estimate(|i| if i % 4 == 0 { 51 } else { 40 }), 17324386991617581);
    assert_eq!(estimate(|i| if i < 16000 { 51 } else { 44 }), 7976576320795010342);
    assert_eq!(estimate(|_| 50), 13306513097844322492);
    assert_eq!(estimate(|_| 63), u64::MAX);
    assert_eq!(estimate(|_| 51), u64::MAX);
}

#[test]
fn a_hash_selects_a_register_and_a_rank() {
    let registers = |hashes: &[u64]| {
        let mut hll = HyperLogLog::<u64>::new();
        for hash in hashes {
            hll.add_hashed(*hash);
        }
        hll.as_ref().to_vec()
    };
    // Low 14 bits: 3. Lowest set bit of the rest: bit 0.
    assert_eq!(registers(&[(1 << 14) | 3])[3], 1);
    // Lowest set bit of the rest: bit 4.
    assert_eq!(registers(&[(0b110000 << 14) | 16383])[16383], 5);
    // No bit set in the rest.
    assert_eq!(registers(&[9])[9], 51);
    assert_eq!(registers(&[u64::MAX])[16383], 1);
    // A register keeps its greatest rank.
    assert_eq!(registers(&[9, (1 << 14) | 9])[9], 51);
    assert_eq!(registers(&[(1 << 14) | 9, 9]), registers(&[9]));
    assert_eq!(registers(&[9]).iter().filter(|r| **r != 0).count(), 1);
}

#[test]
fn merging_takes_the_greater_registers() {
    let mut a = HyperLogLog::<str>::new();
    let mut b = HyperLogLog::<str>::new();
    a.add_hashed((1 << 16) | 1);
    a.add_hashed((1 << 14) | 2);
    b.add_hashed((1 << 15) | 1);
    b.add_hashed((1 << 20) | 2);
    b.add_hashed((1 << 14) | 7);
    let mut joined = HyperLogLog::<str>::new();
    joined.merge(&a);
    assert_eq!(joined.as_ref(), a.as_ref());
    joined.merge(&b);
    assert_eq!(&joined.as_ref()[..8], &[0, 3, 7, 0, 0, 0, 0, 1]);
    b.merge(&a);
    assert_eq!(joined.as_ref(), b.as_ref());
}

#[test]
fn values_are_hashed_apart() {
    let mut numbers = HyperLogLog::<i64>::new();
    numbers.extend(&(0..1000).map(|v| if v % 10 == 0 { None } else { Some(v) }).collect());
    assert!((860..940).contains(&numbers.count()));
    let before = numbers.as_ref().to_vec();
    numbers.extend(&(0..1000).rev().filter(|v| v % 10 != 0).map(Some).collect());
    assert_eq!(numbers.as_ref(), &before[..]);

    let mut texts = HyperLogLog::<str>::new();
    texts.add("a");
    texts.add("b");
    texts.add("a");
    assert_eq!(texts.count(), 2);
    let mut bytes = HyperLogLog::<[u8]>::new();
    bytes.add(b"a");
    bytes.add(b"ab");
    assert_eq!(bytes.count(), 2);
}
