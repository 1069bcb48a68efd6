use keyvector::keyvector::KeyVector;
use keyvector::web_core::PlacementError;

#[derive(Debug, Default, PartialEq)]
struct TestObject {
    a: i64,
}

#[test]
fn scenario_u16_capacity_4000() {
    let mut m = KeyVector::<TestObject, u16, 4000>::new(0).unwrap();
    m.add(1);
    assert_eq!(m.length(), 1);
    assert_eq!(*m.find(1), TestObject::default());
    m.add(4001);
    assert_eq!(m.length(), 1);
    m.add(1);
    assert_eq!(m.length(), 1);
}

#[test]
fn fresh_map_finds_sentinel_everywhere() {
    let mut m = KeyVector::<u64, u8, 40>::new(0).unwrap();
    *m.find_mut(0) = 99;
    assert_eq!(m.length(), 0);
    for k in 0..60usize {
        assert_eq!(*m.find(k), 99);
    }
}

#[test]
fn capacity_checks() {
    assert!(matches!(KeyVector::<u64, u8, 0>::new(0), Err(PlacementError::EmptyCapacity)));
    assert!(matches!(
        KeyVector::<u64, u8, 257>::new(0),
        Err(PlacementError::CapacityExceedsIndexWidth)
    ));
    assert!(KeyVector::<u64, u8, 256>::new(0).is_ok());
    assert!(KeyVector::<u64, u8, 1>::new(0).is_ok());
    assert!(matches!(
        KeyVector::<u64, u16, 65537>::new(0),
        Err(PlacementError::CapacityExceedsIndexWidth)
    ));
    assert!(KeyVector::<u64, u16, 65536>::new(0).is_ok());
}

#[test]
fn add_twice_is_idempotent() {
    let mut m = KeyVector::<u64, u8, 10>::new(0).unwrap();
    for k in [5usize, 1, 2, 9, 3] {
        m.add(k);
        *m.find_mut(k) = 100 + k as u64;
        let len = m.length();
        m.add(k);
        assert_eq!(m.length(), len);
        assert_eq!(*m.find(k), 100 + k as u64);
    }
    assert_eq!(m.length(), 5);
}

#[test]
fn fresh_add_then_find_gives_default() {
    for k in 1..10usize {
        let mut m = KeyVector::<u64, u8, 10>::new(0).unwrap();
        *m.find_mut(0) = 7;
        m.add(k);
        assert_eq!(m.length(), 1);
        assert_eq!(*m.find(k), 0);
        assert_eq!(*m.find(0), 7);
    }
}

#[test]
fn boundary_keys_are_ignored() {
    let mut m = KeyVector::<u64, u8, 8>::new(0).unwrap();
    *m.find_mut(8) = 42;
    m.add(0);
    m.add(8);
    m.add(9);
    m.add(usize::MAX);
    assert_eq!(m.length(), 0);
    assert_eq!(*m.find(8), 42);
    assert_eq!(*m.find(usize::MAX), 42);
    assert_eq!(*m.find_mut(8), 42);
    assert_eq!(*m.find(0), 42);
}

#[test]
fn full_map_ignores_further_adds() {
    let mut m = KeyVector::<u64, u8, 4>::new(0).unwrap();
    m.add(3);
    m.add(1);
    m.add(2);
    assert_eq!(m.length(), 3);
    for k in 0..10usize {
        m.add(k);
        assert_eq!(m.length(), 3);
    }
    let mut one = KeyVector::<u64, u8, 1>::new(0).unwrap();
    one.add(0);
    one.add(1);
    assert_eq!(one.length(), 0);
}

#[test]
fn greater_key_takes_back_slot() {
    let mut m = KeyVector::<u64, u8, 10>::new(0).unwrap();
    m.add(7);
    *m.find_mut(7) = 70;
    assert_eq!(m.length(), 1);
    assert_eq!(*m.find(7), 70);
    assert_eq!(*m.find(1), 0);
    assert_eq!(*m.find(2), 0);
}

#[test]
fn greater_key_moves_borrower_home() {
    let mut m = KeyVector::<u64, u8, 10>::new(0).unwrap();
    m.add(2); // 2 borrows slot 1
    *m.find_mut(2) = 20;
    m.add(5); // back slot 2 is key 2's home: 2 moves there, 5 takes slot 1
    *m.find_mut(5) = 50;
    assert_eq!(m.length(), 2);
    assert_eq!(*m.find(2), 20);
    assert_eq!(*m.find(5), 50);
    assert_eq!(*m.find(1), 0);
}

#[test]
fn lesser_key_evicts_borrower_to_its_home() {
    let mut m = KeyVector::<u64, u8, 10>::new(0).unwrap();
    m.add(2); // 2 borrows slot 1
    *m.find_mut(2) = 20;
    m.add(1); // 1 comes home, 2 moves to its home slot 2
    *m.find_mut(1) = 10;
    assert_eq!(m.length(), 2);
    assert_eq!(*m.find(1), 10);
    assert_eq!(*m.find(2), 20);
}

#[test]
fn lesser_key_evicts_borrower_to_back_slot() {
    let mut m = KeyVector::<u64, u8, 10>::new(0).unwrap();
    m.add(8); // 8 borrows slot 1
    *m.find_mut(8) = 80;
    m.add(1); // 1 comes home; 8 takes back slot 2
    *m.find_mut(1) = 10;
    assert_eq!(m.length(), 2);
    assert_eq!(*m.find(1), 10);
    assert_eq!(*m.find(8), 80);
    assert_eq!(*m.find(2), 0);
}

#[test]
fn lesser_key_evicts_borrower_through_a_slot_trade() {
    let mut m = KeyVector::<u64, u8, 10>::new(0).unwrap();
    m.add(3); // 3 borrows slot 1
    *m.find_mut(3) = 30;
    m.add(4); // back slot 2: 4 borrows it
    *m.find_mut(4) = 40;
    m.add(9); // back slot 3 is key 3's home: 3 moves there, 9 takes slot 1
    *m.find_mut(9) = 90;
    assert_eq!(m.length(), 3);
    m.add(1); // 1 comes home; 9 must go to back slot 4, which 4 borrows: 4 moves home, 9 takes slot 2
    *m.find_mut(1) = 10;
    assert_eq!(m.length(), 4);
    assert_eq!(*m.find(1), 10);
    assert_eq!(*m.find(3), 30);
    assert_eq!(*m.find(4), 40);
    assert_eq!(*m.find(9), 90);
    assert_eq!(*m.find(2), 0);
    assert_eq!(*m.find(5), 0);
}

const N: usize = 64;

#[test]
fn density_over_many_orders() {
    let orders: [Vec<usize>; 4] = [
        (1..N).collect(),
        (1..N).rev().collect(),
        (0..N).map(|i| (i * 37) % N).filter(|&k| k != 0).collect(),
        (0..N).map(|i| (i * 11 + 5) % N).filter(|&k| k != 0).collect(),
    ];
    for order in orders.iter() {
        let mut m = KeyVector::<u64, u8, N>::new(0).unwrap();
        let mut present = [false; N];
        for (step, &k) in order.iter().enumerate() {
            let before = m.length();
            m.add(k);
            if !present[k] {
                present[k] = true;
                assert_eq!(m.length(), before + 1);
                assert_eq!(*m.find(k), 0);
                *m.find_mut(k) = 1000 + k as u64;
            } else {
                assert_eq!(m.length(), before);
            }
            let count = present.iter().filter(|&&p| p).count();
            assert_eq!(m.length(), count, "step {}", step);
            for j in 0..N + 3 {
                let expected = if j < N && present[j] { 1000 + j as u64 } else { 0 };
                assert_eq!(*m.find(j), expected, "key {} after step {}", j, step);
            }
        }
        assert_eq!(m.length(), N - 1);
    }
}

#[test]
fn find_mut_writes_only_its_key() {
    let mut m = KeyVector::<u64, u16, 100>::new(0).unwrap();
    m.add(50);
    m.add(60);
    *m.find_mut(50) = 5;
    *m.find_mut(60) = 6;
    assert_eq!(*m.find(50), 5);
    assert_eq!(*m.find(60), 6);
    assert_eq!(*m.find(70), 0);
    *m.find_mut(70) = 9; // absent: writes the sentinel
    assert_eq!(*m.find(70), 9);
    assert_eq!(*m.find(50), 5);
    assert_eq!(m.length(), 2);
}

#[test]
fn standalone_map_records_its_address() {
    let mut m = KeyVector::<u64, u8, 10>::new(4096).unwrap();
    assert_eq!(m.address(), 4096);
    m.add(3);
    *m.find_mut(3) = 1;
    assert_eq!(m.address(), 4096);
}
