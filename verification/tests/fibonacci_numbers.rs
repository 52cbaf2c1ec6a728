use side_pool::fibonacci::fibonacci;
use std::collections::HashMap;

#[test]
fn the_first_numbers() {
    let expected = [0_i64, 1, 1, 2, 3, 5, 8, 13, 21, 34, 55];
    for (n, value) in expected.iter().enumerate() {
        assert_eq!(fibonacci(n as i64), *value);
    }
}

#[test]
fn negative_indices_alternate_in_sign() {
    let expected = [0_i64, 1, -1, 2, -3, 5, -8, 13, -21, 34, -55];
    for (n, value) in expected.iter().enumerate() {
        assert_eq!(fibonacci(-(n as i64)), *value);
    }
}

#[test]
fn the_largest_index_on_either_side() {
    assert_eq!(fibonacci(92), 7_540_113_804_746_346_429);
    assert_eq!(fibonacci(-92), -7_540_113_804_746_346_429);
    assert_eq!(fibonacci(91), 4_660_046_610_375_530_309);
    assert_eq!(fibonacci(-91), 4_660_046_610_375_530_309);
}

#[test]
fn every_number_is_the_sum_of_the_two_before() {
    for n in -90..=92_i64 {
        assert_eq!(fibonacci(n), fibonacci(n - 1) + fibonacci(n - 2));
    }
}

#[test]
fn the_table_gives_the_same_numbers() {
    let mut memo = HashMap::new();
    for n in -92..=92_i64 {
        assert_eq!(side_pool::fibonacci::memo::fibonacci(n, &mut memo), fibonacci(n));
    }
}

#[test]
fn the_table_is_filled_on_the_way() {
    let mut memo = HashMap::new();
    assert_eq!(side_pool::fibonacci::memo::fibonacci(10, &mut memo), 55);
    assert_eq!(memo.len(), 11);
    for n in 0..=10_i64 {
        assert_eq!(memo.get(&n), Some(&fibonacci(n)));
    }
    assert_eq!(side_pool::fibonacci::memo::fibonacci(-6, &mut memo), -8);
    assert_eq!(memo.get(&-5), Some(&5));
    assert_eq!(memo.get(&-1), Some(&1));
    assert_eq!(memo.len(), 17);
}

#[test]
fn a_known_entry_is_returned_as_it_stands() {
    let mut memo = HashMap::new();
    memo.insert(40_i64, 102_334_155_i64);
    assert_eq!(side_pool::fibonacci::memo::fibonacci(40, &mut memo), 102_334_155);
    assert_eq!(memo.len(), 1);
    assert_eq!(side_pool::fibonacci::memo::fibonacci(41, &mut memo), 165_580_141);
    assert_eq!(memo.get(&39), Some(&63_245_986));
}
