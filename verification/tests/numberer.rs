use dep_eval::class::decimal_text;
use dep_eval::{Class, Numberer};

#[test]
fn new_numberer_is_empty() {
    let numberer: Numberer<String> = Numberer::new();
    assert_eq!(numberer.len(), 0);
    assert!(numberer.is_empty());
    assert_eq!(numberer.get_val(0), None);
    assert_eq!(numberer.get_number(&"nsubj".to_string()), None);
}

#[test]
fn numbers_are_assigned_in_first_seen_order() {
    let mut numberer: Numberer<String> = Numberer::new();
    assert_eq!(numberer.number("nsubj".to_string()), 0);
    assert_eq!(numberer.number("root".to_string()), 1);
    assert_eq!(numberer.number("obj".to_string()), 2);
    assert_eq!(numberer.len(), 3);
    assert!(!numberer.is_empty());
}

#[test]
fn numbering_a_known_value_returns_its_number() {
    let mut numberer: Numberer<String> = Numberer::new();
    let first = numberer.number("nsubj".to_string());
    let second = numberer.number("root".to_string());
    for _ in 0..5 {
        assert_eq!(numberer.number("nsubj".to_string()), first);
        assert_eq!(numberer.number("root".to_string()), second);
    }
    assert_eq!(numberer.len(), 2);
}

#[test]
fn distinct_values_never_collide() {
    let mut numberer: Numberer<usize> = Numberer::new();
    let values = [5usize, 3, 5, 9, 3, 0, 9, 7];
    let mut numbers = Vec::new();
    for value in values.iter() {
        numbers.push(numberer.number(*value));
    }
    assert_eq!(numbers, vec![0, 1, 0, 2, 1, 3, 2, 4]);
    for (i, a) in values.iter().enumerate() {
        for (j, b) in values.iter().enumerate() {
            assert_eq!(a == b, numbers[i] == numbers[j]);
        }
    }
}

#[test]
fn len_counts_distinct_values() {
    let mut numberer: Numberer<usize> = Numberer::new();
    for value in [4usize, 4, 4, 1, 2, 1, 4, 8] {
        numberer.number(value);
    }
    assert_eq!(numberer.len(), 4);
}

#[test]
fn get_number_does_not_number() {
    let mut numberer: Numberer<String> = Numberer::new();
    numberer.number("det".to_string());
    assert_eq!(numberer.get_number(&"det".to_string()), Some(0));
    assert_eq!(numberer.get_number(&"amod".to_string()), None);
    assert_eq!(numberer.len(), 1);
    assert_eq!(numberer.number("amod".to_string()), 1);
    assert_eq!(numberer.get_number(&"amod".to_string()), Some(1));
}

#[test]
fn get_val_is_the_inverse_of_number() {
    let mut numberer: Numberer<String> = Numberer::new();
    numberer.number("det".to_string());
    numberer.number("amod".to_string());
    assert_eq!(numberer.get_val(0), Some(&"det".to_string()));
    assert_eq!(numberer.get_val(1), Some(&"amod".to_string()));
    assert_eq!(numberer.get_val(2), None);
    assert_eq!(numberer.get_val(usize::MAX), None);
}

#[test]
fn earlier_numbers_survive_growth() {
    let mut numberer: Numberer<usize> = Numberer::new();
    for value in 0..50usize {
        assert_eq!(numberer.number(value * 3), value);
    }
    for value in 0..50usize {
        assert_eq!(numberer.get_number(&(value * 3)), Some(value));
        assert_eq!(numberer.get_val(value), Some(&(value * 3)));
    }
    assert_eq!(numberer.len(), 50);
}

#[test]
fn decimal_text_of_counts() {
    assert_eq!(decimal_text(0), "0");
    assert_eq!(decimal_text(7), "7");
    assert_eq!(decimal_text(10), "10");
    assert_eq!(decimal_text(909), "909");
    assert_eq!(decimal_text(1234567890), "1234567890");
    assert_eq!(decimal_text(usize::MAX), usize::MAX.to_string());
}

#[test]
fn classes_are_named_and_told_apart() {
    assert_eq!("nsubj".to_string().name(), "nsubj");
    assert_eq!(42usize.name(), "42");
    assert!("a".to_string().same(&"a".to_string()));
    assert!(!"a".to_string().same(&"b".to_string()));
    assert!(3usize.same(&3));
    assert!(!3usize.same(&4));
}
