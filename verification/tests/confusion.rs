use dep_eval::{Confusion, Counts};

fn cells<V: dep_eval::Class>(confusion: &Confusion<V>) -> Vec<Vec<usize>> {
    let counts = confusion.counts();
    let n = counts.dim();
    (0..n).map(|i| (0..n).map(|j| counts.get(i, j)).collect()).collect()
}

fn labels(confusion: &Confusion<String>) -> Vec<String> {
    let numberer = confusion.numberer();
    (0..numberer.len()).map(|i| numberer.get_val(i).unwrap().clone()).collect()
}

fn count(confusion: &Confusion<String>, gold: &str, pred: &str) -> usize {
    let numberer = confusion.numberer();
    match (numberer.get_number(&gold.to_string()), numberer.get_number(&pred.to_string())) {
        (Some(g), Some(p)) => confusion.counts().get(g, p),
        _ => 0,
    }
}

#[test]
fn new_counts_are_empty() {
    let counts = Counts::new();
    assert_eq!(counts.dim(), 0);
    assert_eq!(counts.total(), 0);
    assert_eq!(counts.correct(), 0);
}

#[test]
fn growing_pads_with_zeros() {
    let mut counts = Counts::new();
    counts.grow_to(3);
    assert_eq!(counts.dim(), 3);
    for i in 0..3 {
        for j in 0..3 {
            assert_eq!(counts.get(i, j), 0);
        }
        assert_eq!(counts.row_total(i), 0);
        assert_eq!(counts.column_total(i), 0);
    }
    assert_eq!(counts.total(), 0);
}

#[test]
fn growing_keeps_every_count() {
    let mut counts = Counts::new();
    counts.grow_to(2);
    counts.increment(0, 1);
    counts.increment(0, 1);
    counts.increment(1, 0);
    counts.increment(1, 1);
    counts.grow_to(5);
    assert_eq!(counts.dim(), 5);
    assert_eq!(counts.get(0, 0), 0);
    assert_eq!(counts.get(0, 1), 2);
    assert_eq!(counts.get(1, 0), 1);
    assert_eq!(counts.get(1, 1), 1);
    for i in 0..5 {
        for j in 0..5 {
            if i >= 2 || j >= 2 {
                assert_eq!(counts.get(i, j), 0);
            }
        }
    }
    assert_eq!(counts.total(), 4);
}

#[test]
fn growing_never_shrinks() {
    let mut counts = Counts::new();
    counts.grow_to(4);
    counts.increment(3, 3);
    counts.grow_to(2);
    assert_eq!(counts.dim(), 4);
    assert_eq!(counts.get(3, 3), 1);
    counts.grow_to(4);
    assert_eq!(counts.dim(), 4);
}

#[test]
fn sums_of_rows_columns_and_diagonal() {
    let mut counts = Counts::new();
    counts.grow_to(3);
    for (g, p, times) in [(0, 0, 4), (0, 2, 1), (1, 0, 2), (1, 1, 3), (2, 1, 5)] {
        for _ in 0..times {
            counts.increment(g, p);
        }
    }
    assert_eq!(counts.row_total(0), 5);
    assert_eq!(counts.row_total(1), 5);
    assert_eq!(counts.row_total(2), 5);
    assert_eq!(counts.column_total(0), 6);
    assert_eq!(counts.column_total(1), 8);
    assert_eq!(counts.column_total(2), 1);
    assert_eq!(counts.correct(), 7);
    assert_eq!(counts.total(), 15);
}

#[test]
fn new_confusion_is_empty() {
    let confusion: Confusion<String> = Confusion::new("Deprels");
    assert_eq!(confusion.name(), "Deprels");
    assert_eq!(confusion.numberer().len(), 0);
    assert!(confusion.numberer().is_empty());
    assert_eq!(confusion.counts().dim(), 0);
    assert_eq!(confusion.counts().total(), 0);
}

#[test]
fn insert_numbers_gold_before_predicted() {
    let mut confusion: Confusion<String> = Confusion::new("Deprels");
    confusion.insert("obj".to_string(), "nsubj".to_string());
    assert_eq!(labels(&confusion), vec!["obj", "nsubj"]);
    assert_eq!(cells(&confusion), vec![vec![0, 1], vec![0, 0]]);
}

#[test]
fn insert_counts_each_pair() {
    let mut confusion: Confusion<String> = Confusion::new("Deprels");
    confusion.insert("nsubj".to_string(), "nsubj".to_string());
    confusion.insert("nsubj".to_string(), "obj".to_string());
    confusion.insert("obj".to_string(), "obj".to_string());
    confusion.insert("nsubj".to_string(), "obj".to_string());
    assert_eq!(labels(&confusion), vec!["nsubj", "obj"]);
    assert_eq!(cells(&confusion), vec![vec![1, 2], vec![0, 1]]);
    assert_eq!(confusion.counts().total(), 4);
}

#[test]
fn dimension_follows_the_numberer() {
    let mut confusion: Confusion<usize> = Confusion::new("Dists");
    for (gold, pred) in [(1usize, 1usize), (2, 1), (7, 9), (1, 7), (9, 2)] {
        confusion.insert(gold, pred);
        assert_eq!(confusion.counts().dim(), confusion.numberer().len());
    }
    assert_eq!(confusion.numberer().len(), 4);
}

#[test]
fn a_new_class_alters_no_earlier_count() {
    let mut confusion: Confusion<String> = Confusion::new("Deprels");
    confusion.insert("a".to_string(), "a".to_string());
    confusion.insert("a".to_string(), "b".to_string());
    confusion.insert("b".to_string(), "a".to_string());
    confusion.insert("b".to_string(), "a".to_string());
    let before = cells(&confusion);
    confusion.insert("c".to_string(), "a".to_string());
    let after = cells(&confusion);
    assert_eq!(after.len(), 3);
    for i in 0..2 {
        for j in 0..2 {
            assert_eq!(after[i][j], before[i][j]);
        }
    }
    assert_eq!(after[2], vec![1, 0, 0]);
    assert_eq!(after[0][2], 0);
    assert_eq!(after[1][2], 0);
    assert_eq!(labels(&confusion), vec!["a", "b", "c"]);
}

#[test]
fn two_new_classes_at_once() {
    let mut confusion: Confusion<String> = Confusion::new("Deprels");
    confusion.insert("a".to_string(), "a".to_string());
    confusion.insert("x".to_string(), "y".to_string());
    assert_eq!(labels(&confusion), vec!["a", "x", "y"]);
    assert_eq!(cells(&confusion), vec![vec![1, 0, 0], vec![0, 0, 1], vec![0, 0, 0]]);
}

#[test]
fn insertion_order_changes_only_the_numbering() {
    let mut one: Confusion<String> = Confusion::new("Deprels");
    one.insert("a".to_string(), "b".to_string());
    one.insert("c".to_string(), "d".to_string());
    let mut other: Confusion<String> = Confusion::new("Deprels");
    other.insert("c".to_string(), "d".to_string());
    other.insert("a".to_string(), "b".to_string());
    assert_eq!(labels(&one), vec!["a", "b", "c", "d"]);
    assert_eq!(labels(&other), vec!["c", "d", "a", "b"]);
    for gold in ["a", "b", "c", "d", "e"] {
        for pred in ["a", "b", "c", "d", "e"] {
            assert_eq!(count(&one, gold, pred), count(&other, gold, pred));
        }
    }
    assert_eq!(count(&one, "a", "b"), 1);
    assert_eq!(count(&one, "c", "d"), 1);
    assert_eq!(count(&one, "a", "d"), 0);
}

#[test]
fn insertion_order_with_shared_classes() {
    let mut one: Confusion<usize> = Confusion::new("Dists");
    one.insert(1, 2);
    one.insert(2, 1);
    let mut other: Confusion<usize> = Confusion::new("Dists");
    other.insert(2, 1);
    other.insert(1, 2);
    for gold in 0..4usize {
        for pred in 0..4usize {
            let a = match (one.numberer().get_number(&gold), one.numberer().get_number(&pred)) {
                (Some(g), Some(p)) => one.counts().get(g, p),
                _ => 0,
            };
            let b = match (other.numberer().get_number(&gold), other.numberer().get_number(&pred))
            {
                (Some(g), Some(p)) => other.counts().get(g, p),
                _ => 0,
            };
            assert_eq!(a, b);
        }
    }
}

#[test]
fn overall_accuracy_lies_between_zero_and_one() {
    let mut confusion: Confusion<usize> = Confusion::new("Dists");
    for (gold, pred) in [(1usize, 1usize), (2, 1), (1, 1), (3, 3), (2, 3), (3, 1)] {
        confusion.insert(gold, pred);
        let ratio = confusion.overall_accuracy();
        assert!(ratio.denominator > 0);
        assert!(ratio.numerator <= ratio.denominator);
        let value = ratio.numerator as f32 / ratio.denominator as f32;
        assert!(0.0 <= value && value <= 1.0);
    }
    let ratio = confusion.overall_accuracy();
    assert_eq!(ratio.numerator, 3);
    assert_eq!(ratio.denominator, 6);
}

#[test]
fn accuracy_and_precision_of_a_class() {
    let mut confusion: Confusion<String> = Confusion::new("Deprels");
    for (gold, pred) in [("a", "a"), ("a", "b"), ("a", "a"), ("b", "a"), ("b", "b")] {
        confusion.insert(gold.to_string(), pred.to_string());
    }
    let accuracy = confusion.accuracy(0);
    assert_eq!((accuracy.numerator, accuracy.denominator), (2, 3));
    let precision = confusion.precision(0);
    assert_eq!((precision.numerator, precision.denominator), (2, 3));
    let accuracy = confusion.accuracy(1);
    assert_eq!((accuracy.numerator, accuracy.denominator), (1, 2));
    let precision = confusion.precision(1);
    assert_eq!((precision.numerator, precision.denominator), (1, 2));
}

#[test]
fn a_class_never_seen_as_gold_has_no_accuracy() {
    let mut confusion: Confusion<String> = Confusion::new("Deprels");
    confusion.insert("a".to_string(), "b".to_string());
    let accuracy = confusion.accuracy(1);
    assert_eq!((accuracy.numerator, accuracy.denominator), (0, 0));
    assert!(!accuracy.is_defined());
    let value = accuracy.numerator as f32 / accuracy.denominator as f32;
    assert!(!value.is_finite());
    assert!(value.is_nan());
    let precision = confusion.precision(0);
    assert!(!precision.is_defined());
    assert!(confusion.accuracy(0).is_defined());
}

#[test]
fn an_empty_matrix_has_no_overall_accuracy() {
    let confusion: Confusion<usize> = Confusion::new("Dists");
    let ratio = confusion.overall_accuracy();
    assert_eq!((ratio.numerator, ratio.denominator), (0, 0));
    assert!(!ratio.is_defined());
}
