use dep_eval::score::distance;
use dep_eval::{countable, score, Confusion, Head, Node, ScoreError, Scorer, Sentence, Token};

fn token(form: &str, head: usize, relation: &str) -> Node {
    Node::Token(Token {
        form: form.to_string(),
        head: Some(Head { index: head, relation: relation.to_string() }),
        features: None,
    })
}

fn headless(form: &str) -> Node {
    Node::Token(Token { form: form.to_string(), head: None, features: None })
}

fn sentence(tokens: Vec<Node>) -> Sentence {
    let mut nodes = vec![Node::Root];
    nodes.extend(tokens);
    Sentence { nodes }
}

fn gold_sentence() -> Sentence {
    sentence(vec![token("She", 2, "nsubj"), token("reads", 0, "root"), token("books", 2, "obj")])
}

fn distances(confusion: &Confusion<usize>, gold: usize, pred: usize) -> usize {
    let numberer = confusion.numberer();
    match (numberer.get_number(&gold), numberer.get_number(&pred)) {
        (Some(g), Some(p)) => confusion.counts().get(g, p),
        _ => 0,
    }
}

fn deprels(confusion: &Confusion<String>, gold: &str, pred: &str) -> usize {
    let numberer = confusion.numberer();
    match (numberer.get_number(&gold.to_string()), numberer.get_number(&pred.to_string())) {
        (Some(g), Some(p)) => confusion.counts().get(g, p),
        _ => 0,
    }
}

fn four_decimals(numerator: usize, denominator: usize) -> String {
    format!("{:.4}", numerator as f32 / denominator as f32)
}

#[test]
fn distance_is_the_absolute_difference() {
    assert_eq!(distance(2, 1), 1);
    assert_eq!(distance(0, 2), 2);
    assert_eq!(distance(2, 3), 1);
    assert_eq!(distance(3, 3), 0);
    assert_eq!(distance(0, usize::MAX), usize::MAX);
    assert_eq!(distance(usize::MAX, 0), usize::MAX);
}

#[test]
fn new_scorer_has_counted_nothing() {
    let scorer = Scorer::new();
    assert_eq!(scorer.total(), 0);
    assert_eq!(scorer.correct_head(), 0);
    assert_eq!(scorer.correct_head_label(), 0);
    assert_eq!(scorer.deprel_confusion().name(), "Deprels");
    assert_eq!(scorer.distance_confusion().name(), "Dists");
    assert!(!scorer.uas().is_defined());
    assert!(!scorer.las().is_defined());
    assert!((scorer.uas().numerator as f32 / scorer.uas().denominator as f32).is_nan());
}

#[test]
fn one_wrong_head_in_three_tokens() {
    let gold = vec![gold_sentence()];
    let pred = vec![sentence(vec![
        token("She", 2, "nsubj"),
        token("reads", 0, "root"),
        token("books", 3, "obj"),
    ])];
    let scorer = score(&gold, &pred).unwrap();
    assert_eq!(scorer.correct_head(), 2);
    assert_eq!(scorer.correct_head_label(), 2);
    assert_eq!(scorer.total(), 3);
    let uas = scorer.uas();
    let las = scorer.las();
    assert_eq!(four_decimals(uas.numerator, uas.denominator), "0.6667");
    assert_eq!(four_decimals(las.numerator, las.denominator), "0.6667");
    let confusion = scorer.distance_confusion();
    assert_eq!(distances(confusion, 1, 1), 1);
    assert_eq!(distances(confusion, 2, 2), 1);
    assert_eq!(distances(confusion, 1, 0), 1);
    assert_eq!(confusion.counts().total(), 3);
    let confusion = scorer.deprel_confusion();
    assert_eq!(deprels(confusion, "nsubj", "nsubj"), 1);
    assert_eq!(deprels(confusion, "root", "root"), 1);
    assert_eq!(deprels(confusion, "obj", "obj"), 1);
    assert_eq!(confusion.counts().total(), 3);
}

#[test]
fn one_wrong_head_at_distance_two() {
    let gold = vec![gold_sentence()];
    let pred = vec![sentence(vec![
        token("She", 2, "nsubj"),
        token("reads", 0, "root"),
        token("books", 1, "obj"),
    ])];
    let scorer = score(&gold, &pred).unwrap();
    assert_eq!(scorer.correct_head(), 2);
    assert_eq!(scorer.correct_head_label(), 2);
    assert_eq!(scorer.total(), 3);
    assert_eq!(four_decimals(scorer.uas().numerator, scorer.uas().denominator), "0.6667");
    assert_eq!(four_decimals(scorer.las().numerator, scorer.las().denominator), "0.6667");
    let confusion = scorer.distance_confusion();
    let numberer = confusion.numberer();
    assert_eq!(numberer.get_number(&1), Some(0));
    assert_eq!(numberer.get_number(&2), Some(1));
    assert_eq!(numberer.len(), 2);
    assert_eq!(distances(confusion, 1, 1), 1);
    assert_eq!(distances(confusion, 2, 2), 1);
    assert_eq!(distances(confusion, 1, 2), 1);
    assert_eq!(distances(confusion, 2, 1), 0);
}

#[test]
fn a_wrong_label_counts_for_the_head_only() {
    let gold = vec![gold_sentence()];
    let pred = vec![sentence(vec![
        token("She", 2, "obj"),
        token("reads", 0, "root"),
        token("books", 1, "obj"),
    ])];
    let scorer = score(&gold, &pred).unwrap();
    assert_eq!(scorer.correct_head(), 2);
    assert_eq!(scorer.correct_head_label(), 1);
    assert_eq!(scorer.total(), 3);
    assert!(scorer.las().numerator <= scorer.uas().numerator);
    let confusion = scorer.deprel_confusion();
    assert_eq!(deprels(confusion, "nsubj", "obj"), 1);
    assert_eq!(deprels(confusion, "obj", "obj"), 1);
    assert_eq!(deprels(confusion, "nsubj", "nsubj"), 0);
}

#[test]
fn a_right_label_on_a_wrong_head_counts_for_nothing() {
    let mut scorer = Scorer::new();
    let gold = Head { index: 2, relation: "obj".to_string() };
    let pred = Head { index: 4, relation: "obj".to_string() };
    scorer.observe(&gold, &pred, 3);
    assert_eq!(scorer.total(), 1);
    assert_eq!(scorer.correct_head(), 0);
    assert_eq!(scorer.correct_head_label(), 0);
    scorer.observe(&gold, &gold, 3);
    assert_eq!(scorer.total(), 2);
    assert_eq!(scorer.correct_head(), 1);
    assert_eq!(scorer.correct_head_label(), 1);
}

#[test]
fn labeled_score_never_exceeds_unlabeled_score() {
    let labels = ["nsubj", "obj", "det"];
    let mut scorer = Scorer::new();
    for step in 0..60usize {
        let gold = Head { index: step % 4, relation: labels[step % 3].to_string() };
        let pred = Head { index: (step / 2) % 4, relation: labels[(step / 3) % 3].to_string() };
        scorer.observe(&gold, &pred, step % 7 + 1);
        assert!(scorer.correct_head_label() <= scorer.correct_head());
        assert!(scorer.correct_head() <= scorer.total());
        assert_eq!(scorer.total(), step + 1);
        assert_eq!(scorer.deprel_confusion().counts().total(), step + 1);
        assert_eq!(scorer.distance_confusion().counts().total(), step + 1);
    }
}

#[test]
fn mismatched_forms_are_a_misalignment() {
    for position in 0..3 {
        let mut tokens =
            vec![token("She", 2, "nsubj"), token("reads", 0, "root"), token("books", 2, "obj")];
        tokens[position] = token("other", 2, "nsubj");
        let gold = vec![gold_sentence()];
        let pred = vec![sentence(tokens)];
        assert_eq!(score(&gold, &pred).err(), Some(ScoreError::AlignmentMismatch));
    }
}

#[test]
fn a_misaligned_sentence_counts_nothing() {
    let mut scorer = Scorer::new();
    assert_eq!(scorer.score_sentence(&gold_sentence(), &gold_sentence()), Ok(()));
    let pred = sentence(vec![
        token("She", 2, "nsubj"),
        token("reads", 0, "root"),
        token("magazines", 2, "obj"),
    ]);
    assert_eq!(
        scorer.score_sentence(&gold_sentence(), &pred),
        Err(ScoreError::AlignmentMismatch)
    );
    assert_eq!(scorer.total(), 3);
    assert_eq!(scorer.correct_head(), 3);
    assert_eq!(scorer.correct_head_label(), 3);
    assert_eq!(scorer.deprel_confusion().counts().total(), 3);
    assert_eq!(scorer.distance_confusion().counts().total(), 3);
}

#[test]
fn sentences_of_different_length_are_a_misalignment() {
    let pred = sentence(vec![token("She", 2, "nsubj"), token("reads", 0, "root")]);
    let mut scorer = Scorer::new();
    assert_eq!(
        scorer.score_sentence(&gold_sentence(), &pred),
        Err(ScoreError::AlignmentMismatch)
    );
    assert_eq!(scorer.score_sentence(&pred, &gold_sentence()), Err(ScoreError::AlignmentMismatch));
    assert_eq!(scorer.total(), 0);
}

#[test]
fn a_missing_head_is_reported() {
    let pred =
        sentence(vec![token("She", 2, "nsubj"), headless("reads"), token("books", 2, "obj")]);
    let mut scorer = Scorer::new();
    assert_eq!(scorer.score_sentence(&gold_sentence(), &pred), Err(ScoreError::MissingHead));
    assert_eq!(scorer.score_sentence(&pred, &gold_sentence()), Err(ScoreError::MissingHead));
    assert_eq!(scorer.total(), 0);
    assert_eq!(scorer.deprel_confusion().numberer().len(), 0);
}

#[test]
fn a_misalignment_comes_before_a_missing_head() {
    let pred =
        sentence(vec![headless("She"), token("reads", 0, "root"), token("novels", 2, "obj")]);
    let mut scorer = Scorer::new();
    assert_eq!(
        scorer.score_sentence(&gold_sentence(), &pred),
        Err(ScoreError::AlignmentMismatch)
    );
}

#[test]
fn entries_that_are_no_tokens_are_skipped() {
    let gold = Sentence {
        nodes: vec![
            Node::Root,
            token("She", 2, "nsubj"),
            Node::Root,
            token("reads", 0, "root"),
        ],
    };
    let pred = Sentence {
        nodes: vec![token("She", 2, "nsubj"), token("reads", 1, "root"), Node::Root],
    };
    assert_eq!(gold.tokens().len(), 2);
    assert_eq!(pred.tokens().len(), 2);
    let mut scorer = Scorer::new();
    assert_eq!(scorer.score_sentence(&gold, &pred), Ok(()));
    assert_eq!(scorer.total(), 2);
    assert_eq!(scorer.correct_head(), 1);
    assert_eq!(distances(scorer.distance_confusion(), 2, 1), 1);
    assert_eq!(distances(scorer.distance_confusion(), 1, 1), 1);
}

#[test]
fn the_shorter_corpus_ends_the_run() {
    let gold = vec![gold_sentence(), gold_sentence(), gold_sentence()];
    let pred = vec![gold_sentence(), gold_sentence()];
    let scorer = score(&gold, &pred).unwrap();
    assert_eq!(scorer.total(), 6);
    assert_eq!(scorer.correct_head(), 6);
    assert_eq!(scorer.correct_head_label(), 6);
    let scorer = score(&pred, &gold).unwrap();
    assert_eq!(scorer.total(), 6);
}

#[test]
fn corpora_in_memory_are_countable() {
    let gold = vec![gold_sentence(), gold_sentence()];
    let pred = vec![gold_sentence()];
    assert!(countable(&gold, &pred));
    assert!(countable(&pred, &gold));
    assert!(countable(&Vec::new(), &Vec::new()));
}

#[test]
fn empty_corpora_give_an_empty_run() {
    let scorer = score(&Vec::new(), &vec![gold_sentence()]).unwrap();
    assert_eq!(scorer.total(), 0);
    let scorer = score(&Vec::new(), &Vec::new()).unwrap();
    assert_eq!(scorer.total(), 0);
    assert!(!scorer.uas().is_defined());
}

#[test]
fn a_fault_ends_the_whole_run() {
    let bad = sentence(vec![token("He", 2, "nsubj"), token("reads", 0, "root")]);
    let good = sentence(vec![token("She", 2, "nsubj"), token("reads", 0, "root")]);
    let gold = vec![gold_sentence(), good, gold_sentence()];
    let pred = vec![gold_sentence(), bad, gold_sentence()];
    assert_eq!(score(&gold, &pred).err(), Some(ScoreError::AlignmentMismatch));
}

#[test]
fn a_fault_beyond_the_shorter_corpus_is_not_met() {
    let bad = sentence(vec![headless("He")]);
    let gold = vec![gold_sentence(), bad];
    let pred = vec![gold_sentence()];
    let scorer = score(&gold, &pred).unwrap();
    assert_eq!(scorer.total(), 3);
}

#[test]
fn the_first_faulty_pair_decides_the_error() {
    let headless_pair = sentence(vec![headless("He")]);
    let other_form = sentence(vec![token("It", 0, "root")]);
    let well = sentence(vec![token("He", 0, "root")]);
    let gold = vec![well, sentence(vec![token("He", 0, "root")])];
    let pred = vec![headless_pair, other_form];
    assert_eq!(score(&gold, &pred).err(), Some(ScoreError::MissingHead));
}

#[test]
fn sentences_are_scored_one_after_another() {
    let mut scorer = Scorer::new();
    let pred = sentence(vec![
        token("She", 3, "nsubj"),
        token("reads", 0, "root"),
        token("books", 2, "dobj"),
    ]);
    assert_eq!(scorer.score_sentence(&gold_sentence(), &gold_sentence()), Ok(()));
    assert_eq!(scorer.score_sentence(&gold_sentence(), &pred), Ok(()));
    assert_eq!(scorer.total(), 6);
    assert_eq!(scorer.correct_head(), 5);
    assert_eq!(scorer.correct_head_label(), 4);
    assert_eq!(four_decimals(scorer.uas().numerator, scorer.uas().denominator), "0.8333");
    assert_eq!(four_decimals(scorer.las().numerator, scorer.las().denominator), "0.6667");
    assert_eq!(deprels(scorer.deprel_confusion(), "obj", "dobj"), 1);
    assert_eq!(deprels(scorer.deprel_confusion(), "obj", "obj"), 1);
    assert_eq!(deprels(scorer.deprel_confusion(), "nsubj", "nsubj"), 2);
}
