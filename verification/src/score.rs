//! Lock-step comparison of gold-standard and predicted sentences.

use crate::confusion::{Confusion, ConfusionView};
use crate::grid::total;
use crate::token::{Head, Sentence, Token, TokenView};
use vstd::prelude::*;

verus! {

/// Why two sentences cannot be compared.
#[derive(Clone, Copy, Debug, PartialEq, Eq, Structural)]
pub enum ScoreError {
    /// The sentences differ in their number of tokens, or in the surface
    /// form of a token.
    AlignmentMismatch,
    /// A token of either sentence has no governor.
    MissingHead,
}

/// The distance between a position and the position of its governor.
pub open spec fn gap(head: usize, idx: usize) -> usize {
    if head >= idx {
        (head - idx) as usize
    } else {
        (idx - head) as usize
    }
}

/// The distance between a position and the position of its governor.
pub fn distance(head: usize, idx: usize) -> (d: usize)
    ensures
        d == gap(head, idx),
{
    if head >= idx {
        head - idx
    } else {
        idx - head
    }
}

/// Whether two sentences have the same number of tokens with the same
/// surface forms.
pub open spec fn aligned(gold: Seq<TokenView>, pred: Seq<TokenView>) -> bool {
    &&& gold.len() == pred.len()
    &&& forall|k: int| 0 <= k < gold.len() ==> (#[trigger] gold[k]).form == pred[k].form
}

/// Whether every token has a governor.
pub open spec fn attached(tokens: Seq<TokenView>) -> bool {
    forall|k: int| 0 <= k < tokens.len() ==> (#[trigger] tokens[k]).head is Some
}

/// What stands in the way of comparing two sentences, if anything does. A
/// misalignment anywhere in the sentences comes before a missing governor.
pub open spec fn fault(gold: Seq<TokenView>, pred: Seq<TokenView>) -> Option<ScoreError> {
    if !aligned(gold, pred) {
        Some(ScoreError::AlignmentMismatch)
    } else if !(attached(gold) && attached(pred)) {
        Some(ScoreError::MissingHead)
    } else {
        None
    }
}

/// The state of a scoring run: the two confusion matrices and the three
/// counters.
pub struct ScoreView {
    pub deprels: ConfusionView<Seq<char>>,
    pub distances: ConfusionView<usize>,
    pub correct_head: nat,
    pub correct_head_label: nat,
    pub total: nat,
}

impl ScoreView {
    /// Both matrices hold one observation for each token compared, and a
    /// token with the right governor and label is among those with the
    /// right governor, which are among all.
    pub open spec fn wf(self) -> bool {
        &&& self.deprels.wf()
        &&& self.distances.wf()
        &&& total(self.deprels.cells) == self.total
        &&& total(self.distances.cells) == self.total
        &&& self.correct_head_label <= self.correct_head <= self.total
    }

    /// The state after the token at position `idx` has been compared, whose
    /// gold governor and label are `gold` and whose predicted ones are
    /// `pred`.
    pub open spec fn observed(
        self,
        gold: (usize, Seq<char>),
        pred: (usize, Seq<char>),
        idx: usize,
    ) -> ScoreView {
        ScoreView {
            deprels: self.deprels.inserted(gold.1, pred.1),
            distances: self.distances.inserted(gap(gold.0, idx), gap(pred.0, idx)),
            correct_head: self.correct_head + if pred.0 == gold.0 {
                1nat
            } else {
                0nat
            },
            correct_head_label: self.correct_head_label + if pred == gold {
                1nat
            } else {
                0nat
            },
            total: self.total + 1,
        }
    }

    /// The state after the first `n` tokens of two sentences have been
    /// compared, in order.
    pub open spec fn scored_prefix(
        self,
        gold: Seq<TokenView>,
        pred: Seq<TokenView>,
        n: nat,
    ) -> ScoreView
        decreases n,
    {
        if n == 0 {
            self
        } else {
            self.scored_prefix(gold, pred, (n - 1) as nat).observed(
                gold[n - 1].head.unwrap(),
                pred[n - 1].head.unwrap(),
                n as usize,
            )
        }
    }

    /// The state after two sentences have been compared.
    pub open spec fn scored(self, gold: Seq<TokenView>, pred: Seq<TokenView>) -> ScoreView {
        self.scored_prefix(gold, pred, gold.len())
    }

    /// The outcome of comparing the first `n` sentences of two corpora, in
    /// order: the first fault that is met, or else the state after all of
    /// them.
    pub open spec fn run(
        self,
        gold: Seq<Seq<TokenView>>,
        pred: Seq<Seq<TokenView>>,
        n: nat,
    ) -> Result<ScoreView, ScoreError>
        decreases n,
    {
        if n == 0 {
            Ok(self)
        } else {
            match self.run(gold, pred, (n - 1) as nat) {
                Err(fault) => Err(fault),
                Ok(state) => match fault(gold[n - 1], pred[n - 1]) {
                    Some(fault) => Err(fault),
                    None => Ok(state.scored(gold[n - 1], pred[n - 1])),
                },
            }
        }
    }
}

/// The state before anything has been compared.
pub open spec fn fresh() -> ScoreView {
    ScoreView {
        deprels: ConfusionView { name: "Deprels"@, classes: Seq::empty(), cells: Seq::empty() },
        distances: ConfusionView { name: "Dists"@, classes: Seq::empty(), cells: Seq::empty() },
        correct_head: 0,
        correct_head_label: 0,
        total: 0,
    }
}

/// The number of tokens in the first `n` sentences.
pub open spec fn token_count(sentences: Seq<Seq<TokenView>>, n: nat) -> nat
    decreases n,
{
    if n == 0 {
        0
    } else {
        token_count(sentences, (n - 1) as nat) + sentences[n - 1].len()
    }
}

/// The sentences of a corpus as the scorer reads them.
pub open spec fn corpus(sentences: Seq<Sentence>) -> Seq<Seq<TokenView>> {
    sentences.map_values(|s: Sentence| s@)
}

/// The shorter of two lengths.
pub open spec fn shorter(a: nat, b: nat) -> nat {
    if a <= b {
        a
    } else {
        b
    }
}

/// The first sentences of a corpus hold no more tokens than a longer run
/// of its sentences.
pub proof fn lemma_token_count_grows(sentences: Seq<Seq<TokenView>>, k: nat, n: nat)
    requires
        k <= n,
    ensures
        token_count(sentences, k) <= token_count(sentences, n),
    decreases n - k,
{
    if k < n {
        lemma_token_count_grows(sentences, k + 1, n);
    }
}

/// A scoring run: a confusion matrix of relation labels, one of head
/// distances, and the counts of tokens compared, of tokens with the right
/// governor, and of tokens with the right governor and label.
pub struct Scorer {
    deprel_confusion: Confusion<String>,
    distance_confusion: Confusion<usize>,
    correct_head: usize,
    correct_head_label: usize,
    total: usize,
}

impl View for Scorer {
    type V = ScoreView;

    closed spec fn view(&self) -> ScoreView {
        ScoreView {
            deprels: self.deprel_confusion@,
            distances: self.distance_confusion@,
            correct_head: self.correct_head as nat,
            correct_head_label: self.correct_head_label as nat,
            total: self.total as nat,
        }
    }
}

/// The first fault of two token sequences, as `fault` defines it.
fn find_fault(gold: &Vec<&Token>, pred: &Vec<&Token>) -> (found: Option<ScoreError>)
    ensures
        found == fault(
            gold@.map_values(|t: &Token| t@),
            pred@.map_values(|t: &Token| t@),
        ),
{
    let ghost g = gold@.map_values(|t: &Token| t@);
    let ghost p = pred@.map_values(|t: &Token| t@);
    if gold.len() != pred.len() {
        return Some(ScoreError::AlignmentMismatch);
    }
    let n = gold.len();
    let mut k: usize = 0;
    while k < n
        invariant
            k <= n,
            n == gold@.len(),
            n == pred@.len(),
            g == gold@.map_values(|t: &Token| t@),
            p == pred@.map_values(|t: &Token| t@),
            forall|i: int| 0 <= i < k ==> (#[trigger] g[i]).form == p[i].form,
        decreases n - k,
    {
        if gold[k].form != pred[k].form {
            assert(g[k as int].form != p[k as int].form);
            return Some(ScoreError::AlignmentMismatch);
        }
        k += 1;
    }
    let mut k: usize = 0;
    while k < n
        invariant
            k <= n,
            n == gold@.len(),
            n == pred@.len(),
            g == gold@.map_values(|t: &Token| t@),
            p == pred@.map_values(|t: &Token| t@),
            aligned(g, p),
            forall|i: int| 0 <= i < k ==> (#[trigger] g[i]).head is Some,
            forall|i: int| 0 <= i < k ==> (#[trigger] p[i]).head is Some,
        decreases n - k,
    {
        if gold[k].head.is_none() || pred[k].head.is_none() {
            assert(g[k as int].head is None || p[k as int].head is None);
            return Some(ScoreError::MissingHead);
        }
        k += 1;
    }
    None
}

/// Whether the tokens that a run over two corpora would compare can be
/// counted: whether `score` can be called on them.
pub fn countable(gold: &Vec<Sentence>, pred: &Vec<Sentence>) -> (countable: bool)
    ensures
        countable == (token_count(corpus(gold@), shorter(gold@.len(), pred@.len()))
            <= usize::MAX),
{
    let n = if gold.len() <= pred.len() {
        gold.len()
    } else {
        pred.len()
    };
    let ghost g = corpus(gold@);
    let mut count: usize = 0;
    let mut k: usize = 0;
    while k < n
        invariant
            k <= n,
            n == shorter(gold@.len(), pred@.len()),
            g == corpus(gold@),
            count == token_count(g, k as nat),
        decreases n - k,
    {
        let tokens = gold[k].tokens().len();
        if tokens > usize::MAX - count {
            proof {
                lemma_token_count_grows(g, (k + 1) as nat, n as nat);
            }
            return false;
        }
        count = count + tokens;
        k += 1;
    }
    true
}

/// Compares two corpora sentence by sentence, in lock-step, as far as the
/// shorter one reaches. The first pair of sentences that cannot be compared
/// ends the run with its fault.
pub fn score(gold: &Vec<Sentence>, pred: &Vec<Sentence>) -> (result: Result<Scorer, ScoreError>)
    requires
        token_count(corpus(gold@), shorter(gold@.len(), pred@.len())) <= usize::MAX,
    ensures
        match fresh().run(corpus(gold@), corpus(pred@), shorter(gold@.len(), pred@.len())) {
            Ok(state) => result matches Ok(scorer) && scorer.wf() && scorer@ == state,
            Err(fault) => result matches Err(found) && found == fault,
        },
{
    let n = if gold.len() <= pred.len() {
        gold.len()
    } else {
        pred.len()
    };
    let ghost g = corpus(gold@);
    let ghost p = corpus(pred@);
    let mut scorer = Scorer::new();
    let mut k: usize = 0;
    while k < n
        invariant
            k <= n,
            n == shorter(gold@.len(), pred@.len()),
            g == corpus(gold@),
            p == corpus(pred@),
            token_count(g, n as nat) <= usize::MAX,
            scorer.wf(),
            scorer@.total == token_count(g, k as nat),
            fresh().run(g, p, k as nat) == Ok::<ScoreView, ScoreError>(scorer@),
        decreases n - k,
    {
        proof {
            lemma_token_count_grows(g, (k + 1) as nat, n as nat);
        }
        match scorer.score_sentence(&gold[k], &pred[k]) {
            Ok(()) => {},
            Err(fault) => {
                proof {
                    lemma_run_stays_failed(fresh(), g, p, (k + 1) as nat, n as nat);
                }
                return Err(fault);
            },
        }
        k += 1;
    }
    Ok(scorer)
}

/// Once a run has met a fault, it ends with that fault however far it is
/// taken.
pub proof fn lemma_run_stays_failed(
    start: ScoreView,
    gold: Seq<Seq<TokenView>>,
    pred: Seq<Seq<TokenView>>,
    k: nat,
    n: nat,
)
    requires
        k <= n,
        start.run(gold, pred, k) is Err,
    ensures
        start.run(gold, pred, n) == start.run(gold, pred, k),
    decreases n - k,
{
    if k < n {
        lemma_run_stays_failed(start, gold, pred, k, (n - 1) as nat);
    }
}

impl Scorer {
    /// Whether the parts of the run are each in order.
    pub closed spec fn sound(&self) -> bool {
        &&& self.deprel_confusion.wf()
        &&& self.distance_confusion.wf()
    }

    /// The counters and matrices agree with each other.
    pub open spec fn wf(&self) -> bool {
        &&& self@.wf()
        &&& self.sound()
    }

    /// A run in which nothing has been compared yet.
    pub fn new() -> (scorer: Self)
        ensures
            scorer.wf(),
            scorer@ == fresh(),
    {
        let scorer = Scorer {
            deprel_confusion: Confusion::new("Deprels"),
            distance_confusion: Confusion::new("Dists"),
            correct_head: 0,
            correct_head_label: 0,
            total: 0,
        };
        scorer
    }

    /// Compares one token, at position `idx` of its sentence, by its gold
    /// and its predicted governor and label.
    pub fn observe(&mut self, gold: &Head, pred: &Head, idx: usize)
        requires
            old(self).wf(),
            old(self)@.total < usize::MAX,
        ensures
            final(self).wf(),
            final(self)@ == old(self)@.observed(
                (gold.index, gold.relation@),
                (pred.index, pred.relation@),
                idx,
            ),
    {
        let gold_dist = distance(gold.index, idx);
        let pred_dist = distance(pred.index, idx);
        self.distance_confusion.insert(gold_dist, pred_dist);
        self.deprel_confusion.insert(gold.relation.clone(), pred.relation.clone());
        let same_head = pred.index == gold.index;
        let same_label = pred.relation == gold.relation;
        if same_head {
            self.correct_head = self.correct_head + 1;
        }
        if same_head && same_label {
            self.correct_head_label = self.correct_head_label + 1;
        }
        self.total = self.total + 1;
    }

    /// Compares a gold-standard sentence with the predicted one, token by
    /// token. Where they cannot be compared, nothing is counted.
    pub fn score_sentence(&mut self, gold: &Sentence, pred: &Sentence) -> (result: Result<
        (),
        ScoreError,
    >)
        requires
            old(self).wf(),
            old(self)@.total + gold@.len() <= usize::MAX,
        ensures
            final(self).wf(),
            match fault(gold@, pred@) {
                Some(fault) => result == Err::<(), ScoreError>(fault) && final(self)@ == old(
                    self,
                )@,
                None => result is Ok && final(self)@ == old(self)@.scored(gold@, pred@),
            },
            result is Ok ==> final(self)@.total == old(self)@.total + gold@.len(),
    {
        let gold_tokens = gold.tokens();
        let pred_tokens = pred.tokens();
        assert(gold_tokens@.map_values(|t: &Token| t@) =~= gold@);
        assert(pred_tokens@.map_values(|t: &Token| t@) =~= pred@);
        if let Some(fault) = find_fault(&gold_tokens, &pred_tokens) {
            return Err(fault);
        }
        let n = gold_tokens.len();
        let mut k: usize = 0;
        while k < n
            invariant
                k <= n,
                n == gold@.len(),
                n == pred@.len(),
                gold_tokens@.len() == n,
                pred_tokens@.len() == n,
                forall|i: int| 0 <= i < n ==> (#[trigger] gold_tokens@[i])@ == gold@[i],
                forall|i: int| 0 <= i < n ==> (#[trigger] pred_tokens@[i])@ == pred@[i],
                attached(gold@),
                attached(pred@),
                self.wf(),
                old(self)@.total + n <= usize::MAX,
                self@.total == old(self)@.total + k,
                self@ == old(self)@.scored_prefix(gold@, pred@, k as nat),
            decreases n - k,
        {
            let gold_token = gold_tokens[k];
            let pred_token = pred_tokens[k];
            if let Some(gold_head) = &gold_token.head {
                if let Some(pred_head) = &pred_token.head {
                    self.observe(gold_head, pred_head, k + 1);
                }
            }
            k += 1;
        }
        Ok(())
    }

    /// The number of tokens compared.
    pub fn total(&self) -> (n: usize)
        ensures
            n == self@.total,
    {
        self.total
    }

    /// The number of tokens whose predicted governor is the gold one.
    pub fn correct_head(&self) -> (n: usize)
        ensures
            n == self@.correct_head,
    {
        self.correct_head
    }

    /// The number of tokens whose predicted governor and label are the
    /// gold ones.
    pub fn correct_head_label(&self) -> (n: usize)
        ensures
            n == self@.correct_head_label,
    {
        self.correct_head_label
    }

    /// The confusion matrix of relation labels.
    pub fn deprel_confusion(&self) -> (confusion: &Confusion<String>)
        requires
            self.wf(),
        ensures
            confusion.wf(),
            confusion@ == self@.deprels,
    {
        &self.deprel_confusion
    }

    /// The confusion matrix of head distances.
    pub fn distance_confusion(&self) -> (confusion: &Confusion<usize>)
        requires
            self.wf(),
        ensures
            confusion.wf(),
            confusion@ == self@.distances,
    {
        &self.distance_confusion
    }
}

} // verus!
