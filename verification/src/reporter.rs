//! What a scoring run reports: the two attachment scores, and the tables
//! that were asked for.

use crate::render::{accuracy_lines, rendered};
use crate::score::{ScoreView, Scorer};
use crate::table::{empty_line, line_view, push_cell, Cell, CellView, Ratio, Table};
use vstd::prelude::*;
use vstd::string::StringExecFns;

verus! {

/// The label of the unlabeled attachment score.
pub open spec fn uas_label() -> Seq<char> {
    seq!['U', 'A', 'S']
}

/// The label of the labeled attachment score.
pub open spec fn las_label() -> Seq<char> {
    seq!['L', 'A', 'S']
}

impl Scorer {
    /// The unlabeled attachment score: of the tokens compared, those whose
    /// predicted governor is the gold one.
    pub fn uas(&self) -> (ratio: Ratio)
        requires
            self.wf(),
        ensures
            ratio.numerator == self@.correct_head,
            ratio.denominator == self@.total,
            ratio.numerator <= ratio.denominator,
    {
        Ratio { numerator: self.correct_head(), denominator: self.total() }
    }

    /// The labeled attachment score: of the tokens compared, those whose
    /// predicted governor and label are the gold ones. It never exceeds
    /// the unlabeled score.
    pub fn las(&self) -> (ratio: Ratio)
        requires
            self.wf(),
        ensures
            ratio.numerator == self@.correct_head_label,
            ratio.denominator == self@.total,
            ratio.numerator <= self@.correct_head,
            ratio.numerator <= ratio.denominator,
    {
        Ratio { numerator: self.correct_head_label(), denominator: self.total() }
    }

    /// Writes the two scores, each on a line of its own under its label.
    pub fn write_scores(&self, w: &mut Table)
        requires
            self.wf(),
        ensures
            final(w)@ == old(w)@ + seq![
                seq![CellView::Labeled(uas_label(), self@.correct_head, self@.total)],
                seq![CellView::Labeled(las_label(), self@.correct_head_label, self@.total)],
            ],
    {
        proof {
            reveal_strlit("UAS");
            reveal_strlit("LAS");
        }
        let uas_text = String::from_str("UAS");
        let las_text = String::from_str("LAS");
        assert(uas_text@ =~= uas_label());
        assert(las_text@ =~= las_label());
        let mut first = empty_line();
        push_cell(&mut first, Cell::Labeled(uas_text, self.uas()));
        let mut second = empty_line();
        push_cell(&mut second, Cell::Labeled(las_text, self.las()));
        assert(line_view(first@) =~= seq![
            CellView::Labeled(uas_label(), self@.correct_head, self@.total),
        ]);
        assert(line_view(second@) =~= seq![
            CellView::Labeled(las_label(), self@.correct_head_label, self@.total),
        ]);
        w.push(first);
        w.push(second);
        assert(w@ =~= old(w)@ + seq![
            seq![CellView::Labeled(uas_label(), self@.correct_head, self@.total)],
            seq![CellView::Labeled(las_label(), self@.correct_head_label, self@.total)],
        ]);
    }
}

/// Where the optional reports of a run go. A report without a destination
/// is not made.
#[derive(Debug)]
pub struct Destinations {
    /// For the confusion matrix of relation labels.
    pub deprel_confusion: Option<String>,
    /// For the accuracy of each relation label.
    pub deprel_accuracies: Option<String>,
    /// For the confusion matrix of head distances.
    pub distance_confusion: Option<String>,
    /// For the accuracy of each head distance.
    pub distance_accuracies: Option<String>,
}

/// A report and where it goes.
#[derive(Debug)]
pub struct Report {
    pub destination: String,
    pub table: Table,
}

/// What a report holds.
pub struct ReportView {
    pub destination: Seq<char>,
    pub table: Seq<Seq<CellView>>,
}

impl View for Report {
    type V = ReportView;

    open spec fn view(&self) -> ReportView {
        ReportView { destination: self.destination@, table: self.table@ }
    }
}

/// The reports of a list.
pub open spec fn report_views(reports: Seq<Report>) -> Seq<ReportView> {
    reports.map_values(|r: Report| r@)
}

/// The report `table` if it has a destination, and nothing if it has
/// none.
pub open spec fn requested(
    destination: Option<String>,
    table: Seq<Seq<CellView>>,
) -> Seq<ReportView> {
    match destination {
        Some(destination) => seq![ReportView { destination: destination@, table }],
        None => Seq::empty(),
    }
}

/// The reports of a run that have a destination: the rendered matrix of
/// relation labels, the accuracies of the relation labels, the rendered
/// matrix of head distances and the accuracies of the head distances, in
/// this order.
pub open spec fn reports_of(s: ScoreView, to: Destinations) -> Seq<ReportView> {
    requested(to.deprel_confusion, rendered::<String>(s.deprels)) + requested(
        to.deprel_accuracies,
        accuracy_lines::<String>(s.deprels),
    ) + requested(to.distance_confusion, rendered::<usize>(s.distances)) + requested(
        to.distance_accuracies,
        accuracy_lines::<usize>(s.distances),
    )
}

/// Adds `table` to the reports if it has a destination.
fn push_requested(reports: &mut Vec<Report>, destination: &Option<String>, table: Table)
    ensures
        report_views(final(reports)@) == report_views(old(reports)@) + requested(
            *destination,
            table@,
        ),
{
    if let Some(destination) = destination {
        reports.push(Report { destination: destination.clone(), table });
    }
    assert(report_views(reports@) =~= report_views(old(reports)@) + requested(
        *destination,
        table@,
    ));
}

impl Scorer {
    /// The reports of the run that have a destination, each with its
    /// destination.
    pub fn reports(&self, to: &Destinations) -> (reports: Vec<Report>)
        requires
            self.wf(),
        ensures
            report_views(reports@) == reports_of(self@, *to),
    {
        let deprels = self.deprel_confusion();
        let distances = self.distance_confusion();
        let mut deprel_accuracies = Table::new();
        deprels.write_accuracies(&mut deprel_accuracies);
        let mut distance_accuracies = Table::new();
        distances.write_accuracies(&mut distance_accuracies);
        let mut reports: Vec<Report> = Vec::new();
        assert(report_views(reports@) =~= Seq::<ReportView>::empty());
        push_requested(&mut reports, &to.deprel_confusion, deprels.render());
        push_requested(&mut reports, &to.deprel_accuracies, deprel_accuracies);
        push_requested(&mut reports, &to.distance_confusion, distances.render());
        push_requested(&mut reports, &to.distance_accuracies, distance_accuracies);
        reports
    }
}

} // verus!
