//! What a confusion matrix is written out as: the rendered matrix, the
//! table of accuracies, and the compact form.

use crate::class::{decimal, decimal_text, Class};
use crate::confusion::{Confusion, ConfusionView};
use crate::grid::{column, correct, lemma_sum_bounds_element, sum, total};
use crate::table::{
    empty_line, join, joined, line_view, push_cell, texts, Cell, CellView, Ratio, Table,
};
use vstd::prelude::*;
use vstd::string::StringExecFns;

verus! {

/// The names of the classes, in numbering order.
pub open spec fn class_names<V: Class>(classes: Seq<V::V>) -> Seq<Seq<char>> {
    classes.map_values(|c: V::V| V::name_of(c))
}

/// The accuracy of class `i`: of the observations whose gold class it is,
/// those whose predicted class it is too.
pub open spec fn accuracy_of<K>(m: ConfusionView<K>, i: int) -> CellView {
    CellView::Ratio(m.cells[i][i], sum(m.cells[i]))
}

/// The precision of class `i`: of the observations whose predicted class
/// it is, those whose gold class it is too.
pub open spec fn precision_of<K>(m: ConfusionView<K>, i: int) -> CellView {
    CellView::Ratio(m.cells[i][i], sum(column(m.cells, i)))
}

/// The line of class `i` in the table of accuracies: its name, how often
/// it was the gold class, and its accuracy.
pub open spec fn accuracy_line<V: Class>(m: ConfusionView<V::V>, i: int) -> Seq<CellView> {
    seq![
        CellView::Text(V::name_of(m.classes[i])),
        CellView::Count(sum(m.cells[i])),
        accuracy_of(m, i),
    ]
}

/// The table of accuracies: one line for each class, in numbering order.
pub open spec fn accuracy_lines<V: Class>(m: ConfusionView<V::V>) -> Seq<Seq<CellView>> {
    Seq::new(m.classes.len(), |i: int| accuracy_line::<V>(m, i))
}

/// The first line of a rendered matrix: its name, then the names of the
/// classes; a matrix without classes has one empty cell in their place.
pub open spec fn header_line<V: Class>(m: ConfusionView<V::V>) -> Seq<CellView> {
    if m.classes.len() == 0 {
        seq![CellView::Text(m.name), CellView::Text(Seq::empty())]
    } else {
        seq![CellView::Text(m.name)] + class_names::<V>(m.classes).map_values(
            |name: Seq<char>| CellView::Text(name),
        )
    }
}

/// The line of gold class `i` in a rendered matrix: its name, its counts
/// by predicted class, and its accuracy.
pub open spec fn class_line<V: Class>(m: ConfusionView<V::V>, i: int) -> Seq<CellView> {
    seq![CellView::Text(V::name_of(m.classes[i]))] + m.cells[i].map_values(
        |n: nat| CellView::Count(n),
    ) + seq![accuracy_of(m, i)]
}

/// The placeholder under each column of a rendered matrix.
pub open spec fn rule() -> Seq<char> {
    seq!['_', '_', '_', '_']
}

/// The line that divides the counts from the precisions: an empty cell,
/// then one placeholder for each class.
pub open spec fn rule_line(n: nat) -> Seq<CellView> {
    seq![CellView::Text(Seq::empty())] + Seq::new(n, |i: int| CellView::Text(rule()))
}

/// The line of precisions: an empty cell, then the precision of each
/// class.
pub open spec fn precision_line<K>(m: ConfusionView<K>) -> Seq<CellView> {
    seq![CellView::Text(Seq::empty())] + Seq::new(m.classes.len(), |i: int| precision_of(m, i))
}

/// The label of the overall accuracy.
pub open spec fn accuracy_label() -> Seq<char> {
    seq!['a', 'c', 'c']
}

/// The last line of a rendered matrix: of all observations, those whose
/// predicted class is the gold one.
pub open spec fn overall_line<K>(m: ConfusionView<K>) -> Seq<CellView> {
    seq![CellView::Labeled(accuracy_label(), correct(m.cells), total(m.cells))]
}

/// A rendered matrix: the header, one line for each gold class, the
/// dividing line, the precisions and the overall accuracy.
pub open spec fn rendered<V: Class>(m: ConfusionView<V::V>) -> Seq<Seq<CellView>> {
    seq![header_line::<V>(m)] + Seq::new(m.classes.len(), |i: int| class_line::<V>(m, i)) + seq![
        rule_line(m.classes.len()),
        precision_line(m),
        overall_line(m),
    ]
}

/// The decimal numerals of a row of counts.
pub open spec fn numerals(row: Seq<nat>) -> Seq<Seq<char>> {
    row.map_values(|n: nat| decimal(n))
}

/// The first `n` rows of counts, each written as its numerals joined by
/// the separator and ended by a line feed.
pub open spec fn count_lines(cells: Seq<Seq<nat>>, sep: Seq<char>, n: nat) -> Seq<char>
    decreases n,
{
    if n == 0 {
        Seq::empty()
    } else {
        count_lines(cells, sep, (n - 1) as nat) + joined(numerals(cells[n - 1]), sep) + seq!['\n']
    }
}

/// The compact form of a matrix: a line of the class names, then one line
/// of counts for each gold class, each joined by the separator.
pub open spec fn compact<V: Class>(m: ConfusionView<V::V>, sep: Seq<char>) -> Seq<char> {
    joined(class_names::<V>(m.classes), sep) + seq!['\n'] + count_lines(
        m.cells,
        sep,
        m.cells.len(),
    )
}

impl<V: Class> Confusion<V> {
    /// The names of the classes, in numbering order.
    pub fn class_names(&self) -> (names: Vec<String>)
        requires
            self.wf(),
        ensures
            texts(names@) == class_names::<V>(self@.classes),
    {
        let numberer = self.numberer();
        let n = numberer.len();
        let mut names: Vec<String> = Vec::new();
        let mut i: usize = 0;
        while i < n
            invariant
                i <= n,
                n == numberer@.len(),
                numberer@ == self@.classes,
                names@.len() == i,
                forall|k: int| 0 <= k < i ==> (#[trigger] names@[k])@ == V::name_of(numberer@[k]),
            decreases n - i,
        {
            if let Some(val) = numberer.get_val(i) {
                names.push(val.name());
            }
            i += 1;
        }
        names
    }

    /// The accuracy of the class with the number `i`.
    pub fn accuracy(&self, i: usize) -> (ratio: Ratio)
        requires
            self.wf(),
            i < self@.classes.len(),
        ensures
            Cell::Ratio(ratio)@ == accuracy_of(self@, i as int),
            ratio.numerator <= ratio.denominator,
    {
        let counts = self.counts();
        proof {
            lemma_sum_bounds_element(counts@[i as int], i as int);
        }
        Ratio { numerator: counts.get(i, i), denominator: counts.row_total(i) }
    }

    /// The precision of the class with the number `i`.
    pub fn precision(&self, i: usize) -> (ratio: Ratio)
        requires
            self.wf(),
            i < self@.classes.len(),
        ensures
            Cell::Ratio(ratio)@ == precision_of(self@, i as int),
            ratio.numerator <= ratio.denominator,
    {
        let counts = self.counts();
        proof {
            lemma_sum_bounds_element(column(counts@, i as int), i as int);
        }
        Ratio { numerator: counts.get(i, i), denominator: counts.column_total(i) }
    }

    /// The overall accuracy: of all observations, those whose predicted
    /// class is the gold one. It lies between zero and one wherever there
    /// is an observation.
    pub fn overall_accuracy(&self) -> (ratio: Ratio)
        requires
            self.wf(),
        ensures
            ratio.numerator == correct(self@.cells),
            ratio.denominator == total(self@.cells),
            ratio.numerator <= ratio.denominator,
    {
        let counts = self.counts();
        Ratio { numerator: counts.correct(), denominator: counts.total() }
    }

    /// Writes the table of accuracies: for each class, in numbering order,
    /// a line with its name, how often it was the gold class, and its
    /// accuracy.
    pub fn write_accuracies(&self, w: &mut Table)
        requires
            self.wf(),
        ensures
            final(w)@ == old(w)@ + accuracy_lines::<V>(self@),
    {
        let names = self.class_names();
        let counts = self.counts();
        let n = counts.dim();
        let mut i: usize = 0;
        while i < n
            invariant
                i <= n,
                self.wf(),
                n == self@.classes.len(),
                counts@ == self@.cells,
                counts.wf(),
                texts(names@) == class_names::<V>(self@.classes),
                w@ == old(w)@ + accuracy_lines::<V>(self@).subrange(0, i as int),
            decreases n - i,
        {
            assert(names@.len() == texts(names@).len());
            assert(texts(names@)[i as int] == names@[i as int]@);
            let mut line = empty_line();
            push_cell(&mut line, Cell::Text(names[i].clone()));
            push_cell(&mut line, Cell::Count(counts.row_total(i)));
            push_cell(&mut line, Cell::Ratio(self.accuracy(i)));
            assert(line_view(line@) =~= accuracy_line::<V>(self@, i as int));
            w.push(line);
            i += 1;
        }
    }

    /// The first line of the rendered matrix.
    fn header(&self) -> (line: Vec<Cell>)
        requires
            self.wf(),
        ensures
            line_view(line@) == header_line::<V>(self@),
    {
        let names = self.class_names();
        let n = names.len();
        let mut line = empty_line();
        push_cell(&mut line, Cell::Text(self.name().to_owned()));
        if n == 0 {
            push_cell(&mut line, Cell::Text(String::new()));
            return line;
        }
        let ghost wanted = class_names::<V>(self@.classes).map_values(
            |name: Seq<char>| CellView::Text(name),
        );
        let mut i: usize = 0;
        while i < n
            invariant
                i <= n,
                n == names@.len(),
                n == self@.classes.len(),
                texts(names@) == class_names::<V>(self@.classes),
                wanted == class_names::<V>(self@.classes).map_values(
                    |name: Seq<char>| CellView::Text(name),
                ),
                line_view(line@) == seq![CellView::Text(self@.name)] + wanted.subrange(0, i as int),
            decreases n - i,
        {
            push_cell(&mut line, Cell::Text(names[i].clone()));
            assert(line_view(line@) =~= seq![CellView::Text(self@.name)] + wanted.subrange(
                0,
                i + 1,
            ));
            i += 1;
        }
        line
    }

    /// The line of the gold class with the number `i` in the rendered
    /// matrix.
    fn class_row(&self, name: String, i: usize) -> (line: Vec<Cell>)
        requires
            self.wf(),
            i < self@.classes.len(),
            name@ == V::name_of(self@.classes[i as int]),
        ensures
            line_view(line@) == class_line::<V>(self@, i as int),
    {
        let counts = self.counts();
        let n = counts.dim();
        let ghost row = self@.cells[i as int].map_values(|n: nat| CellView::Count(n));
        let ghost first = seq![CellView::Text(name@)];
        let mut line = empty_line();
        push_cell(&mut line, Cell::Text(name));
        let mut j: usize = 0;
        while j < n
            invariant
                j <= n,
                self.wf(),
                i < n,
                n == self@.classes.len(),
                counts@ == self@.cells,
                counts.wf(),
                row == self@.cells[i as int].map_values(|n: nat| CellView::Count(n)),
                line_view(line@) == first + row.subrange(0, j as int),
            decreases n - j,
        {
            push_cell(&mut line, Cell::Count(counts.get(i, j)));
            j += 1;
        }
        push_cell(&mut line, Cell::Ratio(self.accuracy(i)));
        line
    }

    /// The dividing line and the line of precisions of the rendered matrix.
    fn footer(&self) -> (lines: (Vec<Cell>, Vec<Cell>))
        requires
            self.wf(),
        ensures
            line_view(lines.0@) == rule_line(self@.classes.len()),
            line_view(lines.1@) == precision_line(self@),
    {
        let n = self.counts().dim();
        let ghost rules = Seq::new(n as nat, |i: int| CellView::Text(rule()));
        let ghost precisions = Seq::new(n as nat, |i: int| precision_of(self@, i));
        let ghost first = seq![CellView::Text(Seq::empty())];
        let mut delim = empty_line();
        let mut precs = empty_line();
        push_cell(&mut delim, Cell::Text(String::new()));
        push_cell(&mut precs, Cell::Text(String::new()));
        let mut i: usize = 0;
        while i < n
            invariant
                i <= n,
                self.wf(),
                n == self@.classes.len(),
                rules == Seq::new(n as nat, |i: int| CellView::Text(rule())),
                precisions == Seq::new(n as nat, |i: int| precision_of(self@, i)),
                first == seq![CellView::Text(Seq::empty())],
                line_view(delim@) == first + rules.subrange(0, i as int),
                line_view(precs@) == first + precisions.subrange(0, i as int),
            decreases n - i,
        {
            proof {
                reveal_strlit("____");
            }
            let mark = String::from_str("____");
            assert(mark@ =~= rule());
            push_cell(&mut precs, Cell::Ratio(self.precision(i)));
            push_cell(&mut delim, Cell::Text(mark));
            i += 1;
        }
        (delim, precs)
    }

    /// Renders the matrix: a header with the name of the matrix and the
    /// names of the classes; for each gold class its name, its counts and
    /// its accuracy; a dividing line; the precision of each class; and the
    /// overall accuracy.
    pub fn render(&self) -> (table: Table)
        requires
            self.wf(),
        ensures
            table@ == rendered::<V>(self@),
    {
        let names = self.class_names();
        let n = names.len();
        let mut table = Table::new();
        table.push(self.header());
        let ghost rows = Seq::new(n as nat, |i: int| class_line::<V>(self@, i));
        let ghost first = seq![header_line::<V>(self@)];
        let mut i: usize = 0;
        while i < n
            invariant
                i <= n,
                self.wf(),
                n == names@.len(),
                n == self@.classes.len(),
                texts(names@) == class_names::<V>(self@.classes),
                rows == Seq::new(n as nat, |i: int| class_line::<V>(self@, i)),
                first == seq![header_line::<V>(self@)],
                table@ == first + rows.subrange(0, i as int),
            decreases n - i,
        {
            assert(texts(names@)[i as int] == names@[i as int]@);
            table.push(self.class_row(names[i].clone(), i));
            i += 1;
        }
        let (delim, precs) = self.footer();
        table.push(delim);
        table.push(precs);
        proof {
            reveal_strlit("acc");
        }
        let label = String::from_str("acc");
        assert(label@ =~= accuracy_label());
        let mut last = empty_line();
        push_cell(&mut last, Cell::Labeled(label, self.overall_accuracy()));
        table.push(last);
        table
    }

    /// Writes the matrix in its compact form: a line of the class names,
    /// then one line of counts for each gold class, each joined by `sep`.
    pub fn write_to_file(&self, w: &mut String, sep: &str)
        requires
            self.wf(),
        ensures
            final(w)@ == old(w)@ + compact::<V>(self@, sep@),
    {
        proof {
            reveal_strlit("\n");
        }
        let names = self.class_names();
        let counts = self.counts();
        let n = counts.dim();
        w.append(join(&names, sep).as_str());
        w.append("\n");
        let ghost head = old(w)@ + joined(class_names::<V>(self@.classes), sep@) + seq!['\n'];
        let mut i: usize = 0;
        while i < n
            invariant
                i <= n,
                self.wf(),
                n == self@.cells.len(),
                counts@ == self@.cells,
                counts.wf(),
                "\n"@ == seq!['\n'],
                w@ == head + count_lines(self@.cells, sep@, i as nat),
            decreases n - i,
        {
            let mut row: Vec<String> = Vec::new();
            let mut j: usize = 0;
            while j < n
                invariant
                    j <= n,
                    i < n,
                    n == counts@.len(),
                    counts.wf(),
                    row@.len() == j,
                    forall|k: int|
                        0 <= k < j ==> (#[trigger] row@[k])@ == decimal(counts@[i as int][k]),
                decreases n - j,
            {
                row.push(decimal_text(counts.get(i, j)));
                j += 1;
            }
            assert(texts(row@) =~= numerals(counts@[i as int]));
            w.append(join(&row, sep).as_str());
            w.append("\n");
            i += 1;
        }
    }
}

} // verus!
