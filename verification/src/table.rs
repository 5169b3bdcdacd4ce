//! Report tables and their text. Ratios are kept exact, as a pair of
//! counts; turning one into a decimal fraction takes floating point and is
//! left to whoever writes the table out.

use crate::class::{decimal, decimal_text};
use itertools::Itertools;
use vstd::prelude::*;
use vstd::string::StringExecFns;

verus! {

/// A ratio of two counts. With a denominator of zero it has no value.
#[derive(Clone, Copy, Debug, PartialEq, Eq, Structural)]
pub struct Ratio {
    pub numerator: usize,
    pub denominator: usize,
}

impl Ratio {
    /// Whether the ratio has a value.
    pub open spec fn defined(self) -> bool {
        self.denominator != 0
    }

    /// Whether the ratio has a value.
    pub fn is_defined(&self) -> (defined: bool)
        ensures
            defined == self.defined(),
    {
        self.denominator != 0
    }
}

/// One cell of a report line.
#[derive(Debug, PartialEq, Eq)]
pub enum Cell {
    /// A text, written as it is.
    Text(String),
    /// A count, written as a decimal numeral.
    Count(usize),
    /// A ratio, written as a decimal fraction.
    Ratio(Ratio),
    /// A ratio under a label, written as the label, a colon, a space and
    /// the decimal fraction.
    Labeled(String, Ratio),
}

/// What a cell holds.
pub enum CellView {
    Text(Seq<char>),
    Count(nat),
    Ratio(nat, nat),
    Labeled(Seq<char>, nat, nat),
}

impl View for Cell {
    type V = CellView;

    open spec fn view(&self) -> CellView {
        match self {
            Cell::Text(text) => CellView::Text(text@),
            Cell::Count(n) => CellView::Count(*n as nat),
            Cell::Ratio(ratio) => CellView::Ratio(
                ratio.numerator as nat,
                ratio.denominator as nat,
            ),
            Cell::Labeled(label, ratio) => CellView::Labeled(
                label@,
                ratio.numerator as nat,
                ratio.denominator as nat,
            ),
        }
    }
}

/// What a line of cells holds.
pub open spec fn line_view(line: Seq<Cell>) -> Seq<CellView> {
    line.map_values(|c: Cell| c@)
}

/// Adds a cell at the end of a line.
pub(crate) fn push_cell(line: &mut Vec<Cell>, cell: Cell)
    ensures
        line_view(final(line)@) == line_view(old(line)@).push(cell@),
{
    line.push(cell);
}

/// A line without cells.
pub(crate) fn empty_line() -> (line: Vec<Cell>)
    ensures
        line_view(line@) == Seq::<CellView>::empty(),
{
    let line: Vec<Cell> = Vec::new();
    line
}

/// A report: lines of cells.
#[derive(Debug)]
pub struct Table {
    pub lines: Vec<Vec<Cell>>,
}

impl View for Table {
    type V = Seq<Seq<CellView>>;

    open spec fn view(&self) -> Seq<Seq<CellView>> {
        self.lines@.map_values(|line: Vec<Cell>| line_view(line@))
    }
}

impl Table {
    /// A report without lines.
    pub fn new() -> (table: Self)
        ensures
            table@ == Seq::<Seq<CellView>>::empty(),
    {
        let table = Table { lines: Vec::new() };
        table
    }

    /// Adds a line at the end.
    pub fn push(&mut self, line: Vec<Cell>)
        ensures
            final(self)@ == old(self)@.push(line_view(line@)),
    {
        self.lines.push(line);
    }
}

/// The text of a cell. A ratio is written as `fraction`, which is the
/// caller's rendering of it.
pub open spec fn cell_text(cell: CellView, fraction: Seq<char>) -> Seq<char> {
    match cell {
        CellView::Text(text) => text,
        CellView::Count(n) => decimal(n),
        CellView::Ratio(_, _) => fraction,
        CellView::Labeled(label, _, _) => label + seq![':', ' '] + fraction,
    }
}

/// The texts of the cells of a line, where `fractions[j]` is the rendering
/// of the ratio in cell `j`, if that cell holds one.
pub open spec fn cell_texts(line: Seq<CellView>, fractions: Seq<Seq<char>>) -> Seq<Seq<char>> {
    Seq::new(line.len(), |j: int| cell_text(line[j], fractions[j]))
}

/// The text of a line: its cells separated by tabs, ended by a line feed.
pub open spec fn line_text(line: Seq<CellView>, fractions: Seq<Seq<char>>) -> Seq<char> {
    joined(cell_texts(line, fractions), seq!['\t']) + seq!['\n']
}

/// The text of the first `n` lines of a table.
pub open spec fn lines_text(
    lines: Seq<Seq<CellView>>,
    fractions: Seq<Seq<Seq<char>>>,
    n: nat,
) -> Seq<char>
    decreases n,
{
    if n == 0 {
        Seq::empty()
    } else {
        lines_text(lines, fractions, (n - 1) as nat) + line_text(lines[n - 1], fractions[n - 1])
    }
}

/// Whether there is one rendering for each cell of each line.
pub open spec fn same_shape(lines: Seq<Seq<CellView>>, fractions: Seq<Seq<Seq<char>>>) -> bool {
    &&& fractions.len() == lines.len()
    &&& forall|i: int| 0 <= i < lines.len() ==> (#[trigger] fractions[i]).len() == lines[i].len()
}

/// The texts that lines of strings hold.
pub open spec fn line_texts(lines: Seq<Vec<String>>) -> Seq<Seq<Seq<char>>> {
    lines.map_values(|line: Vec<String>| texts(line@))
}

impl Table {
    /// Whether `fractions` has one entry for each cell of the table.
    pub fn fits(&self, fractions: &Vec<Vec<String>>) -> (fits: bool)
        ensures
            fits == same_shape(self@, line_texts(fractions@)),
    {
        if fractions.len() != self.lines.len() {
            return false;
        }
        let n = self.lines.len();
        let mut i: usize = 0;
        while i < n
            invariant
                i <= n,
                n == self.lines@.len(),
                n == fractions@.len(),
                forall|k: int|
                    0 <= k < i ==> (#[trigger] line_texts(fractions@)[k]).len() == self@[k].len(),
            decreases n - i,
        {
            if fractions[i].len() != self.lines[i].len() {
                assert(line_texts(fractions@)[i as int].len() != self@[i as int].len());
                return false;
            }
            i += 1;
        }
        true
    }

    /// Writes the table as text: the cells of a line separated by tabs,
    /// each line ended by a line feed. A count is written as a decimal
    /// numeral. A ratio is written as the caller renders it:
    /// `fractions[i][j]` stands for the ratio in cell `j` of line `i`; the
    /// entries for other cells are not read.
    pub fn write_text(&self, w: &mut String, fractions: &Vec<Vec<String>>)
        requires
            same_shape(self@, line_texts(fractions@)),
        ensures
            final(w)@ == old(w)@ + lines_text(self@, line_texts(fractions@), self@.len()),
    {
        proof {
            reveal_strlit("\n");
            reveal_strlit("\t");
            reveal_strlit(": ");
        }
        let ghost lines = self@;
        let ghost given = line_texts(fractions@);
        let n = self.lines.len();
        let mut i: usize = 0;
        while i < n
            invariant
                i <= n,
                n == self.lines@.len(),
                lines == self@,
                given == line_texts(fractions@),
                same_shape(lines, given),
                "\n"@ == seq!['\n'],
                "\t"@ == seq!['\t'],
                ": "@ == seq![':', ' '],
                w@ == old(w)@ + lines_text(lines, given, i as nat),
            decreases n - i,
        {
            let line = &self.lines[i];
            let m = line.len();
            assert(given[i as int].len() == lines[i as int].len());
            let mut cells: Vec<String> = Vec::new();
            let mut j: usize = 0;
            while j < m
                invariant
                    j <= m,
                    i < n,
                    n == self.lines@.len(),
                    n == fractions@.len(),
                    *line == self.lines@[i as int],
                    m == line@.len(),
                    m == fractions@[i as int]@.len(),
                    lines == self@,
                    given == line_texts(fractions@),
                    ": "@ == seq![':', ' '],
                    cells@.len() == j,
                    forall|k: int|
                        0 <= k < j ==> (#[trigger] cells@[k])@ == cell_text(
                            lines[i as int][k],
                            given[i as int][k],
                        ),
                decreases m - j,
            {
                let text = match &line[j] {
                    Cell::Text(text) => text.clone(),
                    Cell::Count(n) => decimal_text(*n),
                    Cell::Ratio(_) => fractions[i][j].clone(),
                    Cell::Labeled(label, _) => {
                        let mut text = label.clone();
                        text.append(": ");
                        text.append(fractions[i][j].as_str());
                        text
                    },
                };
                cells.push(text);
                j += 1;
            }
            assert(texts(cells@) =~= cell_texts(lines[i as int], given[i as int]));
            w.append(join(&cells, "\t").as_str());
            w.append("\n");
            i += 1;
        }
    }
}

/// The items, with the separator between each two of them.
pub open spec fn joined(items: Seq<Seq<char>>, sep: Seq<char>) -> Seq<char>
    decreases items.len(),
{
    if items.len() == 0 {
        Seq::empty()
    } else if items.len() == 1 {
        items[0]
    } else {
        joined(items.drop_last(), sep) + sep + items.last()
    }
}

/// The texts that strings hold.
pub open spec fn texts(items: Seq<String>) -> Seq<Seq<char>> {
    items.map_values(|s: String| s@)
}

/// Joins strings with a separator between each two of them.
///
/// This is `Itertools::join` of the crate `itertools`, called on the
/// strings in order. That the result is the first string followed, for each
/// further one, by the separator and that string, and empty for no strings,
/// is taken from its source and not proved here.
#[verifier::external_body]
pub(crate) fn join(items: &Vec<String>, sep: &str) -> (text: String)
    ensures
        text@ == joined(texts(items@), sep@),
{
    items.iter().join(sep)
}

} // verus!
