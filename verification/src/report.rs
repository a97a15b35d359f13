//! The report: one line of text for each source, and a line of totals
//! when there are several sources.

use vstd::prelude::*;
use crate::config::{Config, Symbols};
use crate::count::{Count, Tally};

verus! {

/// The decimal digit that stands for `d`.
pub open spec fn digit(d: nat) -> char {
    seq!['0', '1', '2', '3', '4', '5', '6', '7', '8', '9'][d as int]
}

/// The decimal numeral of `n`, without leading zeros.
pub open spec fn decimal(n: nat) -> Seq<char>
    decreases n,
{
    if n < 10 {
        seq![digit(n)]
    } else {
        decimal(n / 10).push(digit(n % 10))
    }
}

/// The one-character text of a digit.
fn digit_text(d: u64) -> (text: &'static str)
    requires
        d < 10,
    ensures
        text@ == seq![digit(d as nat)],
{
    proof {
        reveal_strlit("0");
        reveal_strlit("1");
        reveal_strlit("2");
        reveal_strlit("3");
        reveal_strlit("4");
        reveal_strlit("5");
        reveal_strlit("6");
        reveal_strlit("7");
        reveal_strlit("8");
        reveal_strlit("9");
    }
    if d == 0 {
        "0"
    } else if d == 1 {
        "1"
    } else if d == 2 {
        "2"
    } else if d == 3 {
        "3"
    } else if d == 4 {
        "4"
    } else if d == 5 {
        "5"
    } else if d == 6 {
        "6"
    } else if d == 7 {
        "7"
    } else if d == 8 {
        "8"
    } else {
        "9"
    }
}

/// Appends the decimal numeral of `n` to `out`.
fn push_decimal(out: &mut String, n: u64)
    ensures
        final(out)@ == old(out)@ + decimal(n as nat),
    decreases n,
{
    if n >= 10 {
        push_decimal(out, n / 10);
    }
    out.append(digit_text(n % 10));
}

/// The decimal numeral of `n`.
pub fn to_decimal(n: u64) -> (text: String)
    ensures
        text@ == decimal(n as nat),
{
    let mut text = String::new();
    push_decimal(&mut text, n);
    text
}

/// One line of the report: a label and the counts shown beside it.
#[derive(Clone, Debug)]
pub struct Row {
    pub label: String,
    pub count: Count,
}

/// The unit that follows a symbol count.
pub open spec fn symbols_unit(symbols: Symbols) -> Seq<char> {
    match symbols {
        Symbols::Bytes => "bytes"@,
        Symbols::Characters => "characters"@,
        Symbols::Off => Seq::empty(),
    }
}

/// One column: two spaces, the count, a space and the unit.
pub open spec fn column(n: nat, unit: Seq<char>) -> Seq<char> {
    "  "@ + decimal(n) + " "@ + unit
}

/// The text of one row: the label, then the columns that `config`
/// enables, in the order symbols, words, lines.
pub open spec fn row_text(config: Config, label: Seq<char>, count: Tally) -> Seq<char> {
    label + (if config.symbols != Symbols::Off {
        column(count.symbols, symbols_unit(config.symbols))
    } else {
        Seq::empty()
    }) + (if config.words {
        column(count.words, "words"@)
    } else {
        Seq::empty()
    }) + (if config.lines {
        column(count.lines, "lines"@)
    } else {
        Seq::empty()
    })
}

/// Appends one column to `out`.
fn push_column(out: &mut String, n: u64, unit: &str)
    ensures
        final(out)@ == old(out)@ + column(n as nat, unit@),
{
    out.append("  ");
    push_decimal(out, n);
    out.append(" ");
    out.append(unit);
}

/// Renders one row.
pub fn render_row(config: &Config, row: &Row) -> (line: String)
    ensures
        line@ == row_text(*config, row.label@, row.count@),
{
    let mut line = row.label.clone();
    match config.symbols {
        Symbols::Bytes => {
            push_column(&mut line, row.count.symbols, "bytes");
        },
        Symbols::Characters => {
            push_column(&mut line, row.count.symbols, "characters");
        },
        Symbols::Off => {},
    }
    if config.words {
        push_column(&mut line, row.count.words, "words");
    }
    if config.lines {
        push_column(&mut line, row.count.lines, "lines");
    }
    line
}

/// The counts of the rows, in order.
pub open spec fn tallies(rows: Seq<Row>) -> Seq<Tally> {
    Seq::new(rows.len(), |i: int| rows[i].count@)
}

/// The field-wise sum of a list of tallies.
pub open spec fn sum(tallies: Seq<Tally>) -> Tally
    decreases tallies.len(),
{
    if tallies.len() == 0 {
        Tally::zero()
    } else {
        sum(tallies.drop_last()).plus(tallies.last())
    }
}

/// No field of a sum is smaller than the same field of the sum of a
/// prefix.
pub proof fn lemma_sum_grows(tallies: Seq<Tally>, n: int)
    requires
        0 <= n <= tallies.len(),
    ensures
        sum(tallies.take(n)).symbols <= sum(tallies).symbols,
        sum(tallies.take(n)).words <= sum(tallies).words,
        sum(tallies.take(n)).lines <= sum(tallies).lines,
    decreases tallies.len(),
{
    if n == tallies.len() {
        assert(tallies.take(n) =~= tallies);
    } else {
        assert(tallies.drop_last().take(n) =~= tallies.take(n));
        lemma_sum_grows(tallies.drop_last(), n);
    }
}

/// The arithmetic sum of a list of numbers.
pub open spec fn total_of(values: Seq<nat>) -> nat
    decreases values.len(),
{
    if values.len() == 0 {
        0
    } else {
        total_of(values.drop_last()) + values.last()
    }
}

/// Each field of a sum of tallies is the arithmetic sum of that field
/// over the list.
pub proof fn lemma_sum_by_field(tallies: Seq<Tally>)
    ensures
        sum(tallies).symbols == total_of(Seq::new(tallies.len(), |i: int| tallies[i].symbols)),
        sum(tallies).words == total_of(Seq::new(tallies.len(), |i: int| tallies[i].words)),
        sum(tallies).lines == total_of(Seq::new(tallies.len(), |i: int| tallies[i].lines)),
    decreases tallies.len(),
{
    if tallies.len() > 0 {
        let front = tallies.drop_last();
        lemma_sum_by_field(front);
        assert(Seq::new(tallies.len(), |i: int| tallies[i].symbols).drop_last() =~= Seq::new(
            front.len(),
            |i: int| front[i].symbols,
        ));
        assert(Seq::new(tallies.len(), |i: int| tallies[i].words).drop_last() =~= Seq::new(
            front.len(),
            |i: int| front[i].words,
        ));
        assert(Seq::new(tallies.len(), |i: int| tallies[i].lines).drop_last() =~= Seq::new(
            front.len(),
            |i: int| front[i].lines,
        ));
    }
}

/// Adding one more tally to a list adds it to the sum.
pub proof fn lemma_sum_push(tallies: Seq<Tally>, next: Tally)
    ensures
        sum(tallies.push(next)) == sum(tallies).plus(next),
{
    assert(tallies.push(next).drop_last() =~= tallies);
}

/// The sum of the counts of all rows, or `None` exactly when a field of
/// that sum does not fit in 64 bits.
pub fn total(rows: &Vec<Row>) -> (all: Option<Count>)
    ensures
        all is Some <==> sum(tallies(rows@)).fits(),
        all matches Some(count) ==> count@ == sum(tallies(rows@)),
{
    let ghost parts = tallies(rows@);
    let mut acc = Count::new();
    let mut i: usize = 0;
    while i < rows.len()
        invariant
            parts == tallies(rows@),
            i <= rows@.len(),
            acc@ == sum(parts.take(i as int)),
        decreases rows@.len() - i,
    {
        proof {
            assert(parts.take(i + 1).drop_last() =~= parts.take(i as int));
            lemma_sum_grows(parts, i + 1);
        }
        match acc.checked_add(&rows[i].count) {
            Some(next) => {
                acc = next;
            },
            None => {
                return None;
            },
        }
        i += 1;
    }
    assert(parts.take(i as int) =~= parts);
    Some(acc)
}

/// The parts in order, with `sep` between each two neighbours.
pub open spec fn joined(parts: Seq<Seq<char>>, sep: Seq<char>) -> Seq<char>
    decreases parts.len(),
{
    if parts.len() == 0 {
        Seq::empty()
    } else if parts.len() == 1 {
        parts[0]
    } else {
        joined(parts.drop_last(), sep) + sep + parts.last()
    }
}

/// Calls `itertools::join` on a list of strings. Trusted: that the
/// result is the strings in order with `sep` between each two
/// neighbours, and the empty string for an empty list.
#[verifier::external_body]
fn join_with(parts: &Vec<String>, sep: &str) -> (text: String)
    ensures
        text@ == joined(parts.deep_view(), sep@),
{
    itertools::join(parts, sep)
}

/// The lines of the report: one for each row, in order, and after them
/// a line labelled `Total:` with the sum of all counts when there are
/// two rows or more.
pub open spec fn report_lines(config: Config, rows: Seq<Row>) -> Seq<Seq<char>> {
    let sources = Seq::new(
        rows.len(),
        |i: int| row_text(config, rows[i].label@, rows[i].count@),
    );
    if rows.len() >= 2 {
        sources.push(row_text(config, "Total:"@, sum(tallies(rows))))
    } else {
        sources
    }
}

/// A report of fewer than two rows has no line of totals; one of two
/// rows or more has exactly one, after the rows of the sources, and it
/// shows the sum of their counts.
pub proof fn lemma_total_line(config: Config, rows: Seq<Row>)
    ensures
        rows.len() < 2 ==> report_lines(config, rows).len() == rows.len(),
        rows.len() >= 2 ==> report_lines(config, rows).len() == rows.len() + 1,
        rows.len() >= 2 ==> report_lines(config, rows).last() == row_text(
            config,
            "Total:"@,
            sum(tallies(rows)),
        ),
        forall|i: int|
            0 <= i < rows.len() ==> report_lines(config, rows)[i] == row_text(
                config,
                rows[i].label@,
                rows[i].count@,
            ),
{
}

/// The text of the report: its lines joined by line feeds, without one
/// at the end. A configuration without any column yields no text.
pub open spec fn report_text(config: Config, rows: Seq<Row>) -> Seq<char> {
    if config.has_column() {
        joined(report_lines(config, rows), "\n"@)
    } else {
        Seq::empty()
    }
}

/// Builds the report for the rows of the sources, in their order. It is
/// `None` exactly when a line of totals is due and a total does not fit
/// in 64 bits.
pub fn build_report(config: &Config, rows: &Vec<Row>) -> (report: Option<String>)
    ensures
        report is Some <==> (rows@.len() >= 2 ==> sum(tallies(rows@)).fits()),
        report matches Some(text) ==> text@ == report_text(*config, rows@),
{
    let mut lines: Vec<String> = Vec::new();
    let mut i: usize = 0;
    while i < rows.len()
        invariant
            i <= rows@.len(),
            lines@.len() == i,
            forall|j: int|
                0 <= j < i ==> lines@[j]@ == row_text(*config, rows@[j].label@, rows@[j].count@),
        decreases rows@.len() - i,
    {
        lines.push(render_row(config, &rows[i]));
        i += 1;
    }
    if rows.len() >= 2 {
        match total(rows) {
            Some(count) => {
                let last = Row { label: String::from_str("Total:"), count };
                lines.push(render_row(config, &last));
            },
            None => {
                return None;
            },
        }
    }
    assert(lines.deep_view() =~= report_lines(*config, rows@));
    let has_column = config.words || config.lines || !matches!(config.symbols, Symbols::Off);
    if has_column {
        Some(join_with(&lines, "\n"))
    } else {
        Some(String::new())
    }
}

} // verus!
