//! Column-aligned tables. Widths are measured in terminal columns, as
//! unicode-width measures them, so wide and combining characters keep the
//! following columns aligned.

use vstd::prelude::*;
use unicode_width::UnicodeWidthStr;
use crate::text::push_str;

verus! {

/// The number of terminal columns a text takes, as unicode-width's
/// `UnicodeWidthStr::width` counts them.
pub uninterp spec fn display_width(text: Seq<char>) -> nat;

/// `UnicodeWidthStr::width` of unicode-width: the columns `text` takes on a
/// terminal. Claimed: the result is the named width of the text, so the same
/// text always measures the same.
#[verifier::external_body]
fn text_width(text: &str) -> (w: usize)
    ensures
        w as nat == display_width(text@),
{
    text.width()
}

pub open spec fn spaces(n: nat) -> Seq<char>
    decreases n,
{
    if n == 0 {
        Seq::empty()
    } else {
        spaces((n - 1) as nat).push(' ')
    }
}

/// The text followed by as many spaces as it falls short of `width` columns;
/// a text as wide or wider is left as it is, never cut.
pub open spec fn padded(text: Seq<char>, width: nat) -> Seq<char> {
    text + if display_width(text) < width {
        spaces((width - display_width(text)) as nat)
    } else {
        Seq::empty()
    }
}

pub fn pad(text: &str, width: usize) -> (s: String)
    ensures
        s@ == padded(text@, width as nat),
{
    let deficit = width.saturating_sub(text_width(text));
    let mut s = String::from_str(text);
    let ghost start = s@;
    let mut k: usize = 0;
    while k < deficit
        invariant
            k <= deficit,
            s@ == start + spaces(k as nat),
        decreases deficit - k,
    {
        crate::text::push_char(&mut s, ' ');
        k = k + 1;
    }
    s
}

/// The color a cell is shown in.
#[derive(Debug, Clone, Copy, PartialEq, Eq)]
pub enum Paint {
    Bold,
    Dimmed,
    Cyan,
    Blue,
    Green,
    Yellow,
    Red,
}

/// Display-ready text and its color.
#[derive(Debug, Clone, PartialEq, Eq)]
pub struct Cell {
    pub text: String,
    pub paint: Paint,
}

impl Cell {
    pub fn new(text: String, paint: Paint) -> (c: Cell)
        ensures
            c.text == text,
            c.paint == paint,
    {
        Cell { text, paint }
    }
}

/// Headers and rows of cells.
#[derive(Debug, PartialEq, Eq)]
pub struct Table {
    pub headers: Vec<String>,
    pub rows: Vec<Vec<Cell>>,
}

pub open spec fn max_nat(a: nat, b: nat) -> nat {
    if a >= b {
        a
    } else {
        b
    }
}

/// The width of column `j` over the header and the first `n` rows: the
/// widest of its texts. A row without a cell in that column does not count.
pub open spec fn column_width(headers: Seq<String>, rows: Seq<Vec<Cell>>, j: int, n: int) -> nat
    decreases n,
{
    if n <= 0 {
        display_width(headers[j]@)
    } else {
        let prev = column_width(headers, rows, j, n - 1);
        let row = rows[n - 1]@;
        if j < row.len() {
            max_nat(prev, display_width(row[j].text@))
        } else {
            prev
        }
    }
}

impl Table {
    pub fn new(headers: Vec<String>) -> (t: Table)
        ensures
            t.headers == headers,
            t.rows@.len() == 0,
    {
        Table { headers, rows: Vec::new() }
    }

    pub fn push_row(&mut self, cells: Vec<Cell>)
        ensures
            final(self).headers == old(self).headers,
            final(self).rows@ == old(self).rows@.push(cells),
    {
        self.rows.push(cells);
    }

    /// The width of each column: the widest of its header and cells.
    pub fn column_widths(&self) -> (widths: Vec<usize>)
        ensures
            widths@.len() == self.headers@.len(),
            forall|j: int|
                0 <= j < widths@.len() ==> widths@[j] as nat == column_width(
                    self.headers@,
                    self.rows@,
                    j,
                    self.rows@.len() as int,
                ),
    {
        let mut widths: Vec<usize> = Vec::new();
        let mut j: usize = 0;
        while j < self.headers.len()
            invariant
                j <= self.headers@.len(),
                widths@.len() == j,
                forall|k: int|
                    0 <= k < j ==> widths@[k] as nat == column_width(self.headers@, self.rows@, k, 0),
            decreases self.headers@.len() - j,
        {
            widths.push(text_width(self.headers[j].as_str()));
            j = j + 1;
        }
        let mut i: usize = 0;
        while i < self.rows.len()
            invariant
                i <= self.rows@.len(),
                widths@.len() == self.headers@.len(),
                forall|k: int|
                    0 <= k < widths@.len() ==> widths@[k] as nat == column_width(
                        self.headers@,
                        self.rows@,
                        k,
                        i as int,
                    ),
            decreases self.rows@.len() - i,
        {
            let row = &self.rows[i];
            let mut j: usize = 0;
            while j < widths.len()
                invariant
                    i < self.rows@.len(),
                    *row == self.rows@[i as int],
                    j <= widths@.len(),
                    widths@.len() == self.headers@.len(),
                    forall|k: int|
                        0 <= k < j ==> widths@[k] as nat == column_width(
                            self.headers@,
                            self.rows@,
                            k,
                            i + 1,
                        ),
                    forall|k: int|
                        j <= k < widths@.len() ==> widths@[k] as nat == column_width(
                            self.headers@,
                            self.rows@,
                            k,
                            i as int,
                        ),
                decreases widths@.len() - j,
            {
                if j < row.len() {
                    let w = text_width(row[j].text.as_str());
                    if w > widths[j] {
                        widths.set(j, w);
                    }
                }
                j = j + 1;
            }
            i = i + 1;
        }
        widths
    }
}

} // verus!
