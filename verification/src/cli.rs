//! The options that are given on the command line.

use vstd::prelude::*;

verus! {

/// Options of the command line. The line relay reads where to connect and how
/// long to wait; the line sorter reads the key column and the way lines are
/// compared.
#[derive(Clone, Debug, PartialEq, Eq)]
pub struct Cli {
    /// Seconds to wait for the connection and for each transfer.
    pub timeout: u64,
    /// Name or address of the host to connect to.
    pub host: String,
    /// Port to connect to.
    pub port: u16,
    /// Number of the column that lines are sorted by, counting from one.
    pub key: usize,
    /// Compare key columns as whole numbers.
    pub numeric_sort: bool,
    /// Compare lines as names of months.
    pub month_sort: bool,
    /// Compare key columns as quantities with a unit suffix.
    pub human_numeric_sort: bool,
}

/// The ways lines can be compared, in the order in which the options select
/// them.
#[derive(Clone, Copy, Debug, PartialEq, Eq, Structural)]
pub enum Comparison {
    Numeric,
    Month,
    HumanNumeric,
    Lexicographic,
}

impl Cli {
    /// The comparison that these options select: the first of numeric, month
    /// and human-numeric that is switched on, and lexicographic when none is.
    pub open spec fn selected(self) -> Comparison {
        if self.numeric_sort {
            Comparison::Numeric
        } else if self.month_sort {
            Comparison::Month
        } else if self.human_numeric_sort {
            Comparison::HumanNumeric
        } else {
            Comparison::Lexicographic
        }
    }

    /// The comparison that these options select.
    pub fn comparison(&self) -> (chosen: Comparison)
        ensures
            chosen == self.selected(),
    {
        if self.numeric_sort {
            Comparison::Numeric
        } else if self.month_sort {
            Comparison::Month
        } else if self.human_numeric_sort {
            Comparison::HumanNumeric
        } else {
            Comparison::Lexicographic
        }
    }
}

} // verus!
