//! How deep a configuration file nests, measured before it is parsed.
//!
//! The TOML parser follows nesting by recursion: one level for each array or
//! inline table that is open, and one for each part of a dotted key or of a table's
//! header. A file that nests without end would exhaust the stack, so the file is
//! measured first and refused beyond a bound.
//!
//! The measure follows the file as the parser's tokens do. Brackets, braces and
//! dots count where they stand in the open, not in a string and not in a comment.
//! A file with a string that runs over several lines is measured by the count of
//! all its brackets, braces and dots instead, which is never less.

use vstd::prelude::*;

verus! {

/// The deepest a configuration file may nest by the measure of this module. With
/// it the parser's recursion stays below a hundred levels: at most this many for
/// the header of a table, as many again for a dotted key, and as many again for
/// the value.
pub const MAX_NESTING: usize = 32;

/// Whether `b` opens a level of nesting: `[` or `{`.
pub open spec fn is_opener(b: u8) -> bool {
    b == 0x5b || b == 0x7b
}

/// Whether `b` closes a level of nesting: `]` or `}`.
pub open spec fn is_closer(b: u8) -> bool {
    b == 0x5d || b == 0x7d
}

/// Whether `b` may stand for a level of nesting: `[`, `{` or `.`.
pub open spec fn is_nesting_mark(b: u8) -> bool {
    is_opener(b) || b == 0x2e
}

/// How many bytes of `bytes` may stand for a level of nesting.
pub open spec fn nesting_marks(bytes: Seq<u8>) -> nat
    decreases bytes.len(),
{
    if bytes.len() == 0 {
        0
    } else {
        nesting_marks(bytes.drop_last()) + if is_nesting_mark(bytes.last()) {
            1nat
        } else {
            0nat
        }
    }
}

/// Whether three double quotes or three single quotes stand in a row at `at`: the
/// mark of a string that may run over several lines.
pub open spec fn long_quote_at(bytes: Seq<u8>, at: int) -> bool {
    &&& 0 <= at
    &&& at + 3 <= bytes.len()
    &&& bytes[at] == 0x22 || bytes[at] == 0x27
    &&& bytes[at + 1] == bytes[at]
    &&& bytes[at + 2] == bytes[at]
}

/// Whether `bytes` may hold a string that runs over several lines.
pub open spec fn has_long_quote(bytes: Seq<u8>) -> bool {
    exists|at: int| long_quote_at(bytes, at)
}

/// Where in a line the reading stands.
#[derive(Clone, Copy, Debug, PartialEq, Eq, Structural)]
pub enum Lex {
    /// In the open: outside strings and comments.
    Open,
    /// In a string between double quotes.
    Basic,
    /// In a string between double quotes, behind a backslash.
    Escape,
    /// In a string between single quotes.
    Literal,
    /// In a comment.
    Comment,
}

/// How far the reading of a file has come.
pub struct Reading {
    /// Where in the line the reading stands.
    pub lex: Lex,
    /// How many arrays and inline tables are open.
    pub open: nat,
    /// How many dots stood in the open in this line so far.
    pub dots: nat,
    /// The most that open arrays, inline tables and dots came to together.
    pub deepest: nat,
}

/// The reading before the first byte.
pub open spec fn reading_start() -> Reading {
    Reading { lex: Lex::Open, open: 0, dots: 0, deepest: 0 }
}

/// The reading behind a line feed: in the open again, with no dots in the line.
pub open spec fn next_line(reading: Reading) -> Reading {
    Reading { lex: Lex::Open, dots: 0, ..reading }
}

/// The reading one byte on. A line feed ends strings, comments and the count of
/// dots. In the open, quotes begin a string and `#` a comment, an opener adds a
/// level, a closer takes one away, a dot counts for the line. In a string only its
/// closing quote counts, taken as it is behind a backslash between double quotes.
pub open spec fn read_byte(reading: Reading, b: u8) -> Reading {
    let next = if b == 0x0a {
        next_line(reading)
    } else {
        match reading.lex {
            Lex::Open => if b == 0x22 {
                Reading { lex: Lex::Basic, ..reading }
            } else if b == 0x27 {
                Reading { lex: Lex::Literal, ..reading }
            } else if b == 0x23 {
                Reading { lex: Lex::Comment, ..reading }
            } else if is_opener(b) {
                Reading { open: reading.open + 1, ..reading }
            } else if is_closer(b) && reading.open > 0 {
                Reading { open: (reading.open - 1) as nat, ..reading }
            } else if b == 0x2e {
                Reading { dots: reading.dots + 1, ..reading }
            } else {
                reading
            },
            Lex::Basic => if b == 0x5c {
                Reading { lex: Lex::Escape, ..reading }
            } else if b == 0x22 {
                Reading { lex: Lex::Open, ..reading }
            } else {
                reading
            },
            Lex::Escape => Reading { lex: Lex::Basic, ..reading },
            Lex::Literal => if b == 0x27 {
                Reading { lex: Lex::Open, ..reading }
            } else {
                reading
            },
            Lex::Comment => reading,
        }
    };
    Reading {
        deepest: if next.open + next.dots > next.deepest {
            next.open + next.dots
        } else {
            next.deepest
        },
        ..next
    }
}

/// The reading behind all of `bytes`.
pub open spec fn reading_of(bytes: Seq<u8>) -> Reading
    decreases bytes.len(),
{
    if bytes.len() == 0 {
        reading_start()
    } else {
        read_byte(reading_of(bytes.drop_last()), bytes.last())
    }
}

/// How deep `bytes` nest: the deepest that the reading comes to, or, where a string
/// may run over several lines, the count of all that may stand for a level.
pub open spec fn nesting(bytes: Seq<u8>) -> nat {
    if has_long_quote(bytes) {
        nesting_marks(bytes)
    } else {
        reading_of(bytes).deepest
    }
}

/// Looks for three quotes in a row.
pub fn find_long_quote(bytes: &[u8]) -> (found: bool)
    ensures
        found == has_long_quote(bytes@),
{
    let len = bytes.len();
    if len < 3 {
        return false;
    }
    let last = len - 3;
    let mut at: usize = 0;
    while at <= last
        invariant
            len == bytes@.len(),
            last + 3 == len,
            at <= last + 1,
            forall|p: int| 0 <= p < at ==> !#[trigger] long_quote_at(bytes@, p),
        decreases last + 1 - at,
    {
        let b = bytes[at];
        if (b == 0x22 || b == 0x27) && bytes[at + 1] == b && bytes[at + 2] == b {
            assert(long_quote_at(bytes@, at as int));
            return true;
        }
        at += 1;
    }
    false
}

/// Counts the bytes that may stand for a level of nesting.
pub fn count_nesting_marks(bytes: &[u8]) -> (count: usize)
    ensures
        count == nesting_marks(bytes@),
{
    let mut count: usize = 0;
    let mut i: usize = 0;
    while i < bytes.len()
        invariant
            i <= bytes.len(),
            count <= i,
            count == nesting_marks(bytes@.take(i as int)),
        decreases bytes.len() - i,
    {
        proof {
            assert(bytes@.take(i + 1).drop_last() =~= bytes@.take(i as int));
        }
        let b = bytes[i];
        if b == 0x5b || b == 0x7b || b == 0x2e {
            count += 1;
        }
        i += 1;
    }
    proof {
        assert(bytes@.take(i as int) =~= bytes@);
    }
    count
}

/// Reads `bytes` through and says whether the reading stays within the bound.
pub fn reads_within_bound(bytes: &[u8]) -> (ok: bool)
    ensures
        ok == (reading_of(bytes@).deepest <= MAX_NESTING),
{
    let mut lex = Lex::Open;
    let mut open: usize = 0;
    let mut dots: usize = 0;
    let mut over = false;
    let mut i: usize = 0;
    while i < bytes.len()
        invariant
            i <= bytes.len(),
            open <= i,
            dots <= i,
            reading_of(bytes@.take(i as int)).lex == lex,
            reading_of(bytes@.take(i as int)).open == open,
            reading_of(bytes@.take(i as int)).dots == dots,
            over == (reading_of(bytes@.take(i as int)).deepest > MAX_NESTING),
        decreases bytes.len() - i,
    {
        proof {
            assert(bytes@.take(i + 1).drop_last() =~= bytes@.take(i as int));
        }
        let b = bytes[i];
        if b == 0x0a {
            lex = Lex::Open;
            dots = 0;
        } else {
            match lex {
                Lex::Open => {
                    if b == 0x22 {
                        lex = Lex::Basic;
                    } else if b == 0x27 {
                        lex = Lex::Literal;
                    } else if b == 0x23 {
                        lex = Lex::Comment;
                    } else if b == 0x5b || b == 0x7b {
                        open += 1;
                    } else if (b == 0x5d || b == 0x7d) && open > 0 {
                        open -= 1;
                    } else if b == 0x2e {
                        dots += 1;
                    }
                },
                Lex::Basic => {
                    if b == 0x5c {
                        lex = Lex::Escape;
                    } else if b == 0x22 {
                        lex = Lex::Open;
                    }
                },
                Lex::Escape => {
                    lex = Lex::Basic;
                },
                Lex::Literal => {
                    if b == 0x27 {
                        lex = Lex::Open;
                    }
                },
                Lex::Comment => {},
            }
        }
        if open > MAX_NESTING || dots > MAX_NESTING - open {
            over = true;
        }
        i += 1;
    }
    proof {
        assert(bytes@.take(i as int) =~= bytes@);
    }
    !over
}

/// Measures `bytes` and says whether they nest within the bound.
pub fn within_nesting_bound(bytes: &[u8]) -> (ok: bool)
    ensures
        ok == (nesting(bytes@) <= MAX_NESTING),
{
    if find_long_quote(bytes) {
        count_nesting_marks(bytes) <= MAX_NESTING
    } else {
        reads_within_bound(bytes)
    }
}

} // verus!
