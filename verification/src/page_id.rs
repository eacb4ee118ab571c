//! Logical page identifiers: a file id paired with a page number within that
//! file.

use vstd::prelude::*;

verus! {

/// A simple type for the unique file identifier, at its core just a `u32`.
pub type FileId = u32;

/// A unique identifier for any page.
#[derive(Debug, Clone, Copy, PartialEq, Eq, Structural, Hash, PartialOrd, Ord)]
pub struct PageId {
    /// Unique identifier of the file containing the page.
    pub file_id: FileId,
    /// The specific page number within the file.
    pub page_number: u32,
}

/// The character for a single decimal digit.
pub open spec fn digit_char(d: int) -> char {
    if d == 0 {
        '0'
    } else if d == 1 {
        '1'
    } else if d == 2 {
        '2'
    } else if d == 3 {
        '3'
    } else if d == 4 {
        '4'
    } else if d == 5 {
        '5'
    } else if d == 6 {
        '6'
    } else if d == 7 {
        '7'
    } else if d == 8 {
        '8'
    } else {
        '9'
    }
}

/// The decimal representation of a non-negative integer, most significant
/// digit first.
pub open spec fn dec_digits(n: int) -> Seq<char>
    decreases n,
{
    if n < 10 {
        seq![digit_char(n)]
    } else {
        dec_digits(n / 10) + seq![digit_char(n % 10)]
    }
}

/// The display form of a page id: `"<file_id>:<page_number>"`.
pub open spec fn page_id_display(p: PageId) -> Seq<char> {
    dec_digits(p.file_id as int) + seq![':'] + dec_digits(p.page_number as int)
}

/// Returns the one-character string for a decimal digit.
fn digit_str(d: u32) -> (r: &'static str)
    requires
        d < 10,
    ensures
        r@ == seq![digit_char(d as int)],
{
    if d == 0 {
        proof {
            reveal_strlit("0");
            assert("0"@ =~= seq![digit_char(0)]);
        }
        "0"
    } else if d == 1 {
        proof {
            reveal_strlit("1");
            assert("1"@ =~= seq![digit_char(1)]);
        }
        "1"
    } else if d == 2 {
        proof {
            reveal_strlit("2");
            assert("2"@ =~= seq![digit_char(2)]);
        }
        "2"
    } else if d == 3 {
        proof {
            reveal_strlit("3");
            assert("3"@ =~= seq![digit_char(3)]);
        }
        "3"
    } else if d == 4 {
        proof {
            reveal_strlit("4");
            assert("4"@ =~= seq![digit_char(4)]);
        }
        "4"
    } else if d == 5 {
        proof {
            reveal_strlit("5");
            assert("5"@ =~= seq![digit_char(5)]);
        }
        "5"
    } else if d == 6 {
        proof {
            reveal_strlit("6");
            assert("6"@ =~= seq![digit_char(6)]);
        }
        "6"
    } else if d == 7 {
        proof {
            reveal_strlit("7");
            assert("7"@ =~= seq![digit_char(7)]);
        }
        "7"
    } else if d == 8 {
        proof {
            reveal_strlit("8");
            assert("8"@ =~= seq![digit_char(8)]);
        }
        "8"
    } else {
        proof {
            reveal_strlit("9");
            assert("9"@ =~= seq![digit_char(9)]);
        }
        "9"
    }
}

/// Renders a number in decimal, most significant digit first.
fn u32_to_decimal(n: u32) -> (r: String)
    ensures
        r@ == dec_digits(n as int),
    decreases n,
{
    if n < 10 {
        let mut s = String::new();
        s.append(digit_str(n));
        proof {
            assert(s@ =~= dec_digits(n as int));
        }
        s
    } else {
        let mut s = u32_to_decimal(n / 10);
        s.append(digit_str(n % 10));
        s
    }
}

impl PageId {
    /// Creates a new `PageId` with the given file id and page number.
    pub fn new(file_id: u32, page_number: u32) -> (r: PageId)
        ensures
            r.file_id == file_id,
            r.page_number == page_number,
    {
        PageId { file_id, page_number }
    }

    /// The display form `"<file_id>:<page_number>"`, both numbers in
    /// decimal.
    pub fn display_string(&self) -> (r: String)
        ensures
            r@ == page_id_display(*self),
    {
        let mut s = u32_to_decimal(self.file_id);
        proof {
            reveal_strlit(":");
            assert(":"@ =~= seq![':']);
        }
        s.append(":");
        let tail = u32_to_decimal(self.page_number);
        s.append(tail.as_str());
        proof {
            assert(s@ =~= page_id_display(*self));
        }
        s
    }
}

} // verus!
