//! The ways in which an extraction fails.

use goblin::error::Error as GoblinError;
use scroll::Error as ScrollError;
use vstd::prelude::*;
use vstd::std_specs::convert::FromSpecImpl;
use vstd::string::StringExecFns;

verus! {

/// Why no text came out of a buffer.
#[derive(Debug)]
pub enum Error {
    /// The PE has no optional header.
    OptionalHeader,
    /// The PE has no resource data directory.
    DataDir,
    /// No section holds this relative virtual address.
    Offset(usize),
    /// A record or a payload reaches past the end of the buffer.
    Scroll(ScrollError),
    /// The buffer is not a PE that the parser accepts.  The caller that
    /// parses the container reports its failure with this variant.
    Goblin(GoblinError),
}

/// An [`Error`] without the values that only the outside crates can read.
#[derive(Debug, Clone, Copy, PartialEq, Eq, Structural)]
pub enum ErrorKind {
    /// The PE has no optional header.
    OptionalHeader,
    /// The PE has no resource data directory.
    DataDir,
    /// No section holds this relative virtual address.
    Offset(usize),
    /// A record or a payload reaches past the end of the buffer.
    Scroll,
    /// The buffer is not a PE that the parser accepts.
    Goblin,
}

/// The character of a decimal digit.
pub open spec fn digit_char(digit: nat) -> char {
    if digit == 0 {
        '0'
    } else if digit == 1 {
        '1'
    } else if digit == 2 {
        '2'
    } else if digit == 3 {
        '3'
    } else if digit == 4 {
        '4'
    } else if digit == 5 {
        '5'
    } else if digit == 6 {
        '6'
    } else if digit == 7 {
        '7'
    } else if digit == 8 {
        '8'
    } else {
        '9'
    }
}

/// A number in decimal digits, without leading zeros.
pub open spec fn decimal(n: nat) -> Seq<char>
    decreases n,
{
    if n < 10 {
        seq![digit_char(n)]
    } else {
        decimal(n / 10).push(digit_char(n % 10))
    }
}

/// A decimal digit as a string.
fn digit_str(digit: usize) -> (s: &'static str)
    requires
        digit < 10,
    ensures
        s@ == seq![digit_char(digit as nat)],
{
    proof {
        reveal_strlit("0");
        reveal_strlit("1");
        reveal_strlit("2");
        reveal_strlit("3");
        reveal_strlit("4");
        reveal_strlit("5");
        reveal_strlit("6");
        reveal_strlit("7");
        reveal_strlit("8");
        reveal_strlit("9");
    }
    let s = if digit == 0 {
        "0"
    } else if digit == 1 {
        "1"
    } else if digit == 2 {
        "2"
    } else if digit == 3 {
        "3"
    } else if digit == 4 {
        "4"
    } else if digit == 5 {
        "5"
    } else if digit == 6 {
        "6"
    } else if digit == 7 {
        "7"
    } else if digit == 8 {
        "8"
    } else {
        "9"
    };
    s
}

/// Writes a number in decimal digits behind a text.
pub fn push_decimal(out: &mut String, n: usize)
    ensures
        final(out)@ == old(out)@ + decimal(n as nat),
    decreases n,
{
    if n >= 10 {
        push_decimal(out, n / 10);
    }
    out.append(digit_str(n % 10));
}

/// `Display` of `scroll::Error`: the words of `scroll` for a failed read.
#[verifier::external_body]
fn scroll_message(err: &ScrollError) -> String {
    format!("{}", err)
}

/// `Display` of `goblin::error::Error`: the words of `goblin` for a container
/// that it rejects.
#[verifier::external_body]
fn goblin_message(err: &GoblinError) -> String {
    format!("{}", err)
}

impl Error {
    /// The kind of this error; for `Offset`, with the address that was looked up.
    pub open spec fn kind_of(self) -> ErrorKind {
        match self {
            Error::OptionalHeader => ErrorKind::OptionalHeader,
            Error::DataDir => ErrorKind::DataDir,
            Error::Offset(rva) => ErrorKind::Offset(rva),
            Error::Scroll(_) => ErrorKind::Scroll,
            Error::Goblin(_) => ErrorKind::Goblin,
        }
    }

    pub fn kind(&self) -> (k: ErrorKind)
        ensures
            k == self.kind_of(),
    {
        match self {
            Error::OptionalHeader => ErrorKind::OptionalHeader,
            Error::DataDir => ErrorKind::DataDir,
            Error::Offset(rva) => ErrorKind::Offset(*rva),
            Error::Scroll(_) => ErrorKind::Scroll,
            Error::Goblin(_) => ErrorKind::Goblin,
        }
    }

    /// The error in words.  For `Scroll` and `Goblin` they are the words of
    /// the crate that reported the error.
    pub fn message(&self) -> (text: String)
        ensures
            self is OptionalHeader ==> text@ == "No Optional Header in PE"@,
            self is DataDir ==> text@ == "No Data Directories"@,
            self matches Error::Offset(rva) ==> text@ == "Error finding offset at: "@ + decimal(
                rva as nat,
            ),
    {
        match self {
            Error::Scroll(err) => scroll_message(err),
            Error::Goblin(err) => goblin_message(err),
            Error::Offset(rva) => {
                let mut text = String::from_str("Error finding offset at: ");
                push_decimal(&mut text, *rva);
                text
            },
            Error::DataDir => String::from_str("No Data Directories"),
            Error::OptionalHeader => String::from_str("No Optional Header in PE"),
        }
    }
}

impl From<ScrollError> for Error {
    fn from(err: ScrollError) -> (e: Error) {
        Error::Scroll(err)
    }
}

impl FromSpecImpl<ScrollError> for Error {
    open spec fn obeys_from_spec() -> bool {
        true
    }

    open spec fn from_spec(err: ScrollError) -> Error {
        Error::Scroll(err)
    }
}

impl From<GoblinError> for Error {
    fn from(err: GoblinError) -> (e: Error) {
        Error::Goblin(err)
    }
}

impl FromSpecImpl<GoblinError> for Error {
    open spec fn obeys_from_spec() -> bool {
        true
    }

    open spec fn from_spec(err: GoblinError) -> Error {
        Error::Goblin(err)
    }
}

} // verus!
