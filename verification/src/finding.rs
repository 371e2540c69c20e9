//! A finding is the durable record of one matched construct. Its line in the
//! findings log is `label, running count, file, identifier`.

use crate::query::{ConstructKind, TypeQuery};
use vstd::prelude::*;
use vstd::string::StringExecFns;

verus! {

/// One matched construct: the kind with its running count at the time of the
/// record, the file it was found in and the identifier that was matched.
#[derive(Clone, Debug, PartialEq, Eq)]
pub struct Finding {
    pub query: TypeQuery,
    pub file: String,
    pub identifier: String,
}

/// The mathematical content of a [`Finding`].
pub struct FindingView {
    pub kind: ConstructKind,
    pub count: nat,
    pub file: Seq<char>,
    pub identifier: Seq<char>,
}

impl View for Finding {
    type V = FindingView;

    open spec fn view(&self) -> FindingView {
        FindingView {
            kind: self.query.spec_kind(),
            count: self.query.spec_count() as nat,
            file: self.file@,
            identifier: self.identifier@,
        }
    }
}

/// The views of a sequence of findings.
pub open spec fn findings_view(log: Seq<Finding>) -> Seq<FindingView> {
    log.map_values(|f: Finding| f@)
}

/// The decimal digit for `d`, which is below ten.
pub open spec fn digit(d: nat) -> char {
    if d == 0 {
        '0'
    } else if d == 1 {
        '1'
    } else if d == 2 {
        '2'
    } else if d == 3 {
        '3'
    } else if d == 4 {
        '4'
    } else if d == 5 {
        '5'
    } else if d == 6 {
        '6'
    } else if d == 7 {
        '7'
    } else if d == 8 {
        '8'
    } else {
        '9'
    }
}

/// `n` written in base ten, most significant digit first, without padding.
pub open spec fn decimal(n: nat) -> Seq<char>
    decreases n,
{
    if n < 10 {
        seq![digit(n)]
    } else {
        decimal(n / 10).push(digit(n % 10))
    }
}

/// The separator between the fields of a log line.
pub open spec fn separator() -> Seq<char> {
    seq![',', ' ']
}

impl FindingView {
    /// The finding's line in the log: label, running count, file and
    /// identifier, separated by a comma and a space.
    pub open spec fn line(self) -> Seq<char> {
        self.kind.label() + separator() + decimal(self.count) + separator() + self.file
            + separator() + self.identifier
    }
}

fn digit_text(d: usize) -> (text: &'static str)
    requires
        d < 10,
    ensures
        text@ == seq![digit(d as nat)],
{
    proof {
        reveal_strlit("0");
        reveal_strlit("1");
        reveal_strlit("2");
        reveal_strlit("3");
        reveal_strlit("4");
        reveal_strlit("5");
        reveal_strlit("6");
        reveal_strlit("7");
        reveal_strlit("8");
        reveal_strlit("9");
    }
    let text = if d == 0 {
        "0"
    } else if d == 1 {
        "1"
    } else if d == 2 {
        "2"
    } else if d == 3 {
        "3"
    } else if d == 4 {
        "4"
    } else if d == 5 {
        "5"
    } else if d == 6 {
        "6"
    } else if d == 7 {
        "7"
    } else if d == 8 {
        "8"
    } else {
        "9"
    };
    assert(text@ =~= seq![digit(d as nat)]);
    text
}

/// Writes `n` in base ten.
pub fn decimal_string(n: usize) -> (text: String)
    ensures
        text@ == decimal(n as nat),
    decreases n,
{
    if n < 10 {
        String::from_str(digit_text(n))
    } else {
        let mut text = decimal_string(n / 10);
        text.append(digit_text(n % 10));
        assert(text@ =~= decimal((n / 10) as nat).push(digit((n % 10) as nat)));
        text
    }
}

impl Finding {
    /// The finding's line in the log, without a line terminator.
    pub fn line(&self) -> (text: String)
        ensures
            text@ == self@.line(),
    {
        proof {
            reveal_strlit(", ");
        }
        assert(", "@ =~= separator());
        let mut text = String::from_str(self.query.name());
        text.append(", ");
        text.append(decimal_string(self.query.count()).as_str());
        text.append(", ");
        text.append(self.file.as_str());
        text.append(", ");
        text.append(self.identifier.as_str());
        text
    }
}

} // verus!
