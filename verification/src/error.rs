//! The configuration error of the swarm and the text it carries.
use vstd::prelude::*;
use vstd::string::*;

verus! {

/// The label that a dimension mismatch carries as its header.
pub open spec fn constructor_label() -> Seq<char> {
    "BasicPsoHandler-new"@
}

/// The character that stands for the digit `d`.
pub open spec fn digit(d: nat) -> char {
    if d == 0 {
        '0'
    } else if d == 1 {
        '1'
    } else if d == 2 {
        '2'
    } else if d == 3 {
        '3'
    } else if d == 4 {
        '4'
    } else if d == 5 {
        '5'
    } else if d == 6 {
        '6'
    } else if d == 7 {
        '7'
    } else if d == 8 {
        '8'
    } else {
        '9'
    }
}

/// The decimal notation of `n`, most significant digit first, without leading zeros.
pub open spec fn decimal(n: nat) -> Seq<char>
    decreases n,
{
    if n < 10 {
        seq![digit(n)]
    } else {
        decimal(n / 10).push(digit(n % 10))
    }
}

/// The message of a dimension mismatch: the velocity limits cover `provided`
/// coordinates while the swarm was declared with `dimension`.
pub open spec fn mismatch_message(provided: nat, dimension: nat) -> Seq<char> {
    "Position field "@ + decimal(provided) + " does not match dimension "@ + decimal(dimension)
}

fn digit_text(d: usize) -> (text: &'static str)
    requires
        d < 10,
    ensures
        text@ == seq![digit(d as nat)],
{
    proof {
        reveal_strlit("0");
        reveal_strlit("1");
        reveal_strlit("2");
        reveal_strlit("3");
        reveal_strlit("4");
        reveal_strlit("5");
        reveal_strlit("6");
        reveal_strlit("7");
        reveal_strlit("8");
        reveal_strlit("9");
    }
    let text: &'static str = if d == 0 {
        "0"
    } else if d == 1 {
        "1"
    } else if d == 2 {
        "2"
    } else if d == 3 {
        "3"
    } else if d == 4 {
        "4"
    } else if d == 5 {
        "5"
    } else if d == 6 {
        "6"
    } else if d == 7 {
        "7"
    } else if d == 8 {
        "8"
    } else {
        "9"
    };
    assert(text@ =~= seq![digit(d as nat)]);
    text
}

/// Writes `n` in decimal notation.
pub fn decimal_text(n: usize) -> (text: String)
    ensures
        text@ == decimal(n as nat),
{
    let mut text: String = String::from_str(digit_text(n % 10));
    let mut rest: usize = n / 10;
    while rest > 0
        invariant
            rest == 0 ==> text@ == decimal(n as nat),
            rest > 0 ==> decimal(rest as nat) + text@ == decimal(n as nat),
        decreases rest,
    {
        let lead: String = String::from_str(digit_text(rest % 10));
        let ghost before = text@;
        text = lead.concat(text.as_str());
        proof {
            let digit_of_rest = seq![digit((rest % 10) as nat)];
            if rest < 10 {
                assert(decimal(rest as nat) == digit_of_rest);
            } else {
                assert(decimal(rest as nat) == decimal((rest / 10) as nat).push(
                    digit((rest % 10) as nat),
                ));
                assert(decimal((rest / 10) as nat) + (digit_of_rest + before) =~= decimal(
                    (rest / 10) as nat,
                ).push(digit((rest % 10) as nat)) + before);
            }
        }
        rest = rest / 10;
    }
    text
}

/// A configuration error: a message, and optionally the place it comes from.
#[derive(Debug, Clone)]
pub struct Error {
    message: String,
    header: Option<String>,
}

impl Error {
    /// The message of the error.
    pub closed spec fn message(&self) -> Seq<char> {
        self.message@
    }

    /// The label of the place the error comes from, where it has one.
    pub closed spec fn header(&self) -> Option<Seq<char>> {
        match self.header {
            Some(label) => Some(label@),
            None => None,
        }
    }

    /// The one-line text of the error: a fixed prefix, the message, and the
    /// header behind a separator where there is one.
    pub open spec fn rendered(&self) -> Seq<char> {
        match self.header() {
            None => "PSO Handler Error: "@ + self.message(),
            Some(label) => "PSO Handler Error: "@ + self.message() + " == Header: "@ + label,
        }
    }

    /// An error with the given message and header.
    pub fn new(message: String, header: Option<String>) -> (error: Error)
        ensures
            error.message() == message@,
            error.header() == match header {
                Some(label) => Some(label@),
                None => None,
            },
    {
        Error { message, header }
    }

    /// The error for velocity limits that cover `provided` coordinates in a swarm
    /// declared with `dimension`.
    pub fn dimension_mismatch(provided: usize, dimension: usize) -> (error: Error)
        ensures
            error.message() == mismatch_message(provided as nat, dimension as nat),
            error.header() == Some(constructor_label()),
    {
        let mut message: String = String::from_str("Position field ");
        let provided_text: String = decimal_text(provided);
        message.append(provided_text.as_str());
        message.append(" does not match dimension ");
        let dimension_text: String = decimal_text(dimension);
        message.append(dimension_text.as_str());
        Error::new(message, Some(String::from_str("BasicPsoHandler-new")))
    }

    /// The text of the error, see [`Error::rendered`].
    pub fn to_string(&self) -> (text: String)
        ensures
            text@ == self.rendered(),
    {
        let mut text: String = String::from_str("PSO Handler Error: ");
        text.append(self.message.as_str());
        match &self.header {
            None => {},
            Some(label) => {
                text.append(" == Header: ");
                text.append(label.as_str());
            },
        }
        text
    }
}

/// Compares the number of coordinates that the velocity limits cover with the
/// declared dimension: the swarm can be built exactly when they agree.
pub fn check_dimension(provided: usize, dimension: usize) -> (outcome: Result<(), Error>)
    ensures
        provided == dimension <==> outcome is Ok,
        outcome matches Err(error) ==> {
            &&& error.message() == mismatch_message(provided as nat, dimension as nat)
            &&& error.header() == Some(constructor_label())
        },
{
    if provided != dimension {
        Err(Error::dimension_mismatch(provided, dimension))
    } else {
        Ok(())
    }
}

} // verus!
