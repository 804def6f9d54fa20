//! The fatal error, and how the message loop runs into it.

use vstd::prelude::*;

verus! {

/// Fatal, top-level error.
#[derive(Debug, PartialEq, Eq)]
pub struct AppError(pub String);

impl From<String> for AppError {
    fn from(s: String) -> (e: Self) {
        AppError(s)
    }
}

impl vstd::std_specs::convert::FromSpecImpl<String> for AppError {
    open spec fn obeys_from_spec() -> bool {
        true
    }

    open spec fn from_spec(s: String) -> Self {
        AppError(s)
    }
}

impl AppError {
    /// The text shown to the user: the message, unadorned.
    pub fn message(&self) -> (text: String)
        ensures
            text == self.0,
    {
        self.0.clone()
    }
}

/// The failure to create the window that input is marshaled to.
pub fn message_window_error() -> (e: AppError)
    ensures
        e.0@ == "failed to create the message window"@,
{
    AppError("failed to create the message window".to_owned())
}

/// What the message loop does with one return of the message fetch.
#[derive(Debug, PartialEq, Eq)]
pub enum LoopStep {
    /// A message is there: translate and dispatch it.
    Dispatch,
    /// The quit message: leave the loop and shut down.
    Exit,
    /// The fetch failed.
    Fail(AppError),
}

/// A decimal digit.
pub open spec fn digit(d: int) -> char {
    if d == 0 {
        '0'
    } else if d == 1 {
        '1'
    } else if d == 2 {
        '2'
    } else if d == 3 {
        '3'
    } else if d == 4 {
        '4'
    } else if d == 5 {
        '5'
    } else if d == 6 {
        '6'
    } else if d == 7 {
        '7'
    } else if d == 8 {
        '8'
    } else {
        '9'
    }
}

/// A natural number in decimal, without leading zeros.
pub open spec fn digits(n: nat) -> Seq<char>
    decreases n,
{
    if n < 10 {
        seq![digit(n as int)]
    } else {
        digits(n / 10).push(digit((n % 10) as int))
    }
}

/// An integer in decimal, with a minus sign where it is negative.
pub open spec fn decimal(n: int) -> Seq<char> {
    if n < 0 {
        seq!['-'] + digits((-n) as nat)
    } else {
        digits(n as nat)
    }
}

fn digit_text(d: u64) -> (text: String)
    requires
        d < 10,
    ensures
        text@ == seq![digit(d as int)],
{
    proof {
        reveal_strlit("0");
        reveal_strlit("1");
        reveal_strlit("2");
        reveal_strlit("3");
        reveal_strlit("4");
        reveal_strlit("5");
        reveal_strlit("6");
        reveal_strlit("7");
        reveal_strlit("8");
        reveal_strlit("9");
    }
    let text: &str = if d == 0 {
        "0"
    } else if d == 1 {
        "1"
    } else if d == 2 {
        "2"
    } else if d == 3 {
        "3"
    } else if d == 4 {
        "4"
    } else if d == 5 {
        "5"
    } else if d == 6 {
        "6"
    } else if d == 7 {
        "7"
    } else if d == 8 {
        "8"
    } else {
        "9"
    };
    assert(text@ =~= seq![digit(d as int)]);
    text.to_owned()
}

fn digits_text(n: u64) -> (text: String)
    ensures
        text@ == digits(n as nat),
    decreases n,
{
    if n < 10 {
        digit_text(n)
    } else {
        let mut text = digits_text(n / 10);
        let last = digit_text(n % 10);
        text.append(last.as_str());
        assert(text@ =~= digits(n as nat));
        text
    }
}

/// Decide on the return value of the message fetch: positive for a
/// message, zero for the quit message, negative for a failure.
pub fn message_step(r: i32) -> (step: LoopStep)
    ensures
        r > 0 ==> step is Dispatch,
        r == 0 ==> step is Exit,
        r < 0 ==> (step matches LoopStep::Fail(e) && e.0@ == "GetMessageW failed: "@ + decimal(
            r as int,
        )),
{
    if r > 0 {
        LoopStep::Dispatch
    } else if r == 0 {
        LoopStep::Exit
    } else {
        let mut text: String = "GetMessageW failed: ".to_owned();
        text.append("-");
        let size: i64 = -(r as i64);
        let number = digits_text(size as u64);
        text.append(number.as_str());
        proof {
            reveal_strlit("-");
            assert("-"@ =~= seq!['-']);
            assert(text@ =~= "GetMessageW failed: "@ + decimal(r as int));
        }
        LoopStep::Fail(AppError(text))
    }
}

} // verus!
