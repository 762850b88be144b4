//! Error reporting for the shell that drives the scanner.
use vstd::prelude::*;

verus! {

/// The text of decimal digit `d`.
pub open spec fn digit_text(d: nat) -> Seq<char> {
    if d == 0 {
        "0"@
    } else if d == 1 {
        "1"@
    } else if d == 2 {
        "2"@
    } else if d == 3 {
        "3"@
    } else if d == 4 {
        "4"@
    } else if d == 5 {
        "5"@
    } else if d == 6 {
        "6"@
    } else if d == 7 {
        "7"@
    } else if d == 8 {
        "8"@
    } else {
        "9"@
    }
}

/// `n` written in decimal, without leading zeros.
pub open spec fn decimal(n: nat) -> Seq<char>
    decreases n,
{
    if n < 10 {
        digit_text(n)
    } else {
        decimal(n / 10) + digit_text(n % 10)
    }
}

/// The diagnostic line `[line <n>] Error<where>: <message>`.
pub open spec fn report_text(line: nat, location: Seq<char>, message: Seq<char>) -> Seq<char> {
    "[line "@ + decimal(line) + "] Error"@ + location + ": "@ + message
}

fn digit_str(d: usize) -> (r: &'static str)
    requires
        d < 10,
    ensures
        r@ == digit_text(d as nat),
{
    if d == 0 {
        "0"
    } else if d == 1 {
        "1"
    } else if d == 2 {
        "2"
    } else if d == 3 {
        "3"
    } else if d == 4 {
        "4"
    } else if d == 5 {
        "5"
    } else if d == 6 {
        "6"
    } else if d == 7 {
        "7"
    } else if d == 8 {
        "8"
    } else {
        "9"
    }
}

/// Appends `n` in decimal to `out`.
fn append_decimal(out: &mut String, n: usize)
    ensures
        final(out)@ == old(out)@ + decimal(n as nat),
    decreases n,
{
    let ghost start = out@;
    if n >= 10 {
        append_decimal(out, n / 10);
    }
    out.append(digit_str(n % 10));
    assert(out@ =~= start + decimal(n as nat));
}

/// The state the driving shell keeps across runs: whether an error has been
/// reported.
pub struct Lox {
    pub had_error: bool,
}

impl Default for Lox {
    fn default() -> (r: Lox)
        ensures
            !r.had_error,
    {
        Lox { had_error: false }
    }
}

impl Lox {
    /// Records an error on `line` and returns its diagnostic line.
    pub fn error(&mut self, line: usize, message: &String) -> (r: String)
        ensures
            final(self).had_error,
            r@ == report_text(line as nat, Seq::empty(), message@),
    {
        proof {
            reveal_strlit("");
        }
        self.report(line, "", message.as_str())
    }

    fn report(&mut self, line: usize, location: &str, message: &str) -> (r: String)
        ensures
            final(self).had_error,
            r@ == report_text(line as nat, location@, message@),
    {
        let mut r = String::from_str("[line ");
        append_decimal(&mut r, line);
        r.append("] Error");
        r.append(location);
        r.append(": ");
        r.append(message);
        self.had_error = true;
        r
    }
}

} // verus!
