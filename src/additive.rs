use std::str::FromStr;
use vstd::prelude::*;
use crate::text::str_equals;

verus! {

/// The waveform of an additive oscillator.
#[derive(PartialEq, Eq, Structural, Copy, Clone, Debug)]
pub enum Function {
    SIN,
    TRI,
    SAWUP,
    SAWDOWN,
    SQUARE,
}

/// The waveform that a name in a patch stands for.
pub open spec fn function_named(s: Seq<char>) -> Option<Function> {
    if s == "sin"@ {
        Some(Function::SIN)
    } else if s == "tri"@ {
        Some(Function::TRI)
    } else if s == "sawup"@ {
        Some(Function::SAWUP)
    } else if s == "sawdown"@ {
        Some(Function::SAWDOWN)
    } else if s == "square"@ {
        Some(Function::SQUARE)
    } else {
        None
    }
}

/// The message given for a name that is no waveform.
pub open spec fn function_error_text(s: Seq<char>) -> Seq<char> {
    "unrecognized function '"@ + s + "'"@
}

impl Function {
    /// The waveform named `s`: one of `sin`, `tri`, `sawup`, `sawdown` and
    /// `square`.
    pub fn from_name(s: &str) -> (r: Result<Function, String>)
        ensures
            match function_named(s@) {
                Some(f) => r == Ok::<Function, String>(f),
                None => r is Err && r->Err_0@ == function_error_text(s@),
            },
    {
        if str_equals(s, "sin") {
            return Ok(Function::SIN);
        }
        if str_equals(s, "tri") {
            return Ok(Function::TRI);
        }
        if str_equals(s, "sawup") {
            return Ok(Function::SAWUP);
        }
        if str_equals(s, "sawdown") {
            return Ok(Function::SAWDOWN);
        }
        if str_equals(s, "square") {
            return Ok(Function::SQUARE);
        }
        let mut msg = "unrecognized function '".to_owned();
        msg.append(s);
        msg.append("'");
        Err(msg)
    }
}

impl Default for Function {
    fn default() -> (r: Self)
        ensures
            r == Function::SIN,
    {
        Function::SIN
    }
}

impl FromStr for Function {
    type Err = String;

    fn from_str(s: &str) -> Result<Self, Self::Err> {
        Function::from_name(s)
    }
}

} // verus!
