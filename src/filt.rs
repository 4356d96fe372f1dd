use std::str::FromStr;
use vstd::prelude::*;
use crate::text::str_equals;

verus! {

/// The response shape of a biquad filter.
#[derive(PartialEq, Eq, Structural, Copy, Clone, Debug)]
pub enum FiltType {
    LP,
    BP,
    Notch,
    HP,
    LowShelf,
    CenterShelf,
    HighShelf,
}

/// The filter type that a name in a patch stands for.
pub open spec fn filt_type_named(s: Seq<char>) -> Option<FiltType> {
    if s == "lp"@ {
        Some(FiltType::LP)
    } else if s == "bp"@ {
        Some(FiltType::BP)
    } else if s == "notch"@ {
        Some(FiltType::Notch)
    } else if s == "hp"@ {
        Some(FiltType::HP)
    } else if s == "lowshelf"@ {
        Some(FiltType::LowShelf)
    } else if s == "centershelf"@ {
        Some(FiltType::CenterShelf)
    } else if s == "highshelf"@ {
        Some(FiltType::HighShelf)
    } else {
        None
    }
}

/// The message given for a name that is no filter type.
pub open spec fn filt_type_error_text(s: Seq<char>) -> Seq<char> {
    "unrecognized filttype '"@ + s + "'"@
}

impl FiltType {
    /// The filter type named `s`: one of `lp`, `bp`, `notch`, `hp`,
    /// `lowshelf`, `centershelf` and `highshelf`.
    pub fn from_name(s: &str) -> (r: Result<FiltType, String>)
        ensures
            match filt_type_named(s@) {
                Some(f) => r == Ok::<FiltType, String>(f),
                None => r is Err && r->Err_0@ == filt_type_error_text(s@),
            },
    {
        if str_equals(s, "lp") {
            return Ok(FiltType::LP);
        }
        if str_equals(s, "bp") {
            return Ok(FiltType::BP);
        }
        if str_equals(s, "notch") {
            return Ok(FiltType::Notch);
        }
        if str_equals(s, "hp") {
            return Ok(FiltType::HP);
        }
        if str_equals(s, "lowshelf") {
            return Ok(FiltType::LowShelf);
        }
        if str_equals(s, "centershelf") {
            return Ok(FiltType::CenterShelf);
        }
        if str_equals(s, "highshelf") {
            return Ok(FiltType::HighShelf);
        }
        let mut msg = "unrecognized filttype '".to_owned();
        msg.append(s);
        msg.append("'");
        Err(msg)
    }
}

impl Default for FiltType {
    fn default() -> (r: Self)
        ensures
            r == FiltType::LP,
    {
        FiltType::LP
    }
}

impl FromStr for FiltType {
    type Err = String;

    fn from_str(s: &str) -> Result<Self, Self::Err> {
        FiltType::from_name(s)
    }
}

} // verus!
