use std::str::FromStr;
use vstd::prelude::*;
use crate::text::find_char;

verus! {

/// The message given when the value `val` of the parameter `name` cannot be
/// read.
pub open spec fn parse_error_text(name: Seq<char>, val: Seq<char>) -> Seq<char> {
    "can't parse "@ + name + " '"@ + val
}

/// The message given when `s` does not name a terminal of the wire end
/// `name`.
pub open spec fn terminal_error_text(name: Seq<char>, s: Seq<char>) -> Seq<char> {
    "bad terminal format for wire "@ + name + " '"@ + s + "'"@
}

/// Relies on `str::parse`, through the `FromStr` impl of `T`: whether and
/// how the text reads as a `T` is that impl's own.
#[verifier::external_body]
fn read_value<T: FromStr>(val: &str) -> (r: Option<T>) {
    val.parse::<T>().ok()
}

/// What `parse` returns once the text has been read: the value, or the
/// message naming the parameter and the text.
pub fn parse_result<T>(name: &str, val: &str, read: Option<T>) -> (r: Result<T, String>)
    ensures
        match read {
            Some(v) => r == Ok::<T, String>(v),
            None => r is Err && r->Err_0@ == parse_error_text(name@, val@),
        },
{
    match read {
        Some(v) => Ok(v),
        None => {
            let mut msg = "can't parse ".to_owned();
            msg.append(name);
            msg.append(" '");
            msg.append(val);
            Err(msg)
        },
    }
}

/// Reads the value `val` of the parameter `name` as a `T`. On failure the
/// message names the parameter and the text.
pub fn parse<T: FromStr>(name: &str, val: &str) -> (r: Result<T, String>)
    ensures
        r is Err ==> r->Err_0@ == parse_error_text(name@, val@),
{
    let read = read_value::<T>(val);
    parse_result(name, val, read)
}

/// Splits a wire end written `module:terminal` at its first colon. `name`
/// says which end of the wire it is, for the message.
pub fn parse_terminal<'a>(name: &str, s: &'a str) -> (r: Result<(&'a str, &'a str), String>)
    ensures
        r is Ok <==> s@.contains(':'),
        r is Ok ==> {
            let (m, t) = r->Ok_0;
            &&& s@ == m@ + seq![':'] + t@
            &&& !m@.contains(':')
        },
        r is Err ==> r->Err_0@ == terminal_error_text(name@, s@),
{
    match find_char(s, ':') {
        Some(i) => {
            let n = s.unicode_len();
            let m = s.substring_char(0, i);
            let t = s.substring_char(i + 1, n);
            assert(s@ =~= m@ + seq![':'] + t@);
            Ok((m, t))
        },
        None => {
            let mut msg = "bad terminal format for wire ".to_owned();
            msg.append(name);
            msg.append(" '");
            msg.append(s);
            msg.append("'");
            Err(msg)
        },
    }
}

} // verus!
