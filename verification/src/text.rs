//! Turning received bytes into text, and the lines that the server sends.

use vstd::prelude::*;
use vstd::utf8::*;

verus! {

/// `std::string::FromUtf8Error`, the error of `String::from_utf8`. Opaque.
#[verifier::external_type_specification]
#[verifier::external_body]
pub struct ExFromUtf8Error(std::string::FromUtf8Error);

/// `String::from_utf8` of the standard library: it succeeds exactly on valid
/// UTF-8, and the string it then returns is made of the bytes it was given.
pub assume_specification[ String::from_utf8 ](vec: Vec<u8>) -> (r: Result<
    String,
    std::string::FromUtf8Error,
>)
    ensures
        r is Ok <==> valid_utf8(vec@),
        r matches Ok(s) ==> encode_utf8(s@) == vec@,
;

/// The text that `bytes` spell, if they are valid UTF-8.
pub open spec fn text_of(bytes: Seq<u8>) -> Option<Seq<char>> {
    if valid_utf8(bytes) {
        Some(decode_utf8(bytes))
    } else {
        None
    }
}

/// Reads `bytes` as UTF-8 text; `None` when they are not valid UTF-8.
pub fn decode_text(bytes: Vec<u8>) -> (r: Option<String>)
    ensures
        match text_of(bytes@) {
            Some(text) => r matches Some(s) && s@ == text,
            None => r is None,
        },
{
    match String::from_utf8(bytes) {
        Ok(s) => {
            proof {
                encode_utf8_decode_utf8(s@);
            }
            Some(s)
        },
        Err(_) => None,
    }
}

/// The line that relays `text`, sent by the user called `name`.
pub open spec fn chat_line(name: Seq<char>, text: Seq<char>) -> Seq<char> {
    name + ": "@ + text
}

/// The line that announces the arrival of the user called `name`.
pub open spec fn connected_line(name: Seq<char>) -> Seq<char> {
    "User \""@ + name + "\" connected"@
}

/// The line that announces the departure of the user called `name`.
pub open spec fn disconnected_line(name: Seq<char>) -> Seq<char> {
    "User \""@ + name + "\" disconnected"@
}

/// Builds `<name>: <text>`.
pub fn format_chat_line(name: &str, text: &str) -> (r: String)
    ensures
        r@ == chat_line(name@, text@),
{
    let mut line = name.to_owned();
    line.append(": ");
    line.append(text);
    line
}

/// Builds `User "<name>" connected`.
pub fn format_connected(name: &str) -> (r: String)
    ensures
        r@ == connected_line(name@),
{
    let mut line = "User \"".to_owned();
    line.append(name);
    line.append("\" connected");
    line
}

/// Builds `User "<name>" disconnected`.
pub fn format_disconnected(name: &str) -> (r: String)
    ensures
        r@ == disconnected_line(name@),
{
    let mut line = "User \"".to_owned();
    line.append(name);
    line.append("\" disconnected");
    line
}

} // verus!
