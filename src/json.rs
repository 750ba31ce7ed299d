//! The text files that a patch writes: the entry package's descriptor and the
//! injector script. Strings inside them are encoded by serde_json.
use vstd::prelude::*;

verus! {

/// The lowercase hexadecimal digit of `n` (below 16).
pub open spec fn hex_digit(n: int) -> char {
    "0123456789abcdef"@[n]
}

/// How a JSON string literal writes the character `c`.
pub open spec fn json_escape_char(c: char) -> Seq<char> {
    if c == '"' {
        seq!['\\', '"']
    } else if c == '\\' {
        seq!['\\', '\\']
    } else if c == '\x08' {
        seq!['\\', 'b']
    } else if c == '\t' {
        seq!['\\', 't']
    } else if c == '\n' {
        seq!['\\', 'n']
    } else if c == '\x0c' {
        seq!['\\', 'f']
    } else if c == '\r' {
        seq!['\\', 'r']
    } else if (c as u32) < 0x20 {
        seq!['\\', 'u', '0', '0', hex_digit((c as u32) as int / 16), hex_digit((c as u32) as int % 16)]
    } else {
        seq![c]
    }
}

pub open spec fn json_escape(s: Seq<char>) -> Seq<char>
    decreases s.len(),
{
    if s.len() == 0 {
        seq![]
    } else {
        json_escape(s.drop_last()) + json_escape_char(s.last())
    }
}

/// The JSON string literal of `s`.
pub open spec fn json_string(s: Seq<char>) -> Seq<char> {
    seq!['"'] + json_escape(s) + seq!['"']
}

/// Relies on serde_json::to_string on a `str`: it writes a quote, then each
/// character, escaping `"`, `\` and the control characters below 0x20 (`\b`,
/// `\t`, `\n`, `\f`, `\r` by name, the others as `\u00XX` in lowercase hex),
/// then a quote. Its writer is a `Vec`, so it does not fail on a `str`.
#[verifier::external_body]
fn json_string_of(s: &str) -> (r: String)
    ensures
        r@ == json_string(s@),
{
    match serde_json::to_string(s) {
        Ok(t) => t,
        Err(_) => String::new(),
    }
}

/// The descriptor of the entry package that replaces the client's archive.
pub open spec fn package_json_spec(name: Seq<char>) -> Seq<char> {
    "{\"main\":"@ + json_string("./injector.js"@) + ",\"name\":"@ + json_string(name)
        + ",\"private\":true}"@
}

/// The loader script: three constants, then the payload.
pub open spec fn injector_script_spec(injector: Seq<char>, payload: Seq<char>) -> Seq<char> {
    "const MOONLIGHT_INJECTOR = "@ + json_string(injector) + ";\nconst PATCHED_ASAR = "@
        + json_string("_app.asar"@) + ";\nconst DOWNLOAD_DIR = "@ + json_string("dist"@)
        + ";\n"@ + payload
}

/// `{"main":"./injector.js","name":<name>,"private":true}`, keys in order.
pub fn package_json(name: &str) -> (r: String)
    ensures
        r@ == package_json_spec(name@),
{
    let mut r = String::from_str("{\"main\":");
    r.append(json_string_of("./injector.js").as_str());
    r.append(",\"name\":");
    r.append(json_string_of(name).as_str());
    r.append(",\"private\":true}");
    r
}

/// The script that loads moonlight's injector at `injector`, followed by
/// `payload`.
pub fn injector_script(injector: &str, payload: &str) -> (r: String)
    ensures
        r@ == injector_script_spec(injector@, payload@),
{
    let mut r = String::from_str("const MOONLIGHT_INJECTOR = ");
    r.append(json_string_of(injector).as_str());
    r.append(";\nconst PATCHED_ASAR = ");
    r.append(json_string_of("_app.asar").as_str());
    r.append(";\nconst DOWNLOAD_DIR = ");
    r.append(json_string_of("dist").as_str());
    r.append(";\n");
    r.append(payload);
    r
}

} // verus!
