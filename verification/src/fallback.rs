use vstd::prelude::*;

verus! {

/// A lower-case hexadecimal digit.
pub open spec fn hex_digit_lower(d: int) -> char {
    if d < 10 {
        (d + 48) as char
    } else {
        (d + 87) as char
    }
}

/// How `serde_json` writes one character inside a JSON string: `"` and `\`
/// escaped by `\`, the control characters with a short escape as `\b`, `\t`,
/// `\n`, `\f`, `\r`, the other control characters as `\u00xx`, and every
/// other character as it is.
pub open spec fn json_escape_char(c: char) -> Seq<char> {
    if c == '"' {
        seq!['\\', '"']
    } else if c == '\\' {
        seq!['\\', '\\']
    } else if c == '\u{8}' {
        seq!['\\', 'b']
    } else if c == '\t' {
        seq!['\\', 't']
    } else if c == '\n' {
        seq!['\\', 'n']
    } else if c == '\u{c}' {
        seq!['\\', 'f']
    } else if c == '\r' {
        seq!['\\', 'r']
    } else if (c as u32) < 0x20 {
        seq!['\\', 'u', '0', '0', hex_digit_lower(c as int / 16), hex_digit_lower(c as int % 16)]
    } else {
        seq![c]
    }
}

/// The escaped characters of a string.
pub open spec fn json_escape(s: Seq<char>) -> Seq<char>
    decreases s.len(),
{
    if s.len() == 0 {
        Seq::empty()
    } else {
        json_escape_char(s[0]) + json_escape(s.drop_first())
    }
}

/// A string as a JSON string literal.
pub open spec fn json_string_literal(s: Seq<char>) -> Seq<char> {
    seq!['"'] + json_escape(s) + seq!['"']
}

#[verifier::external_type_specification]
#[verifier::external_body]
pub struct ExJsonError(serde_json::Error);

/// `serde_json::to_string` on a string. Its source writes the string between
/// quotes, escaping by the table stated in [`json_escape_char`], into a
/// `Vec<u8>` that cannot fail; the contract claims success and that text.
#[verifier::external_body]
fn json_quote(s: &String) -> (r: Result<String, serde_json::Error>)
    ensures
        r is Ok,
        r matches Ok(t) ==> t@ == json_string_literal(s@),
{
    serde_json::to_string(s)
}

/// The script run in the embedded official site before its own code: it
/// stores the session token under `token` in `sessionStorage`.
pub open spec fn official_fallback_script_spec(token: Seq<char>) -> Seq<char> {
    "try{window.sessionStorage.setItem('token', "@ + json_string_literal(token) + ");}catch(e){}"@
}

/// Builds the initialization script that carries the app's token into the
/// embedded official site, the token written as a JSON string literal so that
/// no token can break out of it.
pub fn official_fallback_script(token: &String) -> (r: String)
    ensures
        r@ == official_fallback_script_spec(token@),
{
    let quoted = match json_quote(token) {
        Ok(q) => q,
        Err(_) => String::new(),
    };
    let mut script = "try{window.sessionStorage.setItem('token', ".to_owned();
    script.append(quoted.as_str());
    script.append(");}catch(e){}");
    script
}

/// The value of a lower-case hexadecimal digit.
pub open spec fn hex_value_lower(c: char) -> Option<int> {
    if '0' <= c <= '9' {
        Some(c as int - 48)
    } else if 'a' <= c <= 'f' {
        Some(c as int - 87)
    } else {
        None
    }
}

/// The character and the length of the escape that starts `t`, for the
/// escapes `serde_json` writes.
pub open spec fn escape_at_start(t: Seq<char>) -> Option<(char, int)> {
    if t.len() < 2 || t[0] != '\\' {
        None
    } else if t[1] == '"' {
        Some(('"', 2))
    } else if t[1] == '\\' {
        Some(('\\', 2))
    } else if t[1] == 'b' {
        Some(('\u{8}', 2))
    } else if t[1] == 't' {
        Some(('\t', 2))
    } else if t[1] == 'n' {
        Some(('\n', 2))
    } else if t[1] == 'f' {
        Some(('\u{c}', 2))
    } else if t[1] == 'r' {
        Some(('\r', 2))
    } else if t[1] == 'u' && t.len() >= 6 && t[2] == '0' && t[3] == '0' && hex_value_lower(t[4]) is Some
        && hex_value_lower(t[5]) is Some && hex_value_lower(t[4])->0 * 16 + hex_value_lower(t[5])->0 < 0x20 {
        Some(((hex_value_lower(t[4])->0 * 16 + hex_value_lower(t[5])->0) as char, 6))
    } else {
        None
    }
}

/// Reads the body of a JSON string literal back: escapes are decoded, and a
/// raw `"`, a lone `\` or a raw control character makes it no string body
/// (`None`). A body that reads back holds no quote that ends the literal.
pub open spec fn json_unescape(t: Seq<char>) -> Option<Seq<char>>
    decreases t.len(),
{
    if t.len() == 0 {
        Some(Seq::empty())
    } else if t[0] == '\\' {
        match escape_at_start(t) {
            Some((c, k)) => if 2 <= k <= t.len() {
                match json_unescape(t.skip(k)) {
                    Some(r) => Some(seq![c] + r),
                    None => None,
                }
            } else {
                None
            },
            None => None,
        }
    } else if t[0] == '"' || (t[0] as u32) < 0x20 {
        None
    } else {
        match json_unescape(t.drop_first()) {
            Some(r) => Some(seq![t[0]] + r),
            None => None,
        }
    }
}

/// Reading back the escape of one character, followed by any body, gives the
/// character before what the rest reads back as.
proof fn lemma_unescape_one(c: char, rest: Seq<char>)
    ensures
        json_unescape(json_escape_char(c) + rest) == match json_unescape(rest) {
            Some(r) => Some(seq![c] + r),
            None => None::<Seq<char>>,
        },
{
    let e = json_escape_char(c);
    let t = e + rest;
    assert(t.skip(e.len() as int) =~= rest);
    if (c as u32) < 0x20 && c != '\u{8}' && c != '\t' && c != '\n' && c != '\u{c}' && c != '\r' {
        let hi = c as int / 16;
        let lo = c as int % 16;
        assert(0 <= hi < 2);
        assert(0 <= lo < 16);
        assert(hex_value_lower(hex_digit_lower(hi)) == Some(hi));
        assert(hex_value_lower(hex_digit_lower(lo)) == Some(lo));
        assert(t[4] == hex_digit_lower(hi));
        assert(t[5] == hex_digit_lower(lo));
        assert((hi * 16 + lo) as char == c);
    } else if c != '"' && c != '\\' && (c as u32) >= 0x20 {
        assert(t.drop_first() =~= rest);
    }
}

/// The token reads back whole from its literal: the escaped text is a
/// well-formed JSON string body (so no quote in it ends the literal early)
/// and it decodes to the token exactly.
pub proof fn lemma_token_reads_back(token: Seq<char>)
    ensures
        json_unescape(json_escape(token)) == Some(token),
        official_fallback_script_spec(token) == "try{window.sessionStorage.setItem('token', "@ + seq!['"']
            + json_escape(token) + seq!['"'] + ");}catch(e){}"@,
    decreases token.len(),
{
    if token.len() > 0 {
        lemma_token_reads_back(token.drop_first());
        lemma_unescape_one(token[0], json_escape(token.drop_first()));
        assert(seq![token[0]] + token.drop_first() =~= token);
    } else {
        assert(json_escape(token) =~= Seq::<char>::empty());
    }
    assert(official_fallback_script_spec(token) =~= "try{window.sessionStorage.setItem('token', "@ + seq!['"']
        + json_escape(token) + seq!['"'] + ");}catch(e){}"@);
}

} // verus!
