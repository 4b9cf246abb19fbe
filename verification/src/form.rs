use vstd::prelude::*;
use vstd::utf8::encode_utf8;

verus! {

/// The bytes that the `application/x-www-form-urlencoded` serializer of the
/// `form_urlencoded` crate keeps as they are: `*`, `-`, `.`, `_` and ASCII
/// letters and digits.
pub open spec fn form_byte_kept(b: u8) -> bool {
    ||| b == 0x2A
    ||| b == 0x2D
    ||| b == 0x2E
    ||| 0x30 <= b <= 0x39
    ||| 0x41 <= b <= 0x5A
    ||| b == 0x5F
    ||| 0x61 <= b <= 0x7A
}

/// An upper-case hexadecimal digit.
pub open spec fn hex_digit_upper(d: int) -> char {
    if d < 10 {
        (d + 48) as char
    } else {
        (d + 55) as char
    }
}

/// How one byte is written: kept, a space as `+`, else `%XX` in upper case.
pub open spec fn form_byte(b: u8) -> Seq<char> {
    if form_byte_kept(b) {
        seq![b as char]
    } else if b == 0x20 {
        seq!['+']
    } else {
        seq!['%', hex_digit_upper(b as int / 16), hex_digit_upper(b as int % 16)]
    }
}

/// The encoding of a run of bytes.
pub open spec fn form_bytes(bs: Seq<u8>) -> Seq<char>
    decreases bs.len(),
{
    if bs.len() == 0 {
        Seq::empty()
    } else {
        form_byte(bs[0]) + form_bytes(bs.drop_first())
    }
}

/// The encoding of a name or a value: of its UTF-8 bytes.
pub open spec fn form_component(s: Seq<char>) -> Seq<char> {
    form_bytes(encode_utf8(s))
}

/// The encoding of one `name=value` pair.
pub open spec fn form_pair(p: (Seq<char>, Seq<char>)) -> Seq<char> {
    form_component(p.0) + seq!['='] + form_component(p.1)
}

/// The `application/x-www-form-urlencoded` text of a list of pairs: the
/// encoded pairs joined by `&`.
pub open spec fn form_urlencoded(pairs: Seq<(Seq<char>, Seq<char>)>) -> Seq<char>
    decreases pairs.len(),
{
    if pairs.len() == 0 {
        Seq::empty()
    } else if pairs.len() == 1 {
        form_pair(pairs[0])
    } else {
        form_urlencoded(pairs.drop_last()) + seq!['&'] + form_pair(pairs.last())
    }
}

#[verifier::external_type_specification]
#[verifier::external_body]
pub struct ExUrlencodedError(serde_urlencoded::ser::Error);

/// `serde_urlencoded::to_string` on a sequence of string pairs. Its source
/// serializes each pair with `form_urlencoded::Serializer::append_pair`,
/// which fails for no pair of strings; the contract claims that the call
/// succeeds and that the text is the encoding stated by [`form_urlencoded`].
#[verifier::external_body]
pub(crate) fn encode_form(pairs: &Vec<(String, String)>) -> (r: Result<String, serde_urlencoded::ser::Error>)
    ensures
        r is Ok,
        r matches Ok(s) ==> s@ == form_urlencoded(pairs.deep_view()),
{
    serde_urlencoded::to_string(pairs)
}

} // verus!
