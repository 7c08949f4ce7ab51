//! JSON values as the agent carries them: what kind of value it is, and the text it was read from.
use vstd::prelude::*;
use vstd::string::*;
use vstd::utf8::*;

verus! {

/// The kinds of JSON value.
#[derive(Debug, Clone, Copy, PartialEq, Eq, Structural)]
pub enum JsonKind {
    Null,
    Bool,
    Number,
    Text,
    Array,
    Object,
}

/// A JSON value: its kind, and the JSON text that denotes it.
#[derive(Debug)]
pub struct Json {
    pub kind: JsonKind,
    pub text: String,
}

/// A JSON value, with its text as a sequence of characters.
pub struct JsonView {
    pub kind: JsonKind,
    pub text: Seq<char>,
}

impl View for Json {
    type V = JsonView;

    open spec fn view(&self) -> JsonView {
        JsonView { kind: self.kind, text: self.text@ }
    }
}

impl JsonView {
    /// The text holds one JSON value of this kind and nothing behind it.
    pub open spec fn well_formed(self) -> bool {
        first_json_value(self.text) matches Some((kind, end)) && kind == self.kind && end
            == encode_utf8(self.text).len()
    }
}

impl Json {
    /// Whether this is `null`.
    pub fn is_null(&self) -> (r: bool)
        ensures
            r == (self@.kind == JsonKind::Null),
            r == (self.kind == JsonKind::Null),
    {
        self.kind == JsonKind::Null
    }

    /// Whether this is an object.
    pub fn is_object(&self) -> (r: bool)
        ensures
            r == (self@.kind == JsonKind::Object),
            r == (self.kind == JsonKind::Object),
    {
        self.kind == JsonKind::Object
    }
}

/// What the first step of `serde_json`'s stream deserializer finds in a text: the kind of the
/// value that the text starts with and the number of UTF-8 bytes read up to the value's end, or
/// `None` where the text does not start with a JSON value.
pub uninterp spec fn first_json_value(text: Seq<char>) -> Option<(JsonKind, usize)>;

/// Reads the JSON value that `text` starts with, by `serde_json::Deserializer::from_str`, one
/// `next` of its `into_iter::<serde_json::Value>()`, and that stream's `byte_offset`.
///
/// Claimed of them: what they find depends on the text alone; the offset behind a value that
/// was found falls between two characters of the text; and an object ends where its closing brace
/// stands, so that the text up to there, read alone, gives the same. What counts as JSON is left
/// to the name.
#[verifier::external_body]
pub(crate) fn read_first_json_value(text: &str) -> (r: Option<(JsonKind, usize)>)
    ensures
        r == first_json_value(text@),
        r matches Some((_, end)) ==> is_char_boundary(encode_utf8(text@), end as int),
        r matches Some((JsonKind::Object, end)) ==> first_json_value(
            head_spec(text@, end as int),
        ) == r,
{
    let mut stream = serde_json::Deserializer::from_str(text).into_iter::<serde_json::Value>();
    let kind = match stream.next() {
        Some(Ok(serde_json::Value::Null)) => JsonKind::Null,
        Some(Ok(serde_json::Value::Bool(_))) => JsonKind::Bool,
        Some(Ok(serde_json::Value::Number(_))) => JsonKind::Number,
        Some(Ok(serde_json::Value::String(_))) => JsonKind::Text,
        Some(Ok(serde_json::Value::Array(_))) => JsonKind::Array,
        Some(Ok(serde_json::Value::Object(_))) => JsonKind::Object,
        Some(Err(_)) | None => return None,
    };
    Some((kind, stream.byte_offset()))
}

/// The characters of `text` that its first `end` bytes encode.
pub open spec fn head_spec(text: Seq<char>, end: int) -> Seq<char> {
    decode_utf8(encode_utf8(text).subrange(0, end))
}

/// The characters of `text` that the bytes from `end` on encode.
pub open spec fn tail_spec(text: Seq<char>, end: int) -> Seq<char> {
    decode_utf8(encode_utf8(text).subrange(end, encode_utf8(text).len() as int))
}

/// Splits `text` behind its first `end` bytes.
pub fn split_text<'a>(text: &'a str, end: usize) -> (r: (&'a str, &'a str))
    requires
        is_char_boundary(encode_utf8(text@), end as int),
    ensures
        r.0@ == head_spec(text@, end as int),
        r.1@ == tail_spec(text@, end as int),
        text@ == r.0@ + r.1@,
{
    let (head, tail) = text.split_at(end);
    proof {
        encode_utf8_decode_utf8(head@);
        encode_utf8_decode_utf8(tail@);
        lemma_split_text(text@, end as int);
    }
    (head, tail)
}

/// Splitting a text loses nothing, and the head takes up exactly the bytes before the split.
pub proof fn lemma_split_text(text: Seq<char>, end: int)
    requires
        is_char_boundary(encode_utf8(text), end),
    ensures
        text == head_spec(text, end) + tail_spec(text, end),
        0 <= end <= encode_utf8(text).len(),
        encode_utf8(head_spec(text, end)) == encode_utf8(text).subrange(0, end),
{
    let bytes = encode_utf8(text);
    encode_utf8_valid_utf8(text);
    encode_utf8_decode_utf8(text);
    lemma_boundary_in_bounds(bytes, end);
    valid_utf8_split(bytes, end);
    decode_utf8_split(bytes, end);
    decode_utf8_encode_utf8(bytes.subrange(0, end));
}

proof fn lemma_boundary_in_bounds(bytes: Seq<u8>, at: int)
    requires
        valid_utf8(bytes),
        is_char_boundary(bytes, at),
    ensures
        0 <= at <= bytes.len(),
{
}

} // verus!
