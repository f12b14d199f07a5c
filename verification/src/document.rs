//! Documents of structured text, as a tree of plain values.
//!
//! The text is read by the `json` crate. What it makes of a text is copied
//! into a tree of this library's own, and the scene is decoded from that tree.
//! Looking something up in a tree never fails: what is not there reads as
//! null, as nothing, or as zero.

use json::JsonValue;
use vstd::prelude::*;
use vstd::utf8::encode_utf8;

verus! {

#[verifier::external_type_specification]
#[verifier::external_body]
pub struct ExJsonValue(json::JsonValue);

#[verifier::external_type_specification]
#[verifier::external_body]
pub struct ExJsonError(json::Error);

/// A number as a document holds it: a sign, a decimal mantissa and a decimal
/// exponent. `nan` marks a number that is none; a document read from text
/// holds no such number.
#[derive(Clone, Copy, Debug, PartialEq, Eq, Structural)]
pub struct Decimal {
    pub nan: bool,
    pub positive: bool,
    pub mantissa: u64,
    pub exponent: i16,
}

impl View for Decimal {
    type V = Decimal;

    open spec fn view(&self) -> Decimal {
        *self
    }
}

/// A key of an object, with what stands under it.
#[derive(Debug)]
pub struct Member {
    pub key: String,
    pub value: Node,
}

/// A document, or a part of one.
#[derive(Debug)]
pub enum Node {
    Null,
    Bool(bool),
    Number(Decimal),
    Text(String),
    Array(Vec<Node>),
    Object(Vec<Member>),
}

/// What `json::parse` makes of `text`, as a tree; nothing where it reports an
/// error.
pub uninterp spec fn json_document(text: Seq<char>) -> Option<Node>;

/// What a value of the `json` crate holds, as a tree.
pub uninterp spec fn json_node(value: JsonValue) -> Node;

/// The most digits in a row that the text of a document may hold. The reader
/// counts the digits of a fraction in sixteen bits.
pub const DIGIT_LIMIT: usize = 32767;

/// Whether `byte` is a decimal digit.
pub open spec fn is_digit(byte: u8) -> bool {
    0x30 <= byte <= 0x39
}

/// How many digits in a row end just before place `end`.
pub open spec fn digit_run(bytes: Seq<u8>, end: int) -> nat
    decreases end,
{
    if end <= 0 || end > bytes.len() || !is_digit(bytes[end - 1]) {
        0
    } else {
        digit_run(bytes, end - 1) + 1
    }
}

/// Whether no more than `DIGIT_LIMIT` digits stand in a row anywhere.
pub open spec fn digits_bounded(bytes: Seq<u8>) -> bool {
    forall|end: int| 0 <= end <= bytes.len() ==> #[trigger] digit_run(bytes, end) <= DIGIT_LIMIT
}

/// The document that `text` holds: what the reader makes of it, and nothing
/// where the reader reports an error or the text holds too many digits in a
/// row.
pub open spec fn document_of(text: Seq<char>) -> Option<Node> {
    if digits_bounded(encode_utf8(text)) {
        json_document(text)
    } else {
        None
    }
}

/// Calls `json::parse`. The contract names the outcome: whether the text is
/// accepted, and which tree the value stands for, depend on the text alone.
/// Texts with a longer run of digits are left out: on a fraction of more than
/// 32768 digits the parser's count of them overflows.
#[verifier::external_body]
fn parse_json(text: &str) -> (r: Result<JsonValue, json::Error>)
    requires
        digits_bounded(encode_utf8(text@)),
    ensures
        r is Ok <==> json_document(text@) is Some,
        r is Ok ==> json_document(text@) == Some(json_node(r->Ok_0)),
{
    json::parse(text)
}

/// Copies a `json::JsonValue` into a tree, variant by variant: the short and
/// the long form of a string both become `Text`, a number is taken apart by
/// `Number::as_parts` and `Number::is_nan`, the items of an array and the
/// entries of an object keep their order. The contract names the tree.
#[verifier::external_body]
fn node_of(value: &JsonValue) -> (r: Node)
    ensures
        r == json_node(*value),
{
    match value {
        JsonValue::Null => Node::Null,
        JsonValue::Boolean(b) => Node::Bool(*b),
        JsonValue::Number(n) => {
            let (positive, mantissa, exponent) = n.as_parts();
            Node::Number(Decimal { nan: n.is_nan(), positive, mantissa, exponent })
        },
        JsonValue::Short(s) => Node::Text(s.as_str().to_string()),
        JsonValue::String(s) => Node::Text(s.clone()),
        JsonValue::Array(a) => Node::Array(a.iter().map(node_of).collect()),
        JsonValue::Object(o) => Node::Object(
            o.iter().map(|(k, v)| Member { key: k.to_string(), value: node_of(v) }).collect(),
        ),
    }
}

/// What stands under `key` among the members from place `from` on: the value
/// of the first member with that key, null where there is none.
pub open spec fn lookup(members: Seq<Member>, key: Seq<char>, from: int) -> Node
    decreases members.len() - from,
{
    if from < 0 || from >= members.len() {
        Node::Null
    } else if members[from].key@ == key {
        members[from].value
    } else {
        lookup(members, key, from + 1)
    }
}

impl Node {
    /// What stands under `key`: null in anything but an object, and in an
    /// object without that key.
    pub open spec fn entry(&self, key: Seq<char>) -> Node {
        match self {
            Node::Object(members) => lookup(members@, key, 0),
            _ => Node::Null,
        }
    }

    /// The items of an array; nothing for anything else.
    pub open spec fn items(&self) -> Seq<Node> {
        match self {
            Node::Array(items) => items@,
            _ => Seq::empty(),
        }
    }

    /// The number, where the node is one.
    pub open spec fn number(&self) -> Option<Decimal> {
        match self {
            Node::Number(n) => Some(*n),
            _ => None,
        }
    }

    /// Whether the node is null, false, zero or no number, an empty text, an
    /// empty array or an empty object.
    pub open spec fn blank(&self) -> bool {
        match self {
            Node::Null => true,
            Node::Bool(b) => !*b,
            Node::Number(n) => n.mantissa == 0 || n.nan,
            Node::Text(s) => s@.len() == 0,
            Node::Array(items) => items@.len() == 0,
            Node::Object(members) => members@.len() == 0,
        }
    }

    /// The number of items of an array or of members of an object; 0 for
    /// anything else.
    pub open spec fn count(&self) -> nat {
        match self {
            Node::Array(items) => items@.len(),
            Node::Object(members) => members@.len(),
            _ => 0,
        }
    }

    /// What stands under `key`, where the node is an object that has the key.
    pub fn get(&self, key: &str) -> (r: Option<&Node>)
        ensures
            match r {
                Some(node) => *node == self.entry(key@),
                None => self.entry(key@) == Node::Null,
            },
    {
        match self {
            Node::Object(members) => {
                let wanted = String::from_str(key);
                let mut i: usize = 0;
                while i < members.len()
                    invariant
                        wanted@ == key@,
                        i <= members@.len(),
                        self.entry(key@) == lookup(members@, key@, i as int),
                    decreases members@.len() - i,
                {
                    if members[i].key == wanted {
                        assert(lookup(members@, key@, i as int) == members@[i as int].value);
                        return Some(&members[i].value);
                    }
                    i += 1;
                }
                None
            },
            _ => None,
        }
    }

    /// The items, where the node is an array.
    pub fn members(&self) -> (r: Option<&Vec<Node>>)
        ensures
            match r {
                Some(items) => items@ == self.items(),
                None => self.items() == Seq::<Node>::empty(),
            },
    {
        match self {
            Node::Array(items) => Some(items),
            _ => None,
        }
    }

    /// The number, where the node is one.
    pub fn as_number(&self) -> (r: Option<Decimal>)
        ensures
            r == self.number(),
    {
        match self {
            Node::Number(n) => Some(*n),
            _ => None,
        }
    }

    /// Whether the node is null, false, zero or no number, an empty text, an
    /// empty array or an empty object.
    pub fn is_empty(&self) -> (r: bool)
        ensures
            r == self.blank(),
    {
        match self {
            Node::Null => true,
            Node::Bool(b) => !*b,
            Node::Number(n) => n.mantissa == 0 || n.nan,
            Node::Text(s) => s.as_str().is_empty(),
            Node::Array(items) => items.len() == 0,
            Node::Object(members) => members.len() == 0,
        }
    }

    /// The number of items of an array or of members of an object; 0 for
    /// anything else.
    pub fn len(&self) -> (r: usize)
        ensures
            r == self.count(),
    {
        match self {
            Node::Array(items) => items.len(),
            Node::Object(members) => members.len(),
            _ => 0,
        }
    }
}

/// Reads a document from structured text; nothing where the text is not
/// well-formed or holds more than `DIGIT_LIMIT` digits in a row.
pub fn parse_document(text: &str) -> (r: Option<Node>)
    ensures
        r == document_of(text@),
{
    if !has_bounded_digits(text.as_bytes()) {
        return None;
    }
    match parse_json(text) {
        Ok(value) => Some(node_of(&value)),
        Err(_) => None,
    }
}

/// Whether no more than `DIGIT_LIMIT` digits stand in a row anywhere.
pub fn has_bounded_digits(bytes: &[u8]) -> (r: bool)
    ensures
        r == digits_bounded(bytes@),
{
    let mut run: usize = 0;
    let mut i: usize = 0;
    while i < bytes.len()
        invariant
            i <= bytes@.len(),
            run == digit_run(bytes@, i as int),
            run <= DIGIT_LIMIT,
            forall|end: int| 0 <= end <= i ==> #[trigger] digit_run(bytes@, end) <= DIGIT_LIMIT,
        decreases bytes@.len() - i,
    {
        if 0x30 <= bytes[i] && bytes[i] <= 0x39 {
            run += 1;
        } else {
            run = 0;
        }
        i += 1;
        assert(run == digit_run(bytes@, i as int));
        if run > DIGIT_LIMIT {
            return false;
        }
    }
    true
}

} // verus!
