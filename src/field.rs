//! One `NAME:VALUE;` pair of the payload, and the escaping of its value.

use vstd::prelude::*;
use vstd::string::StrSliceExecFns;
use vstd::string::StringExecFns;
use base64::Engine;

verus! {

/// Characters that stand for themselves only after a backslash.
pub open spec fn is_special(c: char) -> bool {
    c == '\\' || c == ';' || c == ',' || c == '"' || c == ':'
}

/// What one character becomes in an escaped value.
pub open spec fn escape_char(c: char) -> Seq<char> {
    if is_special(c) {
        seq!['\\', c]
    } else {
        seq![c]
    }
}

/// A value with every special character preceded by a backslash.
pub open spec fn escaped(s: Seq<char>) -> Seq<char>
    decreases s.len(),
{
    if s.len() == 0 {
        Seq::empty()
    } else {
        escape_char(s[0]) + escaped(s.skip(1))
    }
}

/// Reads an escaped value back: a backslash stands for the character after it.
pub open spec fn unescaped(s: Seq<char>) -> Seq<char>
    decreases s.len(),
{
    if s.len() == 0 {
        Seq::empty()
    } else if s[0] == '\\' && s.len() >= 2 {
        seq![s[1]] + unescaped(s.skip(2))
    } else {
        seq![s[0]] + unescaped(s.skip(1))
    }
}

pub open spec fn is_lower_hex_digit(c: char) -> bool {
    ('0' <= c && c <= '9') || ('a' <= c && c <= 'f')
}

/// Every character is one of `0123456789abcdef` (true of the empty value).
pub open spec fn all_lower_hex(s: Seq<char>) -> bool {
    forall|i: int| 0 <= i < s.len() ==> is_lower_hex_digit(#[trigger] s[i])
}

pub open spec fn quoted(s: Seq<char>) -> Seq<char> {
    seq!['"'] + s + seq!['"']
}

/// The value written for a text field: escaped, then quoted where it could
/// be taken for hex.
#[verifier::opaque]
pub open spec fn field_value(s: Seq<char>) -> Seq<char> {
    let e = escaped(s);
    if all_lower_hex(e) {
        quoted(e)
    } else {
        e
    }
}

/// Escaping one more character appends that character's escape.
pub proof fn lemma_escaped_push(s: Seq<char>, c: char)
    ensures
        escaped(s.push(c)) == escaped(s) + escape_char(c),
    decreases s.len(),
{
    if s.len() == 0 {
        assert(s.push(c).skip(1) =~= Seq::<char>::empty());
        assert(s.push(c)[0] == c);
        assert(escaped(Seq::<char>::empty()) == Seq::<char>::empty());
        assert(escaped(s) == Seq::<char>::empty());
        assert(escaped(s.push(c)) =~= escape_char(c));
    } else {
        assert(s.push(c).skip(1) =~= s.skip(1).push(c));
        lemma_escaped_push(s.skip(1), c);
        assert(escaped(s.push(c)) =~= escaped(s) + escape_char(c));
    }
}

/// Unescaping an escaped value gives back the value.
pub proof fn lemma_unescape_escape(s: Seq<char>)
    ensures
        unescaped(escaped(s)) == s,
    decreases s.len(),
{
    if s.len() > 0 {
        let e = escaped(s);
        lemma_unescape_escape(s.skip(1));
        if is_special(s[0]) {
            assert(e.skip(2) =~= escaped(s.skip(1)));
        } else {
            assert(e.skip(1) =~= escaped(s.skip(1)));
        }
        assert(unescaped(e) =~= s);
    }
}

proof fn lemma_escaped_hex(s: Seq<char>)
    requires
        all_lower_hex(escaped(s)),
    ensures
        all_lower_hex(s),
        escaped(s) == s,
    decreases s.len(),
{
    if s.len() > 0 {
        let e = escaped(s);
        assert(e[0] == escape_char(s[0])[0]);
        assert(is_lower_hex_digit(e[0]));
        assert(!is_special(s[0]));
        assert(e.skip(1) =~= escaped(s.skip(1)));
        assert(all_lower_hex(escaped(s.skip(1)))) by {
            assert forall|i: int| 0 <= i < escaped(s.skip(1)).len() implies is_lower_hex_digit(
                #[trigger] escaped(s.skip(1))[i],
            ) by {
                assert(escaped(s.skip(1))[i] == e[i + 1]);
            }
        }
        lemma_escaped_hex(s.skip(1));
        assert(s =~= seq![s[0]] + s.skip(1));
        assert(forall|i: int| 0 < i < s.len() ==> s[i] == s.skip(1)[i - 1]);
    }
}

/// The empty value and a value of lowercase hex digits alone are written
/// between double quotes; any other value is written escaped, unquoted.
pub proof fn lemma_quoting(s: Seq<char>)
    ensures
        all_lower_hex(s) ==> field_value(s) == quoted(s),
        !all_lower_hex(s) ==> field_value(s) == escaped(s),
        field_value(Seq::<char>::empty()) == seq!['"', '"'],
{
    reveal(field_value);
    if all_lower_hex(escaped(s)) {
        lemma_escaped_hex(s);
    } else if all_lower_hex(s) {
        lemma_escaped_identity(s);
    }
    assert(escaped(Seq::<char>::empty()) =~= Seq::<char>::empty());
    assert(quoted(Seq::<char>::empty()) =~= seq!['"', '"']);
}

proof fn lemma_escaped_identity(s: Seq<char>)
    requires
        all_lower_hex(s),
    ensures
        escaped(s) == s,
    decreases s.len(),
{
    if s.len() > 0 {
        assert(is_lower_hex_digit(s[0]));
        assert(all_lower_hex(s.skip(1))) by {
            assert(forall|i: int| 0 <= i < s.skip(1).len() ==> s.skip(1)[i] == s[i + 1]);
        }
        lemma_escaped_identity(s.skip(1));
        assert(s =~= seq![s[0]] + s.skip(1));
    }
}

/// A text value that holds any of `\ ; , " :` is written escaped and
/// unquoted, so unescaping what is written gives back the value.
pub proof fn lemma_field_value_round_trip(s: Seq<char>)
    requires
        exists|i: int| 0 <= i < s.len() && is_special(#[trigger] s[i]),
    ensures
        field_value(s) == escaped(s),
        unescaped(field_value(s)) == s,
{
    let i = choose|i: int| 0 <= i < s.len() && is_special(#[trigger] s[i]);
    assert(!is_lower_hex_digit(s[i]));
    lemma_quoting(s);
    lemma_unescape_escape(s);
}

/// Tests whether every character of `value` is a lowercase hex digit.
pub fn could_be_ascii_hex(value: &str) -> (r: bool)
    ensures
        r == all_lower_hex(value@),
{
    let n = value.unicode_len();
    let mut i: usize = 0;
    while i < n
        invariant
            n == value@.len(),
            i <= n,
            forall|j: int| 0 <= j < i ==> is_lower_hex_digit(#[trigger] value@[j]),
        decreases n - i,
    {
        let c = value.get_char(i);
        if !(('0' <= c && c <= '9') || ('a' <= c && c <= 'f')) {
            return false;
        }
        i = i + 1;
    }
    true
}

/// Escapes `value` for a text field, quoting it where it could be taken for hex.
pub fn escape_field_value(value: &str) -> (r: String)
    ensures
        r@ == field_value(value@),
{
    let n = value.unicode_len();
    let mut out = String::new();
    let mut i: usize = 0;
    while i < n
        invariant
            n == value@.len(),
            i <= n,
            out@ == escaped(value@.subrange(0, i as int)),
        decreases n - i,
    {
        let c = value.get_char(i);
        proof {
            lemma_escaped_push(value@.subrange(0, i as int), c);
            assert(value@.subrange(0, i + 1) =~= value@.subrange(0, i as int).push(c));
        }
        if c == '\\' || c == ';' || c == ',' || c == '"' || c == ':' {
            out.append("\\");
            proof { reveal_strlit("\\"); }
        }
        out.append(value.substring_char(i, i + 1));
        proof {
            assert(out@ =~= escaped(value@.subrange(0, i + 1)));
        }
        i = i + 1;
    }
    assert(value@.subrange(0, n as int) =~= value@);
    reveal(field_value);
    if could_be_ascii_hex(out.as_str()) {
        let mut q = String::from_str("\"");
        q.append(out.as_str());
        q.append("\"");
        proof { reveal_strlit("\""); }
        assert(q@ =~= quoted(out@));
        q
    } else {
        out
    }
}


/// The lowercase hex digit of `d` (below sixteen).
pub open spec fn hex_digit(d: u8) -> char {
    "0123456789abcdef"@[d as int]
}

/// A byte in lowercase hex with no leading zero.
pub open spec fn hex_of_byte(b: u8) -> Seq<char> {
    if b < 16 {
        seq![hex_digit(b)]
    } else {
        seq![hex_digit(b / 16), hex_digit(b % 16)]
    }
}

/// The bytes in lowercase hex, one byte after the other.
pub open spec fn hex_of(s: Seq<u8>) -> Seq<char>
    decreases s.len(),
{
    if s.len() == 0 {
        Seq::empty()
    } else {
        hex_of(s.drop_last()) + hex_of_byte(s.last())
    }
}

/// How a field is written in the payload: `NAME:VALUE;`.
pub open spec fn rendered(f: (Seq<char>, Seq<char>)) -> Seq<char> {
    f.0 + seq![':'] + f.1 + seq![';']
}

/// Standard base64, with padding, of the bytes.
pub uninterp spec fn base64_of(b: Seq<u8>) -> Seq<char>;

/// Relies on base64's `Engine::encode` with the `STANDARD` engine: the padded
/// encoding, four characters for each started group of three bytes.
#[verifier::external_body]
fn encode_base64(b: &[u8]) -> (r: String)
    ensures
        r@ == base64_of(b@),
        r@.len() == 4 * ((b@.len() + 2) / 3),
{
    base64::engine::general_purpose::STANDARD.encode(b)
}

fn push_hex_digit(out: &mut String, d: u8)
    requires
        d < 16,
    ensures
        final(out)@ == old(out)@.push(hex_digit(d)),
{
    let digits = "0123456789abcdef";
    proof { reveal_strlit("0123456789abcdef"); }
    let one = digits.substring_char(d as usize, d as usize + 1);
    out.append(one);
    assert(final(out)@ =~= old(out)@.push(hex_digit(d)));
}

/// The name and value of each field of a list.
pub open spec fn field_views(v: Seq<Field>) -> Seq<(Seq<char>, Seq<char>)> {
    v.map_values(|f: Field| f@)
}

/// A name paired with the text written for it.
pub struct Field {
    name: String,
    value: String,
}

impl View for Field {
    type V = (Seq<char>, Seq<char>);

    closed spec fn view(&self) -> (Seq<char>, Seq<char>) {
        (self.name@, self.value@)
    }
}

impl Field {
    /// A field whose value is text, escaped and quoted as needed.
    pub fn new_string(name: &str, value: &str) -> (r: Field)
        ensures
            r@ == (name@, field_value(value@)),
    {
        Field { name: String::from_str(name), value: escape_field_value(value) }
    }

    /// A field whose value is bytes in base64.
    pub fn new_base64(name: &str, value: &[u8]) -> (r: Field)
        ensures
            r@ == (name@, base64_of(value@)),
            r@.1.len() == 4 * ((value@.len() + 2) / 3),
    {
        Field { name: String::from_str(name), value: encode_base64(value) }
    }

    /// A field whose value is bytes in lowercase hex.
    pub fn new_hex(name: &str, value: &[u8]) -> (r: Field)
        ensures
            r@ == (name@, hex_of(value@)),
    {
        let mut out = String::new();
        let mut i: usize = 0;
        while i < value.len()
            invariant
                i <= value@.len(),
                out@ == hex_of(value@.subrange(0, i as int)),
            decreases value@.len() - i,
        {
            let b = value[i];
            if b >= 16 {
                push_hex_digit(&mut out, b / 16);
            }
            push_hex_digit(&mut out, b % 16);
            proof {
                let t = value@.subrange(0, i + 1);
                assert(t.drop_last() =~= value@.subrange(0, i as int));
                assert(t.last() == b);
                assert(out@ =~= hex_of(t));
            }
            i = i + 1;
        }
        assert(value@.subrange(0, value@.len() as int) =~= value@);
        Field { name: String::from_str(name), value: out }
    }

    /// The field as written in the payload.
    pub fn to_string(&self) -> (r: String)
        ensures
            r@ == rendered(self@),
    {
        let mut out = self.name.clone();
        out.append(":");
        out.append(self.value.as_str());
        out.append(";");
        proof {
            reveal_strlit(":");
            reveal_strlit(";");
        }
        assert(out@ =~= rendered(self@));
        out
    }
}

} // verus!
