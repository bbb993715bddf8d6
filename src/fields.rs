//! Journal fields: escaping of field names and the two wire encodings of a
//! field, `NAME=VALUE\n` and the length-prefixed form for values that hold a
//! newline.
use vstd::prelude::*;
use vstd::string::StringSliceAdditionalSpecFns;
use vstd::utf8::{is_ascii_chars, is_ascii_chars_encode_utf8};

verus! {

broadcast use vstd::string::group_string_axioms;

/// The longest field name that journald accepts, in bytes.
pub const MAX_KEY_LEN: usize = 64;

/// Whether `c` may stand in the name of a journal field: `A`-`Z`, `0`-`9` or `_`.
pub open spec fn is_key_char(c: char) -> bool {
    ('A' <= c && c <= 'Z') || ('0' <= c && c <= '9') || c == '_'
}

/// Whether the byte `b` may stand in the name of a journal field.
pub open spec fn is_key_byte(b: u8) -> bool {
    ('A' as u8 <= b && b <= 'Z' as u8) || ('0' as u8 <= b && b <= '9' as u8) || b == '_' as u8
}

/// A field name may not start with `_` (reserved for trusted fields) or a digit.
pub open spec fn starts_badly(k: Seq<u8>) -> bool {
    k.len() > 0 && (k[0] == '_' as u8 || ('0' as u8 <= k[0] && k[0] <= '9' as u8))
}

/// A valid journal field name: `[A-Z0-9_]{1,64}`, not starting with `_` or a digit.
pub open spec fn is_field_name(k: Seq<u8>) -> bool {
    &&& 1 <= k.len() <= MAX_KEY_LEN
    &&& forall|i: int| 0 <= i < k.len() ==> is_key_byte(#[trigger] k[i])
    &&& !starts_badly(k)
}

/// `_` or a digit, which may not start a field name.
pub open spec fn is_bad_start_char(c: char) -> bool {
    c == '_' || ('0' <= c && c <= '9')
}

/// The characters of `s` taken one byte each; exact for ASCII text.
pub open spec fn ascii_bytes(s: Seq<char>) -> Seq<u8> {
    Seq::new(s.len(), |i: int| s[i] as u8)
}

/// Text that is already a valid field name.
pub open spec fn is_field_name_text(s: Seq<char>) -> bool {
    &&& forall|i: int| 0 <= i < s.len() ==> is_key_char(#[trigger] s[i])
    &&& is_field_name(ascii_bytes(s))
}

/// What one character of a key becomes when the key is escaped: ASCII
/// lowercase letters are upper-cased, any other character that may not stand
/// in a field name becomes `_`.
pub open spec fn escaped_byte(c: char) -> u8 {
    if 'a' <= c && c <= 'z' {
        (c as u32 - 32) as u8
    } else if is_key_char(c) {
        c as u8
    } else {
        '_' as u8
    }
}

/// Every character of `s` upper-cased or replaced by `_`.
pub open spec fn replace_invalid(s: Seq<char>) -> Seq<u8> {
    Seq::new(s.len(), |i: int| escaped_byte(s[i]))
}

/// `EMPTY`, the name that stands for an empty key.
pub open spec fn empty_key() -> Seq<u8> {
    seq!['E' as u8, 'M' as u8, 'P' as u8, 'T' as u8, 'Y' as u8]
}

/// `ESCAPED_`, put in front of a key that would start with `_` or a digit.
pub open spec fn escape_prefix() -> Seq<u8> {
    seq!['E' as u8, 'S' as u8, 'C' as u8, 'A' as u8, 'P' as u8, 'E' as u8, 'D' as u8, '_' as u8]
}

/// The first `n` elements of `b`, or all of it when it is shorter.
pub open spec fn truncated(b: Seq<u8>, n: nat) -> Seq<u8> {
    if b.len() <= n {
        b
    } else {
        b.take(n as int)
    }
}

/// The journal field name that the key `s` becomes.
pub open spec fn escaped_key(s: Seq<char>) -> Seq<u8> {
    if s.len() == 0 {
        empty_key()
    } else {
        let e = replace_invalid(s);
        truncated(if starts_badly(e) { escape_prefix() + e } else { e }, MAX_KEY_LEN as nat)
    }
}

proof fn lemma_key_char_byte(c: char)
    requires
        is_key_char(c),
    ensures
        c as u8 == c as u32,
        is_key_byte(c as u8),
{
}

/// Whether `c` is a valid character in the key of a journal field.
fn is_valid_key_char(c: char) -> (r: bool)
    ensures
        r == is_key_char(c),
{
    ('A' <= c && c <= 'Z') || ('0' <= c && c <= '9') || c == '_'
}

fn is_bad_start(c: char) -> (r: bool)
    ensures
        r == is_bad_start_char(c),
{
    c == '_' || ('0' <= c && c <= '9')
}

fn escape_char(c: char) -> (r: u8)
    ensures
        r == escaped_byte(c),
{
    if 'a' <= c && c <= 'z' {
        (c as u32 - 32) as u8
    } else if is_valid_key_char(c) {
        c as u32 as u8
    } else {
        '_' as u8
    }
}

fn replace_all(key: &str) -> (r: Vec<u8>)
    ensures
        r@ == replace_invalid(key@),
{
    let mut out: Vec<u8> = Vec::new();
    for c in it: key.chars()
        invariant
            it.seq() == key@,
            out@ == replace_invalid(key@.take(it.index())),
    {
        out.push(escape_char(c));
        assert(replace_invalid(key@.take(it.index() + 1)) =~= replace_invalid(
            key@.take(it.index()),
        ).push(escaped_byte(c)));
    }
    assert(key@.take(key@.len() as int) =~= key@);
    out
}

/// Whether `key` is already a valid field name, so that escaping leaves it as it is.
fn is_well_formed_key(key: &str) -> (r: bool)
    ensures
        r == is_field_name_text(key@),
{
    let mut valid = true;
    let mut first_ok = true;
    let mut count: usize = 0;
    for c in it: key.chars()
        invariant
            it.seq() == key@,
            count == if it.index() <= MAX_KEY_LEN { it.index() } else { MAX_KEY_LEN + 1 },
            valid == forall|i: int| 0 <= i < it.index() ==> is_key_char(#[trigger] key@[i]),
            it.index() > 0 ==> first_ok == !is_bad_start_char(key@[0]),
    {
        if count == 0 {
            first_ok = !is_bad_start(c);
        }
        let ghost before = valid;
        valid = valid && is_valid_key_char(c);
        assert(valid == forall|i: int| 0 <= i < it.index() + 1 ==> is_key_char(#[trigger] key@[i]))
            by {
            if before && is_key_char(c) {
                assert forall|i: int| 0 <= i < it.index() + 1 implies is_key_char(
                    #[trigger] key@[i],
                ) by {
                    if i < it.index() {
                        assert(is_key_char(key@[i]));
                    }
                }
            }
            if !before {
                let j = choose|j: int| 0 <= j < it.index() && !is_key_char(#[trigger] key@[j]);
                assert(!is_key_char(key@[j]));
            }
        }
        if count <= MAX_KEY_LEN {
            count = count + 1;
        }
    }
    let r = valid && first_ok && 1 <= count && count <= MAX_KEY_LEN;
    proof {
        let b = ascii_bytes(key@);
        if valid {
            assert forall|i: int| 0 <= i < b.len() implies is_key_byte(#[trigger] b[i]) by {
                lemma_key_char_byte(key@[i]);
            }
        }
        if r {
            lemma_key_char_byte(key@[0]);
            assert(is_field_name(b));
        }
        if is_field_name_text(key@) {
            assert(is_key_char(key@[0]));
            lemma_key_char_byte(key@[0]);
            assert(!starts_badly(b));
        }
    }
    r
}

/// Appends `bytes` to `buffer`.
pub(crate) fn append_bytes(buffer: &mut Vec<u8>, bytes: &[u8])
    ensures
        final(buffer)@ == old(buffer)@ + bytes@,
{
    for i in 0..bytes.len()
        invariant
            buffer@ == old(buffer)@ + bytes@.take(i as int),
    {
        buffer.push(bytes[i]);
        assert(bytes@.take(i + 1) =~= bytes@.take(i as int).push(bytes@[i as int]));
    }
    assert(bytes@.take(bytes@.len() as int) =~= bytes@);
}

/// The bytes of ASCII text are its characters, one byte each.
proof fn lemma_ascii_text_bytes(s: &str)
    requires
        is_ascii_chars(s@),
    ensures
        s.spec_bytes() == ascii_bytes(s@),
{
    is_ascii_chars_encode_utf8(s@);
    assert(s.spec_bytes() =~= ascii_bytes(s@));
}

/// A valid field name is ASCII text, and escaping leaves it as it is.
proof fn lemma_field_name_text(s: Seq<char>)
    requires
        is_field_name_text(s),
    ensures
        is_ascii_chars(s),
        replace_invalid(s) == ascii_bytes(s),
        escaped_key(s) == ascii_bytes(s),
{
    assert forall|i: int| 0 <= i < s.len() implies '\0' <= #[trigger] s[i] <= '\u{7f}' by {
        assert(is_key_char(s[i]));
    }
    assert forall|i: int| 0 <= i < s.len() implies #[trigger] replace_invalid(s)[i] == ascii_bytes(
        s,
    )[i] by {
        lemma_key_char_byte(s[i]);
    }
    assert(replace_invalid(s) =~= ascii_bytes(s));
}

/// Escape a `key` for use as the name of a journal field.
///
/// An empty key becomes `EMPTY`; a key that already is a valid field name is
/// kept as it is. Any other key is upper-cased (ASCII only), each character
/// that may not stand in a field name is replaced by `_`, `ESCAPED_` is put
/// in front if the result starts with `_` or a digit, and the result is cut
/// to 64 bytes.
pub fn escape_journal_key(key: &str) -> (r: Vec<u8>)
    ensures
        r@ == escaped_key(key@),
{
    if key.is_empty() {
        let r = vec!['E' as u8, 'M' as u8, 'P' as u8, 'T' as u8, 'Y' as u8];
        assert(r@ =~= empty_key());
        return r;
    }
    if is_well_formed_key(key) {
        proof {
            lemma_field_name_text(key@);
            lemma_ascii_text_bytes(key);
        }
        let mut r: Vec<u8> = Vec::new();
        append_bytes(&mut r, key.as_bytes());
        assert(r@ =~= ascii_bytes(key@));
        return r;
    }
    let escaped = replace_all(key);
    let first = escaped[0];
    let mut payload = if first == '_' as u8 || ('0' as u8 <= first && first <= '9' as u8) {
        let mut p = vec![
            'E' as u8,
            'S' as u8,
            'C' as u8,
            'A' as u8,
            'P' as u8,
            'E' as u8,
            'D' as u8,
            '_' as u8,
        ];
        assert(p@ =~= escape_prefix());
        append_bytes(&mut p, escaped.as_slice());
        p
    } else {
        escaped
    };
    payload.truncate(MAX_KEY_LEN);
    payload
}

/// A key that already is a valid journal field name is left as it is by
/// escaping.
pub proof fn lemma_escape_keeps_field_names(s: Seq<char>)
    requires
        is_field_name_text(s),
    ensures
        escaped_key(s) == ascii_bytes(s),
{
    lemma_field_name_text(s);
}

proof fn lemma_escaped_byte_is_key_byte(c: char)
    ensures
        is_key_byte(escaped_byte(c)),
{
    if is_key_char(c) {
        lemma_key_char_byte(c);
    }
}

/// Whatever the key, escaping it gives a valid journal field name: one to 64
/// bytes of `A`-`Z`, `0`-`9` and `_`, not starting with `_` or a digit.
pub proof fn lemma_escape_yields_field_name(s: Seq<char>)
    ensures
        is_field_name(escaped_key(s)),
{
    if s.len() == 0 {
        assert(is_field_name(empty_key()));
    } else {
        let e = replace_invalid(s);
        assert forall|i: int| 0 <= i < e.len() implies is_key_byte(#[trigger] e[i]) by {
            lemma_escaped_byte_is_key_byte(s[i]);
        }
        let p = if starts_badly(e) { escape_prefix() + e } else { e };
        assert forall|i: int| 0 <= i < p.len() implies is_key_byte(#[trigger] p[i]) by {
            if starts_badly(e) && i >= 8 {
                assert(p[i] == e[i - 8]);
            }
        }
        assert(!starts_badly(p));
        let k = truncated(p, MAX_KEY_LEN as nat);
        assert forall|i: int| 0 <= i < k.len() implies is_key_byte(#[trigger] k[i]) by {
            assert(k[i] == p[i]);
        }
        assert(k[0] == p[0]);
    }
}

/// Escaping is idempotent: the text of an escaped key escapes to itself.
pub proof fn lemma_escape_idempotent(s: Seq<char>, t: Seq<char>)
    requires
        is_ascii_chars(t),
        ascii_bytes(t) == escaped_key(s),
    ensures
        escaped_key(t) == escaped_key(s),
{
    let k = escaped_key(s);
    lemma_escape_yields_field_name(s);
    assert forall|i: int| 0 <= i < t.len() implies is_key_char(#[trigger] t[i]) by {
        assert(is_key_byte(k[i]));
        assert(t[i] as u32 == k[i]);
    }
    lemma_field_name_text(t);
}

/// The name of a field, as the caller hands it over.
pub enum FieldName<'a> {
    /// A name known to be a valid field name; it is written as it is.
    WellFormed(&'a str),
    /// Any text; it is escaped before it is written.
    WriteEscaped(&'a str),
}

impl<'a> FieldName<'a> {
    /// A `WellFormed` name must really be a valid field name.
    pub open spec fn is_valid(&self) -> bool {
        match self {
            FieldName::WellFormed(n) => is_field_name_text(n@),
            FieldName::WriteEscaped(_) => true,
        }
    }

    /// The bytes that stand for this name on the wire.
    pub open spec fn encoded(&self) -> Seq<u8> {
        match self {
            FieldName::WellFormed(n) => ascii_bytes(n@),
            FieldName::WriteEscaped(n) => escaped_key(n@),
        }
    }
}

/// The `k` low bytes of `n`, least significant first.
pub open spec fn le_bytes(n: nat, k: nat) -> Seq<u8>
    decreases k,
{
    if k == 0 {
        Seq::empty()
    } else {
        seq![(n % 256) as u8] + le_bytes(n / 256, (k - 1) as nat)
    }
}

/// A field in compact form: `NAME=VALUE\n`.
pub open spec fn compact_field(name: Seq<u8>, value: Seq<u8>) -> Seq<u8> {
    name + seq!['=' as u8] + value + seq!['\n' as u8]
}

/// A field in length-prefixed form: `NAME\n`, the length of the value as
/// 8 bytes little-endian, the value, `\n`.
pub open spec fn length_encoded_field(name: Seq<u8>, value: Seq<u8>) -> Seq<u8> {
    name + seq!['\n' as u8] + le_bytes(value.len(), 8) + value + seq!['\n' as u8]
}

/// The wire form of a field: length-prefixed exactly when the value holds a
/// newline.
pub open spec fn field_bytes(name: Seq<u8>, value: Seq<u8>) -> Seq<u8> {
    if value.contains('\n' as u8) {
        length_encoded_field(name, value)
    } else {
        compact_field(name, value)
    }
}

pub(crate) fn put_field_name(buffer: &mut Vec<u8>, name: FieldName<'_>)
    requires
        name.is_valid(),
    ensures
        final(buffer)@ == old(buffer)@ + name.encoded(),
        is_field_name(name.encoded()),
{
    match name {
        FieldName::WellFormed(n) => {
            proof {
                lemma_field_name_text(n@);
                lemma_ascii_text_bytes(n);
            }
            append_bytes(buffer, n.as_bytes());
        },
        FieldName::WriteEscaped(n) => {
            proof {
                lemma_escape_yields_field_name(n@);
            }
            let escaped = escape_journal_key(n);
            append_bytes(buffer, escaped.as_slice());
        },
    }
}

/// A value that can be written as the value of a journal field.
pub trait PutAsFieldValue: Sized {
    /// The bytes that this value writes.
    spec fn field_value(&self) -> Seq<u8>;

    /// Appends the value's bytes to `buffer`, without any escaping.
    fn put_field_value(self, buffer: &mut Vec<u8>)
        ensures
            final(buffer)@ == old(buffer)@ + self.field_value(),
    ;
}

impl<'a> PutAsFieldValue for &'a [u8] {
    open spec fn field_value(&self) -> Seq<u8> {
        (*self)@
    }

    fn put_field_value(self, buffer: &mut Vec<u8>) {
        append_bytes(buffer, self);
    }
}

/// Writes the little-endian bytes of `n` over the 8 bytes of `buffer` that
/// start at `at`.
fn write_length_tag(buffer: &mut Vec<u8>, at: usize, n: u64)
    requires
        at + 8 <= old(buffer)@.len(),
    ensures
        final(buffer)@ == old(buffer)@.take(at as int) + le_bytes(n as nat, 8) + old(buffer)@.skip(
            at + 8,
        ),
{
    let ghost start = buffer@;
    // The buffer's length is a `usize`, so `at + k` cannot overflow below.
    let _len = buffer.len();
    let mut v: u64 = n;
    let mut k: usize = 0;
    while k < 8
        invariant
            k <= 8,
            buffer@.len() == start.len(),
            at + 8 <= start.len() <= usize::MAX,
            forall|i: int| 0 <= i < at ==> buffer@[i] == start[i],
            forall|i: int| at + 8 <= i < start.len() ==> buffer@[i] == start[i],
            buffer@.subrange(at as int, at + k) + le_bytes(v as nat, (8 - k) as nat) == le_bytes(
                n as nat,
                8,
            ),
        decreases 8 - k,
    {
        let ghost done = buffer@.subrange(at as int, at + k);
        buffer.set(at + k, (v % 256) as u8);
        assert(buffer@.subrange(at as int, at + k + 1) =~= done.push((v % 256) as u8));
        assert(le_bytes(v as nat, (8 - k) as nat) == seq![(v % 256) as u8] + le_bytes(
            (v / 256) as nat,
            (8 - k - 1) as nat,
        ));
        assert(done.push((v % 256) as u8) + le_bytes((v / 256) as nat, (8 - k - 1) as nat)
            =~= done + le_bytes(v as nat, (8 - k) as nat));
        v = v / 256;
        k = k + 1;
    }
    assert(le_bytes(v as nat, 0) =~= Seq::<u8>::empty());
    assert(buffer@ =~= start.take(at as int) + le_bytes(n as nat, 8) + start.skip(at + 8));
}

/// Appends the field `name` with `value` in length-prefixed form.
pub fn put_field_length_encoded<V: PutAsFieldValue>(
    buffer: &mut Vec<u8>,
    name: FieldName<'_>,
    value: V,
)
    requires
        name.is_valid(),
    ensures
        final(buffer)@ == old(buffer)@ + length_encoded_field(name.encoded(), value.field_value()),
{
    let ghost encoded_name = name.encoded();
    put_field_name(buffer, name);
    buffer.push('\n' as u8);
    // Room for the length, filled in once the value is written.
    let zeros: [u8; 8] = [0u8; 8];
    append_bytes(buffer, zeros.as_slice());
    let value_start = buffer.len();
    let ghost before_value = buffer@;
    value.put_field_value(buffer);
    let value_end = buffer.len();
    let length = (value_end - value_start) as u64;
    write_length_tag(buffer, value_start - 8, length);
    buffer.push('\n' as u8);
    assert(buffer@ =~= old(buffer)@ + length_encoded_field(encoded_name, value.field_value()));
}

fn has_newline(value: &[u8]) -> (r: bool)
    ensures
        r == value@.contains('\n' as u8),
{
    for i in 0..value.len()
        invariant
            forall|j: int| 0 <= j < i ==> value@[j] != '\n' as u8,
    {
        if value[i] == '\n' as u8 {
            assert(value@[i as int] == '\n' as u8);
            return true;
        }
    }
    false
}

/// Appends the field `name` with `value`: in compact form `NAME=VALUE\n`,
/// or length-prefixed when the value holds a newline.
pub fn put_field_bytes(buffer: &mut Vec<u8>, name: FieldName<'_>, value: &[u8])
    requires
        name.is_valid(),
    ensures
        final(buffer)@ == old(buffer)@ + field_bytes(name.encoded(), value@),
{
    if has_newline(value) {
        put_field_length_encoded(buffer, name, value);
    } else {
        let ghost encoded_name = name.encoded();
        put_field_name(buffer, name);
        buffer.push('=' as u8);
        append_bytes(buffer, value);
        buffer.push('\n' as u8);
        assert(buffer@ =~= old(buffer)@ + compact_field(encoded_name, value@));
    }
}

} // verus!
