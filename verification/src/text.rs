//! Byte- and character-level text predicates shared by the checked wire values.
use vstd::prelude::*;

verus! {

/// The UTF-8 bytes of a character sequence; byte lengths and byte predicates
/// of every string value are stated over this encoding.
pub open spec fn utf8(chars: Seq<char>) -> Seq<u8> {
    vstd::utf8::encode_utf8(chars)
}

pub open spec fn is_ascii_byte(b: u8) -> bool {
    b < 0x80
}

pub open spec fn is_lower(b: u8) -> bool {
    0x61 <= b && b <= 0x7a
}

pub open spec fn is_upper(b: u8) -> bool {
    0x41 <= b && b <= 0x5a
}

pub open spec fn is_digit(b: u8) -> bool {
    0x30 <= b && b <= 0x39
}

pub open spec fn is_alpha(b: u8) -> bool {
    is_lower(b) || is_upper(b)
}

pub open spec fn is_alnum(b: u8) -> bool {
    is_alpha(b) || is_digit(b)
}

/// Printable ASCII: an ASCII byte that is not an ASCII control byte.
pub open spec fn is_printable_ascii(b: u8) -> bool {
    0x20 <= b && b < 0x7f
}

/// ASCII uppercase mapping of one byte.
pub open spec fn upper_byte(b: u8) -> u8 {
    if is_lower(b) { (b - 32) as u8 } else { b }
}

/// Unicode general category Cc, the characters for which `char::is_control` holds.
pub open spec fn is_control_char(c: char) -> bool {
    (c as u32) <= 0x1f || (0x7f <= (c as u32) && (c as u32) <= 0x9f)
}

/// Whether a character sequence is non-empty, at most `max_bytes` UTF-8 bytes
/// long and free of control characters.
pub open spec fn bounded_text(chars: Seq<char>, max_bytes: nat) -> bool {
    &&& chars.len() > 0
    &&& utf8(chars).len() <= max_bytes
    &&& forall|i: int| 0 <= i < chars.len() ==> !is_control_char(#[trigger] chars[i])
}

/// Whether every byte of a text is printable ASCII and its length is within `1..=max`.
pub open spec fn printable_text(bytes: Seq<u8>, max: nat) -> bool {
    &&& 0 < bytes.len() <= max
    &&& forall|i: int| 0 <= i < bytes.len() ==> is_printable_ascii(#[trigger] bytes[i])
}

pub open spec fn all_bytes(bytes: Seq<u8>, p: spec_fn(u8) -> bool) -> bool {
    forall|i: int| 0 <= i < bytes.len() ==> p(#[trigger] bytes[i])
}

pub open spec fn any_byte(bytes: Seq<u8>, p: spec_fn(u8) -> bool) -> bool {
    exists|i: int| 0 <= i < bytes.len() && p(#[trigger] bytes[i])
}

/// Every ASCII byte sequence is valid UTF-8 and decodes byte-for-byte.
pub proof fn lemma_ascii_valid_utf8(bytes: Seq<u8>)
    requires
        forall|i: int| 0 <= i < bytes.len() ==> is_ascii_byte(#[trigger] bytes[i]),
    ensures
        vstd::utf8::valid_utf8(bytes),
        utf8(vstd::utf8::decode_utf8(bytes)) == bytes,
{
    let chars = Seq::new(bytes.len(), |i: int| bytes[i] as char);
    assert forall|i: int| 0 <= i < chars.len() implies '\0' <= #[trigger] chars[i] <= '\u{7f}' by {
        let b = bytes[i];
        assert(b < 0x80);
    }
    vstd::utf8::is_ascii_chars_encode_utf8(chars);
    assert forall|i: int| 0 <= i < chars.len() implies chars[i] as u8 == bytes[i] by {
        let b = bytes[i];
        assert((b as char) as u8 == b);
    }
    assert(vstd::utf8::encode_utf8(chars) =~= bytes);
    vstd::utf8::encode_utf8_valid_utf8(chars);
    vstd::utf8::encode_utf8_decode_utf8(chars);
}

#[verifier::external_type_specification]
#[verifier::external_body]
pub struct ExUtf8Error(core::str::Utf8Error);

/// Calls `std::str::from_utf8`, which borrows the bytes as a string slice when
/// they are valid UTF-8 and fails otherwise; the slice holds exactly those bytes.
#[verifier::external_body]
pub(crate) fn str_from_utf8(bytes: &[u8]) -> (res: Result<&str, core::str::Utf8Error>)
    ensures
        match res {
            Ok(s) => vstd::utf8::valid_utf8(bytes@) && utf8(s@) == bytes@,
            Err(_) => !vstd::utf8::valid_utf8(bytes@),
        },
{
    std::str::from_utf8(bytes)
}

/// Builds an owned string holding exactly the given ASCII bytes.
pub fn ascii_string(bytes: &[u8]) -> (res: String)
    requires
        forall|i: int| 0 <= i < bytes@.len() ==> is_ascii_byte(#[trigger] bytes@[i]),
    ensures
        utf8(res@) == bytes@,
{
    proof {
        lemma_ascii_valid_utf8(bytes@);
    }
    match str_from_utf8(bytes) {
        Ok(s) => s.to_owned(),
        Err(_) => {
            proof {
                assert(false);
            }
            String::new()
        },
    }
}

/// Returns the UTF-8 bytes of a string slice.
pub fn bytes_of(s: &str) -> (res: &[u8])
    ensures
        res@ == utf8(s@),
{
    s.as_bytes()
}

/// Returns whether every byte from `start` on satisfies the lowercase-or-digit alphabet.
pub fn all_lower_or_digit(bytes: &[u8], start: usize) -> (res: bool)
    requires
        start <= bytes@.len(),
    ensures
        res == (forall|i: int| start <= i < bytes@.len() ==> (is_lower(#[trigger] bytes@[i]) || is_digit(bytes@[i]))),
{
    let mut i = start;
    while i < bytes.len()
        invariant
            start <= i <= bytes@.len(),
            forall|j: int| start <= j < i ==> (is_lower(#[trigger] bytes@[j]) || is_digit(bytes@[j])),
        decreases bytes@.len() - i,
    {
        let b = bytes[i];
        if !((b >= 0x61 && b <= 0x7a) || (b >= 0x30 && b <= 0x39)) {
            return false;
        }
        i += 1;
    }
    true
}

/// Returns whether a text is non-empty, at most `max` bytes, and printable ASCII.
pub fn is_printable_text(s: &str, max: usize) -> (res: bool)
    ensures
        res == printable_text(utf8(s@), max as nat),
{
    let bytes = s.as_bytes();
    if bytes.len() == 0 || bytes.len() > max {
        return false;
    }
    let mut i: usize = 0;
    while i < bytes.len()
        invariant
            i <= bytes@.len(),
            bytes@ == utf8(s@),
            forall|j: int| 0 <= j < i ==> is_printable_ascii(#[trigger] bytes@[j]),
        decreases bytes@.len() - i,
    {
        let b = bytes[i];
        if !(b >= 0x20 && b < 0x7f) {
            return false;
        }
        i += 1;
    }
    true
}

/// Returns whether a text is non-empty, at most `max_bytes` UTF-8 bytes long,
/// and contains no control character.
pub fn is_bounded_text(s: &str, max_bytes: usize) -> (res: bool)
    ensures
        res == bounded_text(s@, max_bytes as nat),
{
    let len = s.as_bytes().len();
    let n = s.unicode_len();
    if n == 0 || len > max_bytes {
        return false;
    }
    let mut i: usize = 0;
    while i < n
        invariant
            i <= n,
            n == s@.len(),
            forall|j: int| 0 <= j < i ==> !is_control_char(#[trigger] s@[j]),
        decreases n - i,
    {
        let c = s.get_char(i);
        let code = c as u32;
        if code <= 0x1f || (code >= 0x7f && code <= 0x9f) {
            return false;
        }
        i += 1;
    }
    true
}


/// The UTF-8 encoding is injective on character sequences.
pub proof fn lemma_utf8_injective(a: Seq<char>, b: Seq<char>)
    ensures
        utf8(a) == utf8(b) <==> a == b,
{
    vstd::utf8::encode_utf8_decode_utf8(a);
    vstd::utf8::encode_utf8_decode_utf8(b);
}

/// Byte-sequence equality of two slices.
pub fn bytes_eq(a: &[u8], b: &[u8]) -> (res: bool)
    ensures
        res == (a@ == b@),
{
    if a.len() != b.len() {
        return false;
    }
    let mut i: usize = 0;
    while i < a.len()
        invariant
            i <= a@.len(),
            a@.len() == b@.len(),
            forall|j: int| 0 <= j < i ==> a@[j] == b@[j],
        decreases a@.len() - i,
    {
        if a[i] != b[i] {
            return false;
        }
        i += 1;
    }
    assert(a@ =~= b@);
    true
}

/// String-slice equality by content.
pub fn str_eq(a: &str, b: &str) -> (res: bool)
    ensures
        res == (a@ == b@),
{
    proof {
        lemma_utf8_injective(a@, b@);
    }
    bytes_eq(a.as_bytes(), b.as_bytes())
}


/// The UTF-8 encoding of a concatenation is the concatenation of the encodings.
pub proof fn lemma_utf8_concat(a: Seq<char>, b: Seq<char>)
    ensures
        utf8(a + b) == utf8(a) + utf8(b),
    decreases a.len(),
{
    if a.len() == 0 {
        assert(a + b =~= b);
        assert(utf8(a) + utf8(b) =~= utf8(b));
    } else {
        lemma_utf8_concat(a.drop_first(), b);
        assert((a + b).drop_first() =~= a.drop_first() + b);
        assert((a + b)[0] == a[0]);
        assert(utf8(a + b) =~= vstd::utf8::encode_scalar(a[0] as u32) + utf8(a.drop_first() + b));
    }
}

/// Strict byte-lexicographic order, as `str` compares.
pub open spec fn bytes_before(a: Seq<u8>, b: Seq<u8>) -> bool
    decreases a.len(),
{
    if a.len() == 0 {
        b.len() > 0
    } else if b.len() == 0 {
        false
    } else if a[0] != b[0] {
        a[0] < b[0]
    } else {
        bytes_before(a.drop_first(), b.drop_first())
    }
}

/// Byte-lexicographic order is a strict total order.
pub proof fn lemma_bytes_before_order(a: Seq<u8>, b: Seq<u8>, c: Seq<u8>)
    ensures
        !bytes_before(a, a),
        a != b ==> (bytes_before(a, b) || bytes_before(b, a)),
        bytes_before(a, b) ==> !bytes_before(b, a),
        bytes_before(a, b) && bytes_before(b, c) ==> bytes_before(a, c),
    decreases a.len(),
{
    if a.len() > 0 {
        lemma_bytes_before_order(a.drop_first(), a.drop_first(), a.drop_first());
        if b.len() > 0 {
            lemma_bytes_before_order(a.drop_first(), b.drop_first(), b.drop_first());
            if a != b && a[0] == b[0] {
                assert(a.drop_first() != b.drop_first()) by {
                    if a.drop_first() == b.drop_first() {
                        assert forall|i: int| 0 <= i < a.len() implies a[i] == b[i] by {
                            if i > 0 {
                                assert(a[i] == a.drop_first()[i - 1]);
                                assert(b[i] == b.drop_first()[i - 1]);
                            }
                        }
                        assert(a =~= b);
                    }
                }
            }
            if c.len() > 0 {
                lemma_bytes_before_order(a.drop_first(), b.drop_first(), c.drop_first());
            }
        }
    } else {
        if b.len() == 0 {
            assert(a =~= b);
        }
    }
}

/// Strict byte-lexicographic comparison of two slices.
pub fn bytes_lex_before(a: &[u8], b: &[u8]) -> (res: bool)
    ensures
        res == bytes_before(a@, b@),
{
    let mut i: usize = 0;
    proof {
        assert(a@.subrange(0, a@.len() as int) == a@);
        assert(b@.subrange(0, b@.len() as int) == b@);
    }
    while i < a.len() && i < b.len()
        invariant
            i <= a@.len(),
            i <= b@.len(),
            bytes_before(a@, b@) == bytes_before(a@.subrange(i as int, a@.len() as int), b@.subrange(i as int, b@.len() as int)),
        decreases a@.len() - i,
    {
        if a[i] != b[i] {
            return a[i] < b[i];
        }
        proof {
            let ra = a@.subrange(i as int, a@.len() as int);
            let rb = b@.subrange(i as int, b@.len() as int);
            assert(ra.drop_first() =~= a@.subrange(i + 1, a@.len() as int));
            assert(rb.drop_first() =~= b@.subrange(i + 1, b@.len() as int));
        }
        i = i + 1;
    }
    i == a.len() && i < b.len()
}


/// ASCII whitespace: space, tab, line feed, vertical tab, form feed, carriage return.
pub open spec fn is_space(b: u8) -> bool {
    b == 0x20 || (0x09 <= b && b <= 0x0d)
}

/// The words of `s` after the partial word `cur`: maximal runs of non-space bytes.
pub open spec fn words_from(s: Seq<u8>, cur: Seq<u8>) -> Seq<Seq<u8>>
    decreases s.len(),
{
    if s.len() == 0 {
        if cur.len() == 0 { Seq::empty() } else { seq![cur] }
    } else if is_space(s[0]) {
        if cur.len() == 0 {
            words_from(s.drop_first(), cur)
        } else {
            seq![cur] + words_from(s.drop_first(), Seq::empty())
        }
    } else {
        words_from(s.drop_first(), cur.push(s[0]))
    }
}

/// The whitespace-separated words of `s`, in order.
pub open spec fn words(s: Seq<u8>) -> Seq<Seq<u8>> {
    words_from(s, Seq::empty())
}

/// Splits bytes into their whitespace-separated words.
pub fn split_words(bytes: &[u8]) -> (res: Vec<Vec<u8>>)
    ensures
        res@.len() == words(bytes@).len(),
        forall|k: int| 0 <= k < res@.len() ==> (#[trigger] res@[k])@ == words(bytes@)[k],
{
    let mut out: Vec<Vec<u8>> = Vec::new();
    let mut cur: Vec<u8> = Vec::new();
    let mut i: usize = 0;
    let ghost mut done: Seq<Seq<u8>> = Seq::empty();
    proof {
        assert(bytes@.skip(0) =~= bytes@);
        assert(cur@ =~= Seq::<u8>::empty());
        assert(done + words_from(bytes@.skip(0), cur@) =~= words(bytes@));
    }
    while i < bytes.len()
        invariant
            i <= bytes@.len(),
            out@.len() == done.len(),
            forall|k: int| 0 <= k < out@.len() ==> (#[trigger] out@[k])@ == done[k],
            words(bytes@) == done + words_from(bytes@.skip(i as int), cur@),
        decreases bytes@.len() - i,
    {
        let b = bytes[i];
        proof {
            let rest = bytes@.skip(i as int);
            assert(rest.drop_first() =~= bytes@.skip(i + 1));
            assert(rest[0] == b);
        }
        if b == 0x20 || (b >= 0x09 && b <= 0x0d) {
            if cur.len() > 0 {
                proof {
                    assert(words_from(bytes@.skip(i as int), cur@) == seq![cur@] + words_from(bytes@.skip(i + 1), Seq::empty()));
                    done = done.push(cur@);
                    assert(seq![cur@] + words_from(bytes@.skip(i + 1), Seq::empty()) =~= seq![cur@] + words_from(bytes@.skip(i + 1), Seq::empty()));
                    assert(done =~= done.drop_last().push(cur@));
                }
                let mut finished: Vec<u8> = Vec::new();
                std::mem::swap(&mut finished, &mut cur);
                out.push(finished);
                proof {
                    assert(words(bytes@) == done + words_from(bytes@.skip(i + 1), cur@)) by {
                        assert(cur@ =~= Seq::<u8>::empty());
                        assert(done.drop_last() + (seq![done.last()] + words_from(bytes@.skip(i + 1), Seq::empty()))
                            =~= done + words_from(bytes@.skip(i + 1), Seq::empty()));
                    }
                }
            }
        } else {
            proof {
                assert(words_from(bytes@.skip(i as int), cur@) == words_from(bytes@.skip(i + 1), cur@.push(b)));
            }
            cur.push(b);
        }
        i = i + 1;
    }
    proof {
        assert(bytes@.skip(i as int) =~= Seq::<u8>::empty());
    }
    if cur.len() > 0 {
        proof {
            assert(words_from(bytes@.skip(i as int), cur@) == seq![cur@]);
            done = done.push(cur@);
        }
        out.push(cur);
    }
    proof {
        assert(words(bytes@) =~= done);
    }
    out
}

} // verus!
