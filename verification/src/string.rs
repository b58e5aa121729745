//! Bounded names. A `StringId` holds a short piece of text whose UTF-8
//! encoding never exceeds `STRING_ID_SIZE` bytes; longer input is cut at the
//! last character boundary that fits.

use vstd::prelude::*;
use vstd::utf8::*;
use vstd::string::StringSliceAdditionalSpecFns;
use vstd::std_specs::cmp::PartialEqSpecImpl;
use crate::text::{chars_of, string_of};

verus! {

/// Largest number of bytes that the encoding of a `StringId` may take.
pub const STRING_ID_SIZE: usize = 23;

/// A name of bounded length.
#[derive(Debug, Hash)]
pub struct StringId {
    text: String,
}

/// Whether a text is short enough to be held without loss.
pub open spec fn fits(text: Seq<char>) -> bool {
    encode_utf8(text).len() <= STRING_ID_SIZE
}

/// The largest character boundary of `bytes` that is at most `k`.
pub open spec fn cut_point(bytes: Seq<u8>, k: int) -> int
    decreases k,
{
    if k <= 0 || is_char_boundary(bytes, k) {
        k
    } else {
        cut_point(bytes, k - 1)
    }
}

/// The longest prefix of `text`, in whole characters, whose encoding fits
/// in `STRING_ID_SIZE` bytes.
pub open spec fn truncated(text: Seq<char>) -> Seq<char> {
    let bytes = encode_utf8(text);
    let limit = if bytes.len() <= STRING_ID_SIZE {
        bytes.len() as int
    } else {
        STRING_ID_SIZE as int
    };
    decode_utf8(bytes.subrange(0, cut_point(bytes, limit)))
}

impl View for StringId {
    type V = Seq<char>;

    closed spec fn view(&self) -> Seq<char> {
        self.text@
    }
}

impl StringId {
    #[verifier::type_invariant]
    spec fn bounded(self) -> bool {
        fits(self.text@)
    }

    /// The empty name.
    pub fn new() -> (r: StringId)
        ensures
            r@ == Seq::<char>::empty(),
    {
        let text = String::new();
        proof {
            assert(encode_utf8(text@).len() == 0);
        }
        StringId { text }
    }

    /// Makes a name from `s`, cutting silently what does not fit.
    pub fn new_truncate(s: &str) -> (r: StringId)
        ensures
            r@ == truncated(s@),
    {
        let ghost bytes = s.spec_bytes();
        let n = s.as_bytes().len();
        proof {
            encode_utf8_valid_utf8(s@);
            is_char_boundary_start_end_of_seq(bytes);
        }
        let mut k: usize = if n > STRING_ID_SIZE {
            STRING_ID_SIZE
        } else {
            n
        };
        let ghost limit = k as int;
        while !s.is_char_boundary(k)
            invariant
                bytes == s.spec_bytes(),
                bytes == encode_utf8(s@),
                valid_utf8(bytes),
                0 <= k <= limit <= bytes.len(),
                limit <= STRING_ID_SIZE,
                cut_point(bytes, k as int) == cut_point(bytes, limit),
            decreases k,
        {
            proof {
                is_char_boundary_start_end_of_seq(bytes);
            }
            k -= 1;
        }
        let (head, _) = s.split_at(k);
        proof {
            assert(cut_point(bytes, limit) == k);
            assert(encode_utf8(head@) =~= bytes.subrange(0, k as int));
            encode_utf8_decode_utf8(head@);
        }
        StringId { text: head.to_owned() }
    }

    /// Makes a name from `s` if it fits.
    pub fn from(s: &str) -> (r: Option<StringId>)
        ensures
            match r {
                Some(id) => fits(s@) && id@ == s@,
                None => !fits(s@),
            },
    {
        if s.as_bytes().len() <= STRING_ID_SIZE {
            Some(StringId { text: s.to_owned() })
        } else {
            None
        }
    }

    /// Makes a name from characters if they fit.
    pub fn from_chars(chars: &Vec<char>) -> (r: Option<StringId>)
        ensures
            match r {
                Some(id) => fits(chars@) && id@ == chars@,
                None => !fits(chars@),
            },
    {
        let s = string_of(chars);
        StringId::from(s.as_str())
    }

    /// Makes a name from a short run of ASCII characters, all of which are
    /// kept.
    pub fn short(chars: &Vec<char>) -> (r: StringId)
        requires
            is_ascii_chars(chars@),
            chars@.len() <= STRING_ID_SIZE,
        ensures
            r@ == chars@,
    {
        proof {
            lemma_truncated_ascii(chars@);
        }
        let s = string_of(chars);
        StringId::new_truncate(s.as_str())
    }

    /// The text of the name.
    pub fn as_str(&self) -> (r: &str)
        ensures
            r@ == self@,
            fits(self@),
    {
        proof {
            use_type_invariant(self);
        }
        self.text.as_str()
    }

    /// The characters of the name.
    pub fn to_chars(&self) -> (r: Vec<char>)
        ensures
            r@ == self@,
    {
        chars_of(self.text.as_str())
    }

    /// The text of the name, as an owned string.
    pub fn to_string(&self) -> (r: String)
        ensures
            r@ == self@,
    {
        self.text.clone()
    }

    /// Whether the name holds exactly the characters of `s`.
    pub fn is(&self, s: &str) -> (r: bool)
        ensures
            r == (self@ == s@),
    {
        let other = s.to_owned();
        self.text == other
    }
}

impl Clone for StringId {
    fn clone(&self) -> (r: Self)
        ensures
            r == *self,
    {
        proof {
            use_type_invariant(self);
        }
        StringId { text: self.text.clone() }
    }
}

impl PartialEq for StringId {
    fn eq(&self, other: &Self) -> (r: bool) {
        self.text == other.text
    }
}

impl Eq for StringId {

}

impl PartialEqSpecImpl for StringId {
    open spec fn obeys_eq_spec() -> bool {
        true
    }

    open spec fn eq_spec(&self, other: &Self) -> bool {
        self@ == other@
    }
}

/// Makes a name from `s`, cutting silently what does not fit.
pub fn new_truncate(s: &str) -> (r: StringId)
    ensures
        r@ == truncated(s@),
{
    StringId::new_truncate(s)
}

/// A copy of an optional name.
pub fn clone_opt(id: &Option<StringId>) -> (r: Option<StringId>)
    ensures
        r == *id,
{
    match id {
        Some(x) => Some(x.clone()),
        None => None,
    }
}

/// A copy of a list of names.
pub fn clone_ids(l: &Vec<StringId>) -> (r: Vec<StringId>)
    ensures
        r@ == l@,
{
    let mut out: Vec<StringId> = Vec::new();
    let mut i: usize = 0;
    while i < l.len()
        invariant
            i <= l.len(),
            out@ == l@.take(i as int),
        decreases l.len() - i,
    {
        out.push(l[i].clone());
        proof {
            assert(l@.take(i + 1) =~= l@.take(i as int).push(l@[i as int]));
        }
        i += 1;
    }
    proof {
        assert(l@.take(l.len() as int) =~= l@);
    }
    out
}

/// The texts of a sequence of names.
pub open spec fn names(l: Seq<StringId>) -> Seq<Seq<char>> {
    Seq::new(l.len(), |i: int| l[i]@)
}

/// Names are equal exactly when the bytes that were kept of them are.
pub proof fn lemma_equal_by_bytes(a: Seq<char>, b: Seq<char>)
    ensures
        (truncated(a) == truncated(b)) <==> (encode_utf8(truncated(a)) == encode_utf8(
            truncated(b),
        )),
{
    encode_utf8_decode_utf8(truncated(a));
    encode_utf8_decode_utf8(truncated(b));
}

/// What is kept of a text always fits.
pub proof fn lemma_truncated_fits(text: Seq<char>)
    ensures
        fits(truncated(text)),
{
    broadcast use encode_utf8_valid_utf8, is_char_boundary_start_end_of_seq, valid_utf8_split;

    let bytes = encode_utf8(text);
    let limit = if bytes.len() <= STRING_ID_SIZE {
        bytes.len() as int
    } else {
        STRING_ID_SIZE as int
    };
    lemma_cut_point(bytes, limit);
    let k = cut_point(bytes, limit);
    assert(valid_utf8(bytes.subrange(0, k)));
    decode_utf8_encode_utf8(bytes.subrange(0, k));
}

/// The cut lies on a character boundary between zero and the limit.
pub proof fn lemma_cut_point(bytes: Seq<u8>, k: int)
    requires
        valid_utf8(bytes),
        0 <= k <= bytes.len(),
    ensures
        0 <= cut_point(bytes, k) <= k,
        is_char_boundary(bytes, cut_point(bytes, k)),
    decreases k,
{
    broadcast use is_char_boundary_start_end_of_seq;

    if k <= 0 || is_char_boundary(bytes, k) {
    } else {
        lemma_cut_point(bytes, k - 1);
    }
}

/// A text that fits is kept whole.
pub proof fn lemma_truncated_keeps_short(text: Seq<char>)
    requires
        fits(text),
    ensures
        truncated(text) == text,
{
    broadcast use
        encode_utf8_valid_utf8,
        encode_utf8_decode_utf8,
        is_char_boundary_start_end_of_seq,
    ;

    let bytes = encode_utf8(text);
    assert(is_char_boundary(bytes, bytes.len() as int));
    assert(bytes.subrange(0, bytes.len() as int) =~= bytes);
}

/// Cutting twice is cutting once.
pub proof fn lemma_truncated_idempotent(text: Seq<char>)
    ensures
        truncated(truncated(text)) == truncated(text),
{
    lemma_truncated_fits(text);
    lemma_truncated_keeps_short(truncated(text));
}

/// What is kept is a prefix of the text.
pub proof fn lemma_truncated_prefix(text: Seq<char>)
    ensures
        truncated(text).len() <= text.len(),
        truncated(text) == text.take(truncated(text).len() as int),
{
    broadcast use encode_utf8_valid_utf8, encode_utf8_decode_utf8;

    let bytes = encode_utf8(text);
    let limit = if bytes.len() <= STRING_ID_SIZE {
        bytes.len() as int
    } else {
        STRING_ID_SIZE as int
    };
    lemma_cut_point(bytes, limit);
    let k = cut_point(bytes, limit);
    decode_utf8_split(bytes, k);
    let head = decode_utf8(bytes.subrange(0, k));
    let rest = decode_utf8(bytes.subrange(k, bytes.len() as int));
    assert(text == head + rest);
    assert(text.take(head.len() as int) =~= head);
}

/// Of a text of ASCII characters exactly the first `STRING_ID_SIZE`
/// characters are kept.
pub proof fn lemma_truncated_ascii(text: Seq<char>)
    requires
        is_ascii_chars(text),
    ensures
        truncated(text) == (if text.len() <= STRING_ID_SIZE {
            text
        } else {
            text.take(STRING_ID_SIZE as int)
        }),
{
    broadcast use encode_utf8_valid_utf8, encode_utf8_decode_utf8;

    is_ascii_chars_encode_utf8(text);
    let bytes = encode_utf8(text);
    if text.len() <= STRING_ID_SIZE {
        lemma_truncated_keeps_short(text);
    } else {
        let k = STRING_ID_SIZE as int;
        assert(!is_continuation_byte(bytes[k])) by {
            let b = bytes[k];
            let c = text[k];
            assert(b == c as u8);
            assert(b < 128);
            assert(b < 128 ==> !(0x80 <= b <= 0xbf)) by (bit_vector);
        }
        is_char_boundary_iff_not_is_continuation_byte(bytes, k);
        assert(cut_point(bytes, k) == k);
        let head = text.take(k);
        assert(is_ascii_chars(head));
        is_ascii_chars_encode_utf8(head);
        assert(encode_utf8(head) =~= bytes.subrange(0, k));
    }
}

} // verus!
