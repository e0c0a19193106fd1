//! Compact storage for one grapheme cluster and its column width.
//!
//! Almost every cell holds a one-to-three byte glyph, so the storage
//! keeps short text in a fixed inline buffer and falls back to an
//! exclusively owned heap buffer only for longer clusters.  A grapheme
//! is stored inline exactly when its UTF-8 form is shorter than the
//! machine word (eight bytes on the targets this crate cares about);
//! the inline form remembers only whether the grapheme is one or two
//! columns wide, the heap form caches the full width.  The storage
//! fits a fixed budget of four machine words on a 64-bit target;
//! growing it is a design regression, not a performance nit.
//!
//! Before storage, control content is neutralized: empty input, a lone
//! CRLF pair, and single C0 or DEL bytes all become a plain space, so a
//! cell never holds text that could corrupt the terminal's
//! cursor-movement model.

use vstd::prelude::*;
use vstd::utf8::{
    decode_utf8, encode_scalar, encode_utf8, encode_utf8_decode_utf8, encode_utf8_valid_utf8,
    valid_utf8,
};

use crate::width::{grapheme_column_width, spec_grapheme_width, LATEST_UNICODE_VERSION};

verus! {

/// Whether a string is rewritten to a single space before storage:
/// empty input, the CRLF pair, or a lone C0-control or DEL byte.
pub open spec fn spec_is_crlf(s: Seq<char>) -> bool {
    s.len() == 2 && s[0] == '\r' && s[1] == '\n'
}

pub open spec fn spec_is_lone_control(s: Seq<char>) -> bool {
    s.len() == 1 && ((s[0] as u32) < 0x20 || (s[0] as u32) == 0x7F)
}

pub open spec fn spec_needs_neutralizing(s: Seq<char>) -> bool {
    s.len() == 0 || spec_is_crlf(s) || spec_is_lone_control(s)
}

/// The text actually stored for a given input.
pub open spec fn spec_neutralized(s: Seq<char>) -> Seq<char> {
    if spec_needs_neutralizing(s) {
        seq![' ']
    } else {
        s
    }
}

/// Input that the neutralization rule leaves alone is stored verbatim.
pub proof fn lemma_round_trip(s: Seq<char>)
    requires
        !spec_needs_neutralizing(s),
    ensures
        spec_neutralized(s) == s,
{
}

/// Input that the neutralization rule catches is stored as one space,
/// one column wide.
pub proof fn lemma_neutralization(s: Seq<char>)
    requires
        spec_needs_neutralizing(s),
    ensures
        spec_neutralized(s) == seq![' '],
        spec_stored_width(spec_neutralized(s), None) == 1,
{
    lemma_space_stored_width();
}

/// A single space is stored inline, one column wide.
pub proof fn lemma_space_stored_width()
    ensures
        spec_stored_width(seq![' '], None) == 1,
{
    let s = seq![' '];
    lemma_space_encoding();
    assert(encode_utf8(s).len() == 1);
    assert(s.drop_last() =~= Seq::<char>::empty());
    assert(!crate::width::spec_zero_width(0x20) && !crate::width::spec_always_wide(0x20)
        && !crate::width::spec_widened_in_9(0x20));
    assert(s.last() == ' ');
    assert(crate::width::spec_base_width(0x20, true) == 1);
    assert(crate::width::spec_base_width_sum(Seq::<char>::empty(), true) == 0);
    assert(crate::width::spec_base_width_sum(s, true) == 1);
    assert(crate::presentation::spec_explicit_presentation(s) is None);
    assert(!crate::presentation::spec_default_emoji(' ' as u32));
    assert(crate::presentation::spec_default_presentation(s)
        == crate::presentation::Presentation::Text);
    assert(spec_grapheme_width(s, LATEST_UNICODE_VERSION) == 1);
}

/// The width recorded for stored text `t`: the caller-supplied width if
/// any, else the resolved width under the latest table; the inline form
/// keeps only a one-or-two distinction.
pub open spec fn spec_stored_width(t: Seq<char>, width: Option<usize>) -> nat {
    let w = match width {
        Some(w) => w as nat,
        None => spec_grapheme_width(t, LATEST_UNICODE_VERSION),
    };
    if encode_utf8(t).len() < 8 {
        if w > 1 {
            2
        } else {
            1
        }
    } else {
        w
    }
}

#[derive(Debug)]
enum TeenyRepr {
    Inline { bytes: [u8; 7], len: u8, wide: bool },
    Heap { bytes: Vec<u8>, width: usize },
}

/// One grapheme cluster and its precomputed column width, stored inline
/// when the UTF-8 form is shorter than a machine word and on the heap
/// otherwise.  The heap buffer is exclusively owned: cloning deep-copies
/// it, so two values never alias one allocation.
#[derive(Debug)]
pub struct TeenyString {
    repr: TeenyRepr,
}

impl Clone for TeenyString {
    /// An inline value is copied bitwise; a heap value is rebuilt from
    /// its bytes so the copy owns a fresh allocation.
    fn clone(&self) -> (r: Self)
        ensures
            r.bytes_view() == self.bytes_view(),
            r.width_view() == self.width_view(),
            r.is_inline_view() == self.is_inline_view(),
            self.wf() ==> r.wf(),
    {
        match &self.repr {
            TeenyRepr::Inline { bytes, len, wide } => TeenyString {
                repr: TeenyRepr::Inline { bytes: *bytes, len: *len, wide: *wide },
            },
            TeenyRepr::Heap { bytes, width } => {
                let mut copy: Vec<u8> = Vec::new();
                let mut i: usize = 0;
                while i < bytes.len()
                    invariant
                        0 <= i <= bytes@.len(),
                        copy@ == bytes@.take(i as int),
                    decreases bytes@.len() - i,
                {
                    copy.push(bytes[i]);
                    proof {
                        assert(bytes@.take(i + 1) =~= bytes@.take(i as int).push(bytes@[i as int]));
                    }
                    i = i + 1;
                }
                proof {
                    assert(bytes@.take(bytes@.len() as int) =~= bytes@);
                }
                TeenyString { repr: TeenyRepr::Heap { bytes: copy, width: *width } }
            },
        }
    }
}

impl TeenyString {
    /// The stored bytes: always the UTF-8 form of the stored text.
    pub closed spec fn bytes_view(self) -> Seq<u8> {
        match self.repr {
            TeenyRepr::Inline { bytes, len, .. } => bytes@.take(
                if len <= 7 {
                    len as int
                } else {
                    7
                },
            ),
            TeenyRepr::Heap { bytes, .. } => bytes@,
        }
    }

    /// The stored grapheme cluster.
    pub open spec fn text_view(self) -> Seq<char> {
        decode_utf8(self.bytes_view())
    }

    /// The stored column width.
    pub closed spec fn width_view(self) -> nat {
        match self.repr {
            TeenyRepr::Inline { wide, .. } => if wide {
                2
            } else {
                1
            },
            TeenyRepr::Heap { width, .. } => width as nat,
        }
    }

    /// Whether the grapheme lives in the inline buffer.
    pub closed spec fn is_inline_view(self) -> bool {
        self.repr is Inline
    }

    /// Well-formedness: the stored bytes are valid, non-empty UTF-8, and
    /// the heap form is used exactly for text too long to store inline.
    pub closed spec fn wf(self) -> bool {
        match self.repr {
            TeenyRepr::Inline { bytes, len, .. } => {
                &&& 1 <= len <= 7
                &&& valid_utf8(bytes@.take(len as int))
            },
            TeenyRepr::Heap { bytes, .. } => {
                &&& bytes@.len() >= 8
                &&& valid_utf8(bytes@)
            },
        }
    }

    /// A well-formed value stores exactly the UTF-8 bytes of its text.
    pub proof fn lemma_bytes_are_encoded_text(self)
        requires
            self.wf(),
        ensures
            self.bytes_view() == encode_utf8(self.text_view()),
            self.text_view().len() >= 1,
            self.is_inline_view() == (self.bytes_view().len() < 8),
    {
        vstd::utf8::decode_utf8_encode_utf8(self.bytes_view());
    }

    /// For well-formed values, byte-content equality (the meaning of
    /// `==`) coincides with equality of the stored text, whatever the
    /// representation of either side.
    pub proof fn lemma_eq_is_text_eq(self, other: TeenyString)
        requires
            self.wf(),
            other.wf(),
        ensures
            (self.bytes_view() == other.bytes_view()) <==> (self.text_view()
                == other.text_view()),
    {
        self.lemma_bytes_are_encoded_text();
        other.lemma_bytes_are_encoded_text();
    }

    pub fn is_inline(&self) -> (r: bool)
        ensures
            r == self.is_inline_view(),
    {
        match &self.repr {
            TeenyRepr::Inline { .. } => true,
            TeenyRepr::Heap { .. } => false,
        }
    }

    /// Encode a string for cell storage.  Control content is neutralized
    /// to a single space; the width is resolved under the latest table
    /// unless the caller supplies one; text whose UTF-8 form is shorter
    /// than a machine word is stored inline, anything longer on the heap.
    pub fn from_str(s: &str, width: Option<usize>) -> (r: TeenyString)
        ensures
            r.wf(),
            r.text_view() == spec_neutralized(s@),
            r.bytes_view() == encode_utf8(spec_neutralized(s@)),
            r.width_view() == spec_stored_width(spec_neutralized(s@), width),
            r.is_inline_view() == (encode_utf8(spec_neutralized(s@)).len() < 8),
    {
        let neutralize: bool = if s.is_empty() {
            true
        } else {
            let n = s.unicode_len();
            if n == 2 && s.get_char(0) == '\r' && s.get_char(1) == '\n' {
                true
            } else if n == 1 {
                let cp = s.get_char(0) as u32;
                cp < 0x20 || cp == 0x7F
            } else {
                false
            }
        };
        let src: &str = if neutralize {
            " "
        } else {
            s
        };
        proof {
            reveal_strlit(" ");
            assert(" "@ =~= seq![' ']);
            assert(src@ == spec_neutralized(s@));
        }
        let w: usize = match width {
            Some(w) => w,
            None => grapheme_column_width(src, None),
        };
        let bytes = src.as_bytes_vec();
        proof {
            encode_utf8_valid_utf8(src@);
            encode_utf8_decode_utf8(src@);
        }
        if bytes.len() < 8 {
            let len = bytes.len() as u8;
            let wide = w > 1;
            let buf: [u8; 7] = [
                byte_or_zero(&bytes, 0),
                byte_or_zero(&bytes, 1),
                byte_or_zero(&bytes, 2),
                byte_or_zero(&bytes, 3),
                byte_or_zero(&bytes, 4),
                byte_or_zero(&bytes, 5),
                byte_or_zero(&bytes, 6),
            ];
            proof {
                assert(buf@.take(len as int) =~= bytes@);
                assert(spec_neutralized(s@).len() >= 1);
                assert(encode_utf8(spec_neutralized(s@)).len() >= spec_neutralized(s@).len()) by {
                    lemma_encode_at_least_one_byte_per_char(spec_neutralized(s@));
                }
            }
            TeenyString { repr: TeenyRepr::Inline { bytes: buf, len, wide } }
        } else {
            TeenyString { repr: TeenyRepr::Heap { bytes, width: w } }
        }
    }

    /// Encode a single character for cell storage, through the same
    /// neutralization and width path as `from_str`.
    pub fn from_char(c: char) -> (r: TeenyString)
        ensures
            r.wf(),
            r.text_view() == spec_neutralized(seq![c]),
            r.width_view() == spec_stored_width(spec_neutralized(seq![c]), None),
            r.is_inline_view(),
    {
        let s = char_to_string(c);
        let r = Self::from_str(s.as_str(), None);
        proof {
            lemma_encode_of_short_text_is_short(spec_neutralized(seq![c]));
        }
        r
    }

    /// The canonical blank value: a single space, one column wide,
    /// stored inline.  Byte-equal to `from_char(' ')`.
    pub fn space() -> (r: TeenyString)
        ensures
            r.wf(),
            r.text_view() == seq![' '],
            r.bytes_view() == encode_utf8(seq![' ']),
            r.width_view() == 1,
            r.is_inline_view(),
    {
        let r = TeenyString {
            repr: TeenyRepr::Inline { bytes: [0x20, 0, 0, 0, 0, 0, 0], len: 1, wide: false },
        };
        proof {
            lemma_space_encoding();
            assert(r.bytes_view() =~= seq![0x20u8]);
            encode_utf8_valid_utf8(seq![' ']);
            encode_utf8_decode_utf8(seq![' ']);
        }
        r
    }

    /// The number of cells this grapheme visually occupies.
    pub fn width(&self) -> (r: usize)
        ensures
            r == self.width_view(),
    {
        match &self.repr {
            TeenyRepr::Inline { wide, .. } => if *wide {
                2
            } else {
                1
            },
            TeenyRepr::Heap { width, .. } => *width,
        }
    }

    /// The stored bytes; always the UTF-8 form of the stored text.
    pub fn as_bytes(&self) -> (r: &[u8])
        ensures
            r@ == self.bytes_view(),
    {
        match &self.repr {
            TeenyRepr::Inline { bytes, len, .. } => {
                let l: usize = if (*len as usize) <= 7 {
                    *len as usize
                } else {
                    7
                };
                let whole = bytes.as_slice();
                let prefix = &whole[0..l];
                proof {
                    assert(prefix@ =~= self.bytes_view());
                }
                prefix
            },
            TeenyRepr::Heap { bytes, .. } => bytes.as_slice(),
        }
    }

    /// The stored grapheme cluster.
    pub fn str(&self) -> (r: &str)
        requires
            self.wf(),
        ensures
            r@ == self.text_view(),
    {
        bytes_as_str(self.as_bytes())
    }
}

/// Byte-content equality, regardless of inline or heap representation;
/// the cached width does not participate.
impl PartialEq for TeenyString {
    fn eq(&self, other: &Self) -> (r: bool) {
        let a = self.as_bytes();
        let b = other.as_bytes();
        if a.len() != b.len() {
            return false;
        }
        let mut i: usize = 0;
        while i < a.len()
            invariant
                0 <= i <= a@.len(),
                a@.len() == b@.len(),
                a@ == self.bytes_view(),
                b@ == other.bytes_view(),
                forall|j: int| 0 <= j < i ==> a@[j] == b@[j],
            decreases a@.len() - i,
        {
            if a[i] != b[i] {
                return false;
            }
            i = i + 1;
        }
        proof {
            assert(a@ =~= b@);
        }
        true
    }
}

impl Eq for TeenyString {

}

impl vstd::std_specs::cmp::PartialEqSpecImpl for TeenyString {
    open spec fn obeys_eq_spec() -> bool {
        true
    }

    open spec fn eq_spec(&self, other: &Self) -> bool {
        self.bytes_view() == other.bytes_view()
    }
}

fn byte_or_zero(v: &Vec<u8>, i: usize) -> (r: u8)
    ensures
        r == if i < v@.len() {
            v@[i as int]
        } else {
            0
        },
{
    if i < v.len() {
        v[i]
    } else {
        0
    }
}

/// Relies on `String::from` for `char`: the returned string holds
/// exactly that character.
#[verifier::external_body]
fn char_to_string(c: char) -> (r: String)
    ensures
        r@ == seq![c],
{
    String::from(c)
}

/// Relies on `std::str::from_utf8`: on valid UTF-8 input it succeeds
/// and returns the string those bytes encode.
#[verifier::external_body]
fn bytes_as_str(bytes: &[u8]) -> (r: &str)
    requires
        valid_utf8(bytes@),
    ensures
        r@ == decode_utf8(bytes@),
{
    match std::str::from_utf8(bytes) {
        Ok(s) => s,
        Err(_) => "",
    }
}

/// Every character contributes at least one byte to the UTF-8 form.
proof fn lemma_encode_at_least_one_byte_per_char(s: Seq<char>)
    ensures
        encode_utf8(s).len() >= s.len(),
    decreases s.len(),
{
    if s.len() > 0 {
        lemma_encode_at_least_one_byte_per_char(s.drop_first());
    }
}

/// Every character fits in four UTF-8 bytes, so short text has a short
/// UTF-8 form.
proof fn lemma_encode_of_short_text_is_short(s: Seq<char>)
    requires
        s.len() <= 1,
    ensures
        encode_utf8(s).len() < 8,
{
    if s.len() == 1 {
        assert(encode_utf8(s.drop_first()) =~= Seq::<u8>::empty());
        assert(encode_scalar(s[0] as u32).len() <= 4) by {
            vstd::utf8::char_is_scalar(s[0]);
        }
    }
}

/// The UTF-8 form of a single space is the single byte 0x20.
proof fn lemma_space_encoding()
    ensures
        encode_utf8(seq![' ']) =~= seq![0x20u8],
{
    let s = seq![' '];
    assert(' ' as u32 == 0x20);
    assert((0x20u32 & 0x7F) == 0x20) by (bit_vector);
    assert(encode_scalar(0x20) =~= seq![0x20u8]);
    assert(s.drop_first() =~= Seq::<char>::empty());
    assert(encode_utf8(s) =~= encode_scalar(0x20) + encode_utf8(Seq::<char>::empty()));
}

} // verus!
