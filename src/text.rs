//! Text held in values: the nul character cannot stand in a serialized
//! string, so text is cut at its first nul.
use vstd::prelude::*;
use vstd::utf8::{encode_utf8, encode_scalar, decode_utf8, valid_utf8};
use crate::value::no_nul;
use crate::decode::nul_free_bytes;

verus! {

/// Relies on `String::from_utf8`: it succeeds exactly on valid UTF-8, and
/// the string then holds the characters that the bytes encode.
#[verifier::external_body]
pub(crate) fn string_from_utf8(b: Vec<u8>) -> (r: Option<String>)
    ensures
        r is Some <==> valid_utf8(b@),
        r matches Some(s) ==> s@ == decode_utf8(b@),
{
    String::from_utf8(b).ok()
}

/// The UTF-8 encoding of a character other than nul holds no zero byte.
pub proof fn lemma_scalar_nul_free(c: char)
    requires
        c != '\0',
    ensures
        nul_free_bytes(encode_scalar(c as u32)),
{
    let u = c as u32;
    vstd::utf8::char_u32_cast(c, u);
    assert(u != 0) by {
        if u == 0 {
            vstd::utf8::char_u32_cast('\0', 0u32);
        }
    }
    let e = encode_scalar(u);
    assert forall|i: int| 0 <= i < e.len() implies e[i] != 0 by {
        if u <= 0x7F {
            assert(u & 0x7F != 0) by (bit_vector) requires u != 0, u <= 0x7F;
        } else {
            assert(forall|y: u8| #[trigger] (0xC0u8 | y) != 0) by (bit_vector);
            assert(forall|y: u8| #[trigger] (0xE0u8 | y) != 0) by (bit_vector);
            assert(forall|y: u8| #[trigger] (0xF0u8 | y) != 0) by (bit_vector);
            assert(forall|y: u8| #[trigger] (0x80u8 | y) != 0) by (bit_vector);
        }
    }
}

/// Text without nul encodes to bytes without zero.
pub proof fn lemma_text_nul_free(s: Seq<char>)
    requires
        no_nul(s),
    ensures
        nul_free_bytes(encode_utf8(s)),
    decreases s.len(),
{
    if s.len() > 0 {
        lemma_scalar_nul_free(s[0]);
        assert(no_nul(s.drop_first())) by {
            assert forall|i: int| 0 <= i < s.drop_first().len() implies s.drop_first()[i] != '\0' by {
                assert(s.drop_first()[i] == s[i + 1]);
            }
        }
        lemma_text_nul_free(s.drop_first());
        let a = encode_scalar(s[0] as u32);
        let b = encode_utf8(s.drop_first());
        assert forall|i: int| 0 <= i < (a + b).len() implies (a + b)[i] != 0 by {
            if i < a.len() {
                assert((a + b)[i] == a[i]);
            } else {
                assert((a + b)[i] == b[i - a.len()]);
            }
        }
    }
}


/// The encoding of joined text is the joined encodings.
pub proof fn lemma_encode_concat(a: Seq<char>, b: Seq<char>)
    ensures
        encode_utf8(a + b) == encode_utf8(a) + encode_utf8(b),
    decreases a.len(),
{
    if a.len() == 0 {
        assert(a + b =~= b);
        assert(Seq::<u8>::empty() + encode_utf8(b) =~= encode_utf8(b));
    } else {
        assert((a + b).drop_first() =~= a.drop_first() + b);
        assert((a + b)[0] == a[0]);
        lemma_encode_concat(a.drop_first(), b);
        assert(encode_scalar(a[0] as u32) + (encode_utf8(a.drop_first()) + encode_utf8(b))
            =~= encode_scalar(a[0] as u32) + encode_utf8(a.drop_first()) + encode_utf8(b));
    }
}

/// Where the first nul of `s` stands, or its length where it has none.
pub open spec fn first_nul(s: Seq<char>) -> int
    decreases s.len(),
{
    if s.len() == 0 {
        0
    } else if s[0] == '\0' {
        0
    } else {
        1 + first_nul(s.drop_first())
    }
}

/// The text before the first nul of `s`; all of `s` where it has none.
pub open spec fn cut_nul(s: Seq<char>) -> Seq<char> {
    s.subrange(0, first_nul(s))
}

pub proof fn lemma_first_nul(s: Seq<char>)
    ensures
        0 <= first_nul(s) <= s.len(),
        first_nul(s) < s.len() ==> s[first_nul(s)] == '\0',
        no_nul(cut_nul(s)),
        no_nul(s) ==> first_nul(s) == s.len(),
    decreases s.len(),
{
    if s.len() > 0 && s[0] != '\0' {
        lemma_first_nul(s.drop_first());
        let t = s.drop_first();
        assert forall|i: int| 0 <= i < first_nul(s) implies s[i] != '\0' by {
            if i > 0 {
                assert(s[i] == t[i - 1]);
                assert(cut_nul(t)[i - 1] == t[i - 1]);
            }
        }
        if no_nul(s) {
            assert forall|i: int| 0 <= i < t.len() implies t[i] != '\0' by {
                assert(t[i] == s[i + 1]);
            }
        }
    }
    if no_nul(s) && s.len() > 0 {
        assert(s[0] != '\0');
    }
}

/// Where text holds a nul, its encoding is the encoding of the text before
/// it, a zero byte, then the rest.
pub proof fn lemma_encode_at_nul(s: Seq<char>)
    requires
        first_nul(s) < s.len(),
    ensures
        encode_utf8(s) == encode_utf8(cut_nul(s)) + seq![0u8] + encode_utf8(s.subrange(first_nul(s) + 1, s.len() as int)),
        nul_free_bytes(encode_utf8(cut_nul(s))),
{
    lemma_first_nul(s);
    let j = first_nul(s);
    let pre = s.subrange(0, j);
    let post = s.subrange(j + 1, s.len() as int);
    assert(s =~= pre + (seq!['\0'] + post));
    lemma_encode_concat(pre, seq!['\0'] + post);
    lemma_encode_concat(seq!['\0'], post);
    assert(seq!['\0'].drop_first() =~= Seq::<char>::empty());
    assert(('\0' as u32) == 0);
    assert(seq!['\0'][0] == '\0');
    assert(encode_scalar(0u32) =~= seq![0u8]) by {
        assert(0u32 & 0x7Fu32 == 0u32) by (bit_vector);
    }
    assert(encode_utf8(Seq::<char>::empty()) == Seq::<u8>::empty());
    assert(encode_utf8(seq!['\0']) == encode_scalar(0u32) + encode_utf8(seq!['\0'].drop_first()));
    assert(encode_utf8(seq!['\0']) =~= seq![0u8]);
    assert(encode_utf8(pre) + (seq![0u8] + encode_utf8(post)) =~= encode_utf8(pre) + seq![0u8] + encode_utf8(post));
    lemma_text_nul_free(pre);
}

/// Valid UTF-8 without a zero byte decodes to text without nul.
pub proof fn lemma_decoded_no_nul(b: Seq<u8>)
    requires
        valid_utf8(b),
        nul_free_bytes(b),
    ensures
        no_nul(decode_utf8(b)),
{
    let s = decode_utf8(b);
    vstd::utf8::decode_utf8_encode_utf8(b);
    lemma_first_nul(s);
    if first_nul(s) < s.len() {
        lemma_encode_at_nul(s);
        let n = encode_utf8(cut_nul(s)).len();
        assert(encode_utf8(s)[n as int] == 0);
        assert(b[n as int] == 0);
    } else {
        assert(cut_nul(s) =~= s);
    }
}

/// Where the first zero byte of `b` stands, if any.
fn first_zero(b: &[u8]) -> (r: Option<usize>)
    ensures
        r matches Some(p) ==> p < b@.len() && b@[p as int] == 0 && nul_free_bytes(b@.subrange(0, p as int)),
        r is None ==> nul_free_bytes(b@),
{
    let mut i: usize = 0;
    while i < b.len()
        invariant
            i <= b@.len(),
            forall|j: int| 0 <= j < i ==> b@[j] != 0,
        decreases b.len() - i,
    {
        if b[i] == 0 {
            return Some(i);
        }
        i = i + 1;
    }
    None
}

/// The text of `s` before its first nul.
pub fn text_before_nul(s: &str) -> (r: String)
    ensures
        r@ == cut_nul(s@),
{
    let b = s.as_bytes();
    proof { lemma_first_nul(s@); }
    match first_zero(b) {
        None => {
            proof {
                if first_nul(s@) < s@.len() {
                    lemma_encode_at_nul(s@);
                    let n = encode_utf8(cut_nul(s@)).len();
                    assert(b@[n as int] == 0);
                }
                assert(cut_nul(s@) =~= s@);
            }
            String::from_str(s)
        },
        Some(p) => {
            proof {
                if first_nul(s@) == s@.len() {
                    assert(cut_nul(s@) =~= s@);
                    lemma_text_nul_free(s@);
                }
                lemma_encode_at_nul(s@);
                let e = encode_utf8(cut_nul(s@));
                let n = e.len();
                if p < n {
                    assert(b@[p as int] == e[p as int]);
                }
                if p > n {
                    assert(b@.subrange(0, p as int)[n as int] == 0);
                }
                assert(b@.subrange(0, p as int) =~= e);
                vstd::utf8::encode_utf8_valid_utf8(cut_nul(s@));
                vstd::utf8::encode_utf8_decode_utf8(cut_nul(s@));
            }
            let pre = vstd::slice::slice_subrange(b, 0, p);
            string_from_utf8(vstd::slice::slice_to_vec(pre)).unwrap()
        },
    }
}

} // verus!
