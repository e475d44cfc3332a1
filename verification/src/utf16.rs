use vstd::prelude::*;

verus! {

/// The UTF-16 code units of one character: the character itself below
/// `0x10000`, else a high and a low surrogate.
pub open spec fn utf16_char(c: char) -> Seq<u16> {
    let v = c as u32 as int;
    if v < 0x10000 {
        seq![v as u16]
    } else {
        let u = v - 0x10000;
        seq![(0xD800 + u / 0x400) as u16, (0xDC00 + u % 0x400) as u16]
    }
}

/// The UTF-16 encoding of a string.
pub open spec fn utf16(s: Seq<char>) -> Seq<u16>
    decreases s.len(),
{
    if s.len() == 0 {
        seq![]
    } else {
        utf16(s.drop_last()) + utf16_char(s.last())
    }
}

/// The encoding of a prefix is a prefix of the encoding.
pub proof fn lemma_utf16_prefix(s: Seq<char>, k: int)
    requires
        0 <= k <= s.len(),
    ensures
        utf16(s.take(k)).len() <= utf16(s).len(),
    decreases s.len() - k,
{
    if k < s.len() {
        lemma_utf16_prefix(s, k + 1);
        assert(s.take(k + 1).drop_last() =~= s.take(k));
    } else {
        assert(s.take(k) =~= s);
    }
}

/// Writes the UTF-16 encoding of `s` into an array of `N` code units,
/// followed by a terminating zero and zeros up to the end, the form UEFI
/// expects of a string. The encoding and its terminator must fit.
pub fn utf16_cstring<const N: usize>(s: &str) -> (buf: [u16; N])
    requires
        utf16(s@).len() < N,
    ensures
        buf@ == utf16(s@) + Seq::new((N - utf16(s@).len()) as nat, |i: int| 0u16),
{
    let mut buf: [u16; N] = [0u16; N];
    let mut len: usize = 0;
    let ghost chars = s@;

    for c in iter: s.chars()
        invariant
            iter.seq() == chars,
            chars == s@,
            utf16(chars).len() < N,
            0 <= iter.index() <= chars.len(),
            len == utf16(chars.take(iter.index() as int)).len(),
            len <= utf16(chars).len(),
            forall|j: int| 0 <= j < len ==> buf@[j] == utf16(chars.take(iter.index() as int))[j],
            forall|j: int| len <= j < N ==> buf@[j] == 0u16,
    {
        let ghost k = iter.index() as int;
        proof {
            assert(chars.take(k + 1).drop_last() =~= chars.take(k));
            lemma_utf16_prefix(chars, k + 1);
            assert(c == chars[k]);
            assert(chars.take(k + 1).last() == c);
            assert(utf16(chars.take(k + 1)) == utf16(chars.take(k)) + utf16_char(c));
        }
        let v: u32 = c as u32;
        proof {
            vstd::utf8::char_is_scalar(c);
        }
        if v < 0x10000 {
            buf[len] = v as u16;
            len = len + 1;
        } else {
            let u: u32 = v - 0x10000;
            assert(u <= 0xFFFFF);
            buf[len] = (0xD800 + u / 0x400) as u16;
            buf[len + 1] = (0xDC00 + u % 0x400) as u16;
            len = len + 2;
        }
    }
    proof {
        assert(chars.take(chars.len() as int) =~= chars);
    }
    buf[len] = 0;
    assert(buf@ =~= utf16(s@) + Seq::new((N - utf16(s@).len()) as nat, |i: int| 0u16));
    buf
}


/// A string without NUL characters encodes to code units none of which is 0.
pub proof fn lemma_utf16_no_zero(s: Seq<char>)
    requires
        forall|i: int| 0 <= i < s.len() ==> s[i] as u32 != 0,
    ensures
        forall|j: int| 0 <= j < utf16(s).len() ==> utf16(s)[j] != 0u16,
    decreases s.len(),
{
    if s.len() > 0 {
        let c = s.last();
        assert(c as u32 != 0);
        vstd::utf8::char_is_scalar(c);
        lemma_utf16_no_zero(s.drop_last());
        assert(utf16(s) == utf16(s.drop_last()) + utf16_char(c));
        assert forall|k: int| 0 <= k < utf16_char(c).len() implies utf16_char(c)[k] != 0u16 by {
            let v = c as u32 as int;
            if v >= 0x10000 {
                assert(v <= 0x10FFFF);
                assert(0xD800 <= 0xD800 + (v - 0x10000) / 0x400 <= 0xDBFF);
            }
        }
        assert forall|j: int| 0 <= j < utf16(s).len() implies utf16(s)[j] != 0u16 by {
            let head = utf16(s.drop_last());
            if j >= head.len() {
                assert(utf16(s)[j] == utf16_char(c)[j - head.len()]);
            }
        }
    }
}

/// The buffer that `utf16_cstring` fills reads back, as a NUL-terminated
/// string, as exactly the encoding of a string without NUL characters: its
/// first zero is the terminator right after the encoding.
pub proof fn lemma_cstring_reads_back(s: Seq<char>, n: nat)
    requires
        forall|i: int| 0 <= i < s.len() ==> s[i] as u32 != 0,
        utf16(s).len() < n,
    ensures
        ({
            let buf = utf16(s) + Seq::new((n - utf16(s).len()) as nat, |i: int| 0u16);
            &&& buf.len() == n
            &&& buf[utf16(s).len() as int] == 0u16
            &&& forall|j: int| 0 <= j < utf16(s).len() ==> buf[j] != 0u16 && buf[j] == utf16(s)[j]
        }),
{
    lemma_utf16_no_zero(s);
}

} // verus!
