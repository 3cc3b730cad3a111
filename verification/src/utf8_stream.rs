//! UTF-8 re-assembly of streamed token bytes.
//!
//! Model tokens are byte sequences that need not align to UTF-8 character
//! boundaries. The assembler buffers raw bytes and, at each step, emits the
//! longest valid-UTF-8 prefix as text, retaining the incomplete suffix. At
//! end of generation the remaining buffer is flushed as one final piece iff
//! it decodes; otherwise it is discarded. Every emission is valid UTF-8 and
//! no character is split across emissions.

use vstd::prelude::*;
use vstd::utf8::*;

verus! {

/// The length of the longest prefix of `s` that is a valid UTF-8 encoding:
/// whole scalars are taken greedily from the front until the remainder does
/// not begin with one.
pub open spec fn utf8_boundary(s: Seq<u8>) -> int
    decreases s.len(),
{
    if s.len() == 0 {
        0
    } else if valid_first_scalar(s) && 1 <= length_of_first_scalar(s) <= s.len() {
        length_of_first_scalar(s) + utf8_boundary(
            s.subrange(length_of_first_scalar(s), s.len() as int),
        )
    } else {
        0
    }
}

/// Length of the valid scalar encoding starting at `at` in `buf`, or `None`
/// when none starts there.
fn first_scalar_len(buf: &Vec<u8>, at: usize) -> (r: Option<usize>)
    requires
        at < buf@.len(),
    ensures
        ({
            let suffix = buf@.subrange(at as int, buf@.len() as int);
            match r {
                Some(l) => {
                    &&& valid_first_scalar(suffix)
                    &&& l == length_of_first_scalar(suffix)
                    &&& 1 <= l <= suffix.len()
                },
                None => !valid_first_scalar(suffix),
            }
        }),
{
    let ghost suffix = buf@.subrange(at as int, buf@.len() as int);
    let n = buf.len();
    let b0 = buf[at];
    proof {
        assert(suffix[0] == buf@[at as int]);
    }
    if b0 <= 0x7f {
        Some(1)
    } else if 0xc0 <= b0 && b0 <= 0xdf {
        if n - at >= 2 {
            let b1 = buf[at + 1];
            proof {
                assert(suffix[1] == buf@[at + 1]);
            }
            if 0x80 <= b1 && b1 <= 0xbf {
                let cp: u32 = (((b0 & 0x1f) as u32) << 6u32) | ((b1 & 0x3f) as u32);
                proof {
                    assert(cp == codepoint_width_2(b0, b1));
                }
                if cp >= 0x80 {
                    proof {
                        assert(cp <= 0x7ff) by (bit_vector)
                            requires
                                cp == (((b0 & 0x1f) as u32) << 6u32) | ((b1 & 0x3f) as u32),
                        ;
                    }
                    Some(2)
                } else {
                    None
                }
            } else {
                None
            }
        } else {
            None
        }
    } else if 0xe0 <= b0 && b0 <= 0xef {
        if n - at >= 3 {
            let b1 = buf[at + 1];
            let b2 = buf[at + 2];
            proof {
                assert(suffix[1] == buf@[at + 1]);
                assert(suffix[2] == buf@[at + 2]);
            }
            if 0x80 <= b1 && b1 <= 0xbf && 0x80 <= b2 && b2 <= 0xbf {
                let cp: u32 = (((b0 & 0x0f) as u32) << 12u32) | (((b1 & 0x3f) as u32) << 6u32) | ((
                b2 & 0x3f) as u32);
                proof {
                    assert(cp == codepoint_width_3(b0, b1, b2));
                }
                if cp >= 0x800 && !(0xd800 <= cp && cp <= 0xdfff) {
                    Some(3)
                } else {
                    None
                }
            } else {
                None
            }
        } else {
            None
        }
    } else if 0xf0 <= b0 && b0 <= 0xf7 {
        if n - at >= 4 {
            let b1 = buf[at + 1];
            let b2 = buf[at + 2];
            let b3 = buf[at + 3];
            proof {
                assert(suffix[1] == buf@[at + 1]);
                assert(suffix[2] == buf@[at + 2]);
                assert(suffix[3] == buf@[at + 3]);
            }
            if 0x80 <= b1 && b1 <= 0xbf && 0x80 <= b2 && b2 <= 0xbf && 0x80 <= b3 && b3 <= 0xbf {
                let cp: u32 = (((b0 & 0x07) as u32) << 18u32) | (((b1 & 0x3f) as u32) << 12u32) | ((
                (b2 & 0x3f) as u32) << 6u32) | ((b3 & 0x3f) as u32);
                proof {
                    assert(cp == codepoint_width_4(b0, b1, b2, b3));
                    assert(cp > 0xdfff || cp < 0x10000) by (bit_vector);
                }
                if 0x10000 <= cp && cp <= 0x10ffff {
                    Some(4)
                } else {
                    None
                }
            } else {
                None
            }
        } else {
            None
        }
    } else {
        None
    }
}

/// The greedy valid-prefix boundary of the buffer.
fn scan_boundary(buf: &Vec<u8>) -> (k: usize)
    ensures
        k == utf8_boundary(buf@),
        k <= buf@.len(),
        valid_utf8(buf@.subrange(0, k as int)),
{
    let n = buf.len();
    let mut i: usize = 0;
    proof {
        lemma_boundary_partial_valid(buf@);
        assert(buf@.subrange(0, 0) =~= Seq::<u8>::empty());
        assert(buf@.subrange(0, n as int) =~= buf@);
    }
    while i < n
        invariant
            i <= n,
            n == buf@.len(),
            utf8_boundary(buf@) == i + utf8_boundary(buf@.subrange(i as int, n as int)),
            valid_utf8(buf@.subrange(0, i as int)),
        decreases n - i,
    {
        let ghost suffix = buf@.subrange(i as int, n as int);
        match first_scalar_len(buf, i) {
            Some(l) => {
                proof {
                    assert(utf8_boundary(suffix) == l + utf8_boundary(
                        suffix.subrange(l as int, suffix.len() as int),
                    ));
                    assert(suffix.subrange(l as int, suffix.len() as int) =~= buf@.subrange(
                        i + l,
                        n as int,
                    ));
                    broadcast use vstd::utf8::partial_valid_utf8_extend;

                    assert(partial_valid_utf8(buf@, i as int));
                    assert(valid_first_scalar(buf@.subrange(i as int, buf@.len() as int)));
                    assert(partial_valid_utf8(buf@, i + l));
                }
                i = i + l;
            },
            None => {
                proof {
                    assert(utf8_boundary(suffix) == 0);
                }
                return i;
            },
        }
    }
    proof {
        assert(buf@.subrange(i as int, n as int) =~= Seq::<u8>::empty());
        assert(utf8_boundary(Seq::<u8>::empty()) == 0);
        assert(buf@.subrange(0, i as int) =~= buf@);
    }
    i
}

/// The boundary never exceeds the length, and the prefix it cuts is valid.
proof fn lemma_boundary_partial_valid(s: Seq<u8>)
    ensures
        0 <= utf8_boundary(s) <= s.len(),
        valid_utf8(s.subrange(0, utf8_boundary(s))),
    decreases s.len(),
{
    if s.len() == 0 {
        assert(s.subrange(0, 0) =~= s);
    } else if valid_first_scalar(s) && 1 <= length_of_first_scalar(s) <= s.len() {
        let l = length_of_first_scalar(s);
        let rest = s.subrange(l, s.len() as int);
        lemma_boundary_partial_valid(rest);
        let b = utf8_boundary(s);
        assert(b == l + utf8_boundary(rest));
        assert(valid_utf8(rest.subrange(0, utf8_boundary(rest))));
        assert(s.subrange(0, l) =~= take_first_scalar(s));
        lemma_take_first_scalar_valid(s);
        valid_utf8_concat(s.subrange(0, l), rest.subrange(0, utf8_boundary(rest)));
        assert(s.subrange(0, b) =~= s.subrange(0, l) + rest.subrange(0, utf8_boundary(rest)));
    } else {
        assert(s.subrange(0, 0) =~= Seq::<u8>::empty());
    }
}

/// A complete scalar encoding at the front is itself valid UTF-8.
proof fn lemma_take_first_scalar_valid(s: Seq<u8>)
    requires
        valid_first_scalar(s),
        length_of_first_scalar(s) <= s.len(),
    ensures
        valid_utf8(take_first_scalar(s)),
{
    let head = take_first_scalar(s);
    let l = length_of_first_scalar(s);
    assert(head.len() == l);
    assert(head[0] == s[0]);
    if is_leading_byte_width_1(s[0]) {
        assert(l == 1);
        assert(decode_first_codepoint(head) == decode_first_codepoint(s));
    } else if is_leading_byte_width_2(s[0]) {
        assert(l == 2);
        assert(head[1] == s[1]);
        assert(decode_first_codepoint(head) == decode_first_codepoint(s));
    } else if is_leading_byte_width_3(s[0]) {
        assert(l == 3);
        assert(head[1] == s[1]);
        assert(head[2] == s[2]);
        assert(decode_first_codepoint(head) == decode_first_codepoint(s));
    } else {
        assert(l == 4);
        assert(head[1] == s[1]);
        assert(head[2] == s[2]);
        assert(head[3] == s[3]);
        assert(decode_first_codepoint(head) == decode_first_codepoint(s));
    }
    assert(valid_first_scalar(head));
    assert(length_of_first_scalar(head) == l);
    assert(pop_first_scalar(head) =~= Seq::<u8>::empty());
    assert(valid_utf8(Seq::<u8>::empty()));
}

/// Relies on `String::from_utf8`: the text that the given valid UTF-8 bytes
/// encode.
#[verifier::external_body]
fn utf8_to_string(bytes: Vec<u8>) -> (r: String)
    requires
        valid_utf8(bytes@),
    ensures
        r@ == decode_utf8(bytes@),
{
    match String::from_utf8(bytes) {
        Ok(s) => s,
        Err(_) => String::new(),
    }
}

/// What one assembler step does to a buffer extended by a chunk: the text of
/// the longest valid prefix is emitted and the rest is retained.
pub open spec fn reassembly_step(buf: Seq<u8>, chunk: Seq<u8>) -> (Seq<char>, Seq<u8>) {
    let all = buf + chunk;
    let b = utf8_boundary(all);
    (decode_utf8(all.subrange(0, b)), all.subrange(b, all.len() as int))
}

/// Buffers token bytes and hands back the longest valid-UTF-8 prefix at each
/// step.
pub struct Utf8Assembler {
    buf: Vec<u8>,
}

impl Utf8Assembler {
    /// The bytes currently retained, always the undecodable remainder.
    pub closed spec fn buffered(&self) -> Seq<u8> {
        self.buf@
    }

    /// An assembler with nothing buffered.
    pub fn new() -> (r: Self)
        ensures
            r.buffered() == Seq::<u8>::empty(),
    {
        Utf8Assembler { buf: Vec::new() }
    }

    /// Take in one token's bytes; give out the text of the longest
    /// valid-UTF-8 prefix of what is buffered, if it is non-empty.
    pub fn push_bytes(&mut self, chunk: &[u8]) -> (out: Option<String>)
        ensures
            ({
                let (text, rest) = reassembly_step(old(self).buffered(), chunk@);
                &&& final(self).buffered() == rest
                &&& match out {
                    Some(s) => s@ == text && text.len() > 0,
                    None => text.len() == 0,
                }
            }),
    {
        let mut ci: usize = 0;
        while ci < chunk.len()
            invariant
                ci <= chunk@.len(),
                self.buf@ == old(self).buffered() + chunk@.subrange(0, ci as int),
            decreases chunk@.len() - ci,
        {
            self.buf.push(chunk[ci]);
            proof {
                assert(self.buf@ =~= old(self).buffered() + chunk@.subrange(0, ci + 1 as int));
            }
            ci = ci + 1;
        }
        proof {
            assert(chunk@.subrange(0, chunk@.len() as int) =~= chunk@);
        }
        let k = scan_boundary(&self.buf);
        let ghost all = self.buf@;
        if k == 0 {
            proof {
                assert(all.subrange(0, 0) =~= Seq::<u8>::empty());
                assert(decode_utf8(Seq::<u8>::empty()) =~= Seq::<char>::empty());
                assert(all.subrange(0, all.len() as int) =~= all);
            }
            return None;
        }
        let mut head: Vec<u8> = Vec::new();
        core::mem::swap(&mut head, &mut self.buf);
        let tail = head.split_off(k);
        self.buf = tail;
        proof {
            assert(self.buf@ =~= all.subrange(k as int, all.len() as int));
            assert(head@ =~= all.subrange(0, k as int));
        }
        let s = utf8_to_string(head);
        proof {
            if decode_utf8(all.subrange(0, k as int)).len() == 0 {
                assert(all.subrange(0, k as int).len() == 0);
                assert(false);
            }
        }
        Some(s)
    }

    /// End of generation: the remaining buffer becomes one final piece of
    /// text iff it decodes as UTF-8; otherwise it is discarded. Either way
    /// the buffer is left empty.
    pub fn flush(&mut self) -> (out: Option<String>)
        ensures
            final(self).buffered() == Seq::<u8>::empty(),
            ({
                if valid_utf8(old(self).buffered()) && old(self).buffered().len() > 0 {
                    out matches Some(s) && s@ == decode_utf8(old(self).buffered())
                } else {
                    out is None
                }
            }),
    {
        let k = scan_boundary(&self.buf);
        if self.buf.len() > 0 && k == self.buf.len() {
            let mut bytes: Vec<u8> = Vec::new();
            core::mem::swap(&mut bytes, &mut self.buf);
            proof {
                assert(bytes@.subrange(0, bytes@.len() as int) =~= bytes@);
                lemma_boundary_full_iff_valid(bytes@);
            }
            Some(utf8_to_string(bytes))
        } else {
            proof {
                if valid_utf8(self.buf@) && self.buf@.len() > 0 {
                    lemma_boundary_full_iff_valid(self.buf@);
                    assert(false);
                }
            }
            self.buf.clear();
            None
        }
    }
}

/// The boundary covers the whole sequence exactly when the sequence is valid
/// UTF-8.
proof fn lemma_boundary_full_iff_valid(s: Seq<u8>)
    ensures
        utf8_boundary(s) == s.len() <==> valid_utf8(s),
    decreases s.len(),
{
    lemma_boundary_partial_valid(s);
    if s.len() == 0 {
    } else if valid_first_scalar(s) && 1 <= length_of_first_scalar(s) <= s.len() {
        let l = length_of_first_scalar(s);
        let rest = s.subrange(l, s.len() as int);
        lemma_boundary_full_iff_valid(rest);
        assert(rest =~= pop_first_scalar(s));
    } else {
        if valid_utf8(s) {
            assert(valid_first_scalar(s));
            assert(1 <= length_of_first_scalar(s) <= s.len());
        }
        assert(utf8_boundary(s) == 0);
    }
}


/// A valid scalar encoding at the front of `a` is unchanged by appending.
proof fn lemma_first_scalar_concat(a: Seq<u8>, b: Seq<u8>)
    requires
        valid_first_scalar(a),
    ensures
        valid_first_scalar(a + b),
        length_of_first_scalar(a + b) == length_of_first_scalar(a),
        decode_first_scalar(a + b) == decode_first_scalar(a),
{
    let c = a + b;
    assert(c[0] == a[0]);
    if is_leading_byte_width_1(a[0]) {
    } else if is_leading_byte_width_2(a[0]) {
        assert(a.len() >= 2);
        assert(c[1] == a[1]);
    } else if is_leading_byte_width_3(a[0]) {
        assert(a.len() >= 3);
        assert(c[1] == a[1]);
        assert(c[2] == a[2]);
    } else {
        assert(a.len() >= 4);
        assert(c[1] == a[1]);
        assert(c[2] == a[2]);
        assert(c[3] == a[3]);
    }
}

/// Greedy decoding walks through a whole valid prefix before it looks at
/// what follows.
proof fn lemma_boundary_concat(v: Seq<u8>, rest: Seq<u8>)
    requires
        valid_utf8(v),
    ensures
        utf8_boundary(v + rest) == v.len() + utf8_boundary(rest),
    decreases v.len(),
{
    if v.len() == 0 {
        assert(v + rest =~= rest);
    } else {
        let l = length_of_first_scalar(v);
        assert(1 <= l <= v.len());
        lemma_first_scalar_concat(v, rest);
        let c = v + rest;
        assert(utf8_boundary(c) == l + utf8_boundary(c.subrange(l, c.len() as int)));
        assert(c.subrange(l, c.len() as int) =~= pop_first_scalar(v) + rest);
        lemma_boundary_concat(pop_first_scalar(v), rest);
    }
}

/// A strict prefix of one scalar's encoding admits no scalar at all, so
/// greedy decoding stops at its start.
proof fn lemma_boundary_strict_partial(c: char, p: Seq<u8>)
    requires
        p.len() < encode_scalar(c as u32).len(),
        p == encode_scalar(c as u32).subrange(0, p.len() as int),
    ensures
        utf8_boundary(p) == 0,
{
    if p.len() == 0 {
    } else {
        let s = c as u32;
        char_is_scalar(c);
        if has_width_1_encoding(s) {
            assert(false);
        } else if has_width_2_encoding(s) {
            let b = leading_byte_width_2(s);
            assert(0xc0 <= b && b <= 0xdf) by (bit_vector)
                requires
                    b == 0xC0 | (((s >> 6u32) & 0x1F) as u8),
            ;
            assert(p[0] == b);
            assert(p.len() == 1);
            assert(!valid_leading_and_continuation_bytes_first_codepoint(p));
        } else if has_width_3_encoding(s) {
            let b = leading_byte_width_3(s);
            assert(0xe0 <= b && b <= 0xef) by (bit_vector)
                requires
                    b == 0xE0 | (((s >> 12u32) & 0x0F) as u8),
            ;
            assert(p[0] == b);
            assert(p.len() <= 2);
            assert(!valid_leading_and_continuation_bytes_first_codepoint(p));
        } else {
            let b = leading_byte_width_4(s);
            assert(0xf0 <= b && b <= 0xf7) by (bit_vector)
                requires
                    b == 0xF0 | (((s >> 18u32) & 0x7) as u8),
            ;
            assert(p[0] == b);
            assert(p.len() <= 3);
            assert(!valid_leading_and_continuation_bytes_first_codepoint(p));
        }
        assert(!valid_first_scalar(p));
    }
}

/// Encoding distributes over concatenation of character sequences.
pub proof fn lemma_encode_utf8_concat(a: Seq<char>, b: Seq<char>)
    ensures
        encode_utf8(a + b) == encode_utf8(a) + encode_utf8(b),
    decreases a.len(),
{
    if a.len() == 0 {
        assert(a + b =~= b);
        assert(encode_utf8(a) =~= Seq::<u8>::empty());
        assert(encode_utf8(a) + encode_utf8(b) =~= encode_utf8(b));
    } else {
        let c = a + b;
        assert(c[0] == a[0]);
        assert(c.drop_first() =~= a.drop_first() + b);
        lemma_encode_utf8_concat(a.drop_first(), b);
        assert(encode_utf8(c) == encode_scalar(a[0] as u32) + (encode_utf8(a.drop_first())
            + encode_utf8(b)));
        assert(encode_scalar(a[0] as u32) + (encode_utf8(a.drop_first()) + encode_utf8(b)) =~= (
        encode_scalar(a[0] as u32) + encode_utf8(a.drop_first())) + encode_utf8(b));
    }
}

/// How many whole characters of `s` fit in the first `m` bytes of its UTF-8
/// encoding.
pub open spec fn chars_before(s: Seq<char>, m: int) -> int
    decreases s.len(),
{
    if s.len() == 0 {
        0
    } else {
        let w = encode_scalar(s[0] as u32).len();
        if m >= w {
            1 + chars_before(s.drop_first(), m - w)
        } else {
            0
        }
    }
}

/// Cutting the encoding of `s` after `m` bytes gives the encoding of the
/// first `chars_before(s, m)` characters followed by a strict prefix of the
/// next character's encoding.
proof fn lemma_encode_prefix(s: Seq<char>, m: int)
    requires
        0 <= m <= encode_utf8(s).len(),
    ensures
        ({
            let j = chars_before(s, m);
            let consumed = encode_utf8(s.take(j)).len() as int;
            &&& 0 <= j <= s.len()
            &&& consumed <= m
            &&& encode_utf8(s.take(j)) == encode_utf8(s).subrange(0, consumed)
            &&& (j < s.len() ==> m - consumed < encode_scalar(s[j] as u32).len()
                && encode_utf8(s).subrange(consumed, m) == encode_scalar(s[j] as u32).subrange(
                0,
                m - consumed,
            ))
            &&& (j == s.len() ==> m == consumed)
        }),
    decreases s.len(),
{
    if s.len() == 0 {
        assert(encode_utf8(s).len() == 0);
        assert(s.take(0) =~= s);
        assert(encode_utf8(s).subrange(0, 0) =~= encode_utf8(s.take(0)));
    } else {
        let w = encode_scalar(s[0] as u32).len() as int;
        assert(encode_utf8(s) == encode_scalar(s[0] as u32) + encode_utf8(s.drop_first()));
        if m < w {
            let j = chars_before(s, m);
            assert(j == 0);
            assert(s.take(0) =~= Seq::<char>::empty());
            assert(encode_utf8(s.take(0)) =~= Seq::<u8>::empty());
            assert(encode_utf8(s).subrange(0, 0) =~= Seq::<u8>::empty());
            assert(encode_utf8(s).subrange(0, m) =~= encode_scalar(s[0] as u32).subrange(0, m));
        } else {
            let d = s.drop_first();
            lemma_encode_prefix(d, m - w);
            let j1 = chars_before(d, m - w);
            let j = chars_before(s, m);
            assert(j == 1 + j1);
            assert(s.take(j) =~= seq![s[0]] + d.take(j1));
            lemma_encode_utf8_concat(seq![s[0]], d.take(j1));
            assert(encode_utf8(seq![s[0]]) == encode_scalar(s[0] as u32) + encode_utf8(
                seq![s[0]].drop_first(),
            ));
            assert(seq![s[0]].drop_first() =~= Seq::<char>::empty());
            assert(encode_utf8(seq![s[0]]) =~= encode_scalar(s[0] as u32));
            assert(encode_utf8(s.take(j)) =~= encode_scalar(s[0] as u32) + encode_utf8(d.take(j1)));
            let consumed1 = encode_utf8(d.take(j1)).len() as int;
            let consumed = encode_utf8(s.take(j)).len() as int;
            assert(consumed == w + consumed1);
            assert(encode_utf8(s.take(j)) =~= encode_utf8(s).subrange(0, consumed)) by {
                assert(encode_utf8(d.take(j1)) == encode_utf8(d).subrange(0, consumed1));
            }
            if j < s.len() {
                assert(j1 < d.len());
                assert(s[j] == d[j1 as int]);
                assert(encode_utf8(s).subrange(consumed, m) =~= encode_utf8(d).subrange(
                    consumed1,
                    m - w,
                ));
            }
        }
    }
}

/// A character count is never negative.
proof fn lemma_chars_before_nonneg(s: Seq<char>, m: int)
    ensures
        chars_before(s, m) >= 0,
    decreases s.len(),
{
    if s.len() == 0 {
    } else {
        let w = encode_scalar(s[0] as u32).len();
        if m >= w {
            lemma_chars_before_nonneg(s.drop_first(), m - w);
        }
    }
}

/// More bytes never cover fewer whole characters.
proof fn lemma_chars_before_monotone(s: Seq<char>, m1: int, m2: int)
    requires
        m1 <= m2,
    ensures
        chars_before(s, m1) <= chars_before(s, m2),
    decreases s.len(),
{
    lemma_chars_before_nonneg(s, m1);
    lemma_chars_before_nonneg(s, m2);
    if s.len() == 0 {
    } else {
        let w = encode_scalar(s[0] as u32).len();
        if m1 >= w {
            lemma_chars_before_monotone(s.drop_first(), m1 - w, m2 - w);
        } else {
            lemma_chars_before_nonneg(s.drop_first(), m2 - w);
        }
    }
}

/// The buffer the assembler holds after taking in the first `k` chunks,
/// starting empty.
pub open spec fn reassembly_buf_at(chunks: Seq<Seq<u8>>, k: int) -> Seq<u8>
    decreases k,
    when k >= 0
{
    if k <= 0 {
        Seq::<u8>::empty()
    } else {
        reassembly_step(reassembly_buf_at(chunks, k - 1), chunks[k - 1]).1
    }
}

/// Everything the assembler has emitted after taking in the first `k`
/// chunks, concatenated.
pub open spec fn reassembly_emitted_at(chunks: Seq<Seq<u8>>, k: int) -> Seq<char>
    decreases k,
    when k >= 0
{
    if k <= 0 {
        Seq::<char>::empty()
    } else {
        reassembly_emitted_at(chunks, k - 1) + reassembly_step(reassembly_buf_at(chunks, k - 1), chunks[k - 1]).0
    }
}

proof fn lemma_reassembly_invariant(s: Seq<char>, chunks: Seq<Seq<u8>>, k: int)
    requires
        0 <= k <= chunks.len(),
        chunks.flatten() == encode_utf8(s),
    ensures
        ({
            let m = chunks.take(k).flatten().len() as int;
            let j = chars_before(s, m);
            let consumed = encode_utf8(s.take(j)).len() as int;
            &&& chunks.take(k).flatten() == encode_utf8(s).subrange(0, m)
            &&& m <= encode_utf8(s).len()
            &&& reassembly_emitted_at(chunks, k) == s.take(j)
            &&& reassembly_buf_at(chunks, k) == encode_utf8(s).subrange(consumed, m)
        }),
    decreases k,
{
    lemma_flatten_take_prefix(chunks, k);
    let m = chunks.take(k).flatten().len() as int;
    let j = chars_before(s, m);
    lemma_encode_prefix(s, m);
    let consumed = encode_utf8(s.take(j)).len() as int;
    if k == 0 {
        assert(chunks.take(0) =~= Seq::<Seq<u8>>::empty());
        assert(chunks.take(0).flatten() =~= Seq::<u8>::empty());
        assert(m == 0);
        assert(j == 0) by {
            if s.len() > 0 {
                assert(encode_scalar(s[0] as u32).len() >= 1);
            }
        }
        assert(s.take(0) =~= Seq::<char>::empty());
        assert(encode_utf8(s.take(0)) =~= Seq::<u8>::empty());
        assert(reassembly_emitted_at(chunks, 0) =~= s.take(0));
        assert(reassembly_buf_at(chunks, 0) =~= encode_utf8(s).subrange(0, 0));
        assert(chunks.take(0).flatten() =~= encode_utf8(s).subrange(0, 0));
    } else {
        lemma_reassembly_invariant(s, chunks, k - 1);
        lemma_flatten_take_prefix(chunks, k - 1);
        let m0 = chunks.take(k - 1).flatten().len() as int;
        let j0 = chars_before(s, m0);
        lemma_encode_prefix(s, m0);
        let consumed0 = encode_utf8(s.take(j0)).len() as int;

        assert(chunks.take(k) =~= chunks.take(k - 1).push(chunks[k - 1]));
        Seq::lemma_flatten_push(chunks.take(k - 1), chunks[k - 1]);
        assert(chunks.take(k).flatten() == chunks.take(k - 1).flatten() + chunks[k - 1]);
        assert(m == m0 + chunks[k - 1].len());
        assert(chunks.take(k).flatten() == encode_utf8(s).subrange(0, m));
        assert(chunks.take(k - 1).flatten() == encode_utf8(s).subrange(0, m0));
        assert(chunks[k - 1] =~= chunks.take(k).flatten().subrange(m0, m));
        assert(chunks[k - 1] =~= encode_utf8(s).subrange(m0, m));

        lemma_chars_before_monotone(s, m0, m);
        assert(j0 <= j);
        let mid = s.subrange(j0, j);
        assert(s.take(j0) + mid =~= s.take(j));
        lemma_encode_utf8_concat(s.take(j0), mid);
        assert(encode_utf8(s.take(j)) == encode_utf8(s.take(j0)) + encode_utf8(mid));
        assert(consumed == consumed0 + encode_utf8(mid).len());
        assert(consumed0 <= m0);

        let buf0 = reassembly_buf_at(chunks, k - 1);
        let all = buf0 + chunks[k - 1];
        assert(all =~= encode_utf8(s).subrange(consumed0, m));
        let p = encode_utf8(s).subrange(consumed, m);
        assert(encode_utf8(s.take(j)) == encode_utf8(s).subrange(0, consumed));
        assert(encode_utf8(s.take(j0)) == encode_utf8(s).subrange(0, consumed0));
        assert(encode_utf8(mid) =~= encode_utf8(s.take(j)).subrange(consumed0, consumed));
        assert(encode_utf8(s.take(j)).subrange(consumed0, consumed) =~= encode_utf8(s).subrange(
            consumed0,
            consumed,
        ));
        assert(all =~= encode_utf8(mid) + p);

        broadcast use encode_utf8_valid_utf8;

        lemma_boundary_concat(encode_utf8(mid), p);
        assert(utf8_boundary(p) == 0) by {
            if j < s.len() {
                lemma_boundary_strict_partial(s[j], p);
            } else {
                assert(m == consumed);
                assert(p =~= Seq::<u8>::empty());
            }
        }
        let b = utf8_boundary(all);
        assert(b == encode_utf8(mid).len());
        assert(all.subrange(0, b) =~= encode_utf8(mid));
        broadcast use encode_utf8_decode_utf8;

        assert(decode_utf8(encode_utf8(mid)) == mid);
        assert(reassembly_step(buf0, chunks[k - 1]).0 == mid);
        assert(reassembly_step(buf0, chunks[k - 1]).1 =~= p);
        assert(reassembly_emitted_at(chunks, k) == s.take(j0) + mid);
        assert(s.take(j0) + mid =~= s.take(j));
    }
}

proof fn lemma_flatten_take_prefix(chunks: Seq<Seq<u8>>, k: int)
    requires
        0 <= k <= chunks.len(),
    ensures
        chunks.take(k).flatten() == chunks.flatten().subrange(
            0,
            chunks.take(k).flatten().len() as int,
        ),
        chunks.take(k).flatten().len() <= chunks.flatten().len(),
{
    vstd::seq_lib::lemma_flatten_concat(chunks.take(k), chunks.skip(k));
    assert(chunks.take(k) + chunks.skip(k) =~= chunks);
    assert(chunks.flatten() == chunks.take(k).flatten() + chunks.skip(k).flatten());
    assert(chunks.take(k).flatten() =~= chunks.flatten().subrange(
        0,
        chunks.take(k).flatten().len() as int,
    ));
}

/// UTF-8 safety of the re-assembly: for any way of chopping the UTF-8
/// encoding of a text `s` into chunks, feeding the chunks to the assembler
/// in order emits pieces whose concatenation is exactly `s`, with nothing
/// left buffered at the end (so the final flush adds nothing). Every piece
/// is a character sequence, so no emission splits a character or carries
/// invalid UTF-8.
pub proof fn lemma_utf8_reassembly(chunks: Seq<Seq<u8>>, s: Seq<char>)
    requires
        chunks.flatten() == encode_utf8(s),
    ensures
        reassembly_emitted_at(chunks, chunks.len() as int) == s,
        reassembly_buf_at(chunks, chunks.len() as int) == Seq::<u8>::empty(),
{
    let k = chunks.len() as int;
    lemma_reassembly_invariant(s, chunks, k);
    assert(chunks.take(k) =~= chunks);
    let m = chunks.flatten().len() as int;
    assert(m == encode_utf8(s).len());
    let j = chars_before(s, m);
    lemma_encode_prefix(s, m);
    if j < s.len() {
        let consumed = encode_utf8(s.take(j)).len() as int;
        assert(s.take(j) + s.skip(j) =~= s);
        lemma_encode_utf8_concat(s.take(j), s.skip(j));
        assert(encode_utf8(s) == encode_utf8(s.take(j)) + encode_utf8(s.skip(j)));
        assert(s.skip(j).len() > 0);
        assert(encode_utf8(s.skip(j)) == encode_scalar(s.skip(j)[0] as u32) + encode_utf8(
            s.skip(j).drop_first(),
        ));
        assert(s.skip(j)[0] == s[j]);
        assert(m - consumed >= encode_scalar(s[j] as u32).len());
        assert(false);
    }
    assert(j == s.len());
    assert(s.take(j) =~= s);
    let consumed = encode_utf8(s.take(j)).len() as int;
    assert(m == consumed);
    assert(encode_utf8(s).subrange(consumed, m) =~= Seq::<u8>::empty());
}

} // verus!
