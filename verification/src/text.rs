//! Character-level text utilities.
//!
//! The library does its text work over `Vec<char>`, whose view is the same
//! `Seq<char>` that `str` and `String` have, so contracts compose across
//! the two representations.

use vstd::prelude::*;

verus! {

/// The characters of a string, in order, as an indexable vector.
pub fn str_chars(s: &str) -> (r: Vec<char>)
    ensures
        r@ == s@,
{
    let n: usize = s.unicode_len();
    let mut r: Vec<char> = Vec::new();
    let mut i: usize = 0;
    while i < n
        invariant
            i <= n,
            n == s@.len(),
            r@ == s@.subrange(0, i as int),
        decreases n - i,
    {
        let c = s.get_char(i);
        r.push(c);
        proof {
            assert(r@ =~= s@.subrange(0, i + 1 as int));
        }
        i = i + 1;
    }
    proof {
        assert(r@ =~= s@);
    }
    r
}

/// Relies on `String::push`: appends one character to the string.
#[verifier::external_body]
pub(crate) fn push_char(s: &mut String, c: char)
    ensures
        final(s)@ == old(s)@ + seq![c],
{
    s.push(c);
}

/// A `String` holding exactly the given characters.
pub fn chars_to_string(v: &Vec<char>) -> (r: String)
    ensures
        r@ == v@,
{
    let mut r = String::new();
    let mut i: usize = 0;
    while i < v.len()
        invariant
            i <= v@.len(),
            r@ == v@.subrange(0, i as int),
        decreases v@.len() - i,
    {
        push_char(&mut r, v[i]);
        proof {
            assert(r@ =~= v@.subrange(0, i + 1 as int));
        }
        i = i + 1;
    }
    proof {
        assert(r@ =~= v@);
    }
    r
}

/// True when `needle` occurs in `hay` starting at position `at`.
pub open spec fn matches_at(hay: Seq<char>, needle: Seq<char>, at: int) -> bool {
    &&& 0 <= at
    &&& at + needle.len() <= hay.len()
    &&& hay.subrange(at, at + needle.len()) == needle
}

/// True when `needle` occurs somewhere in `hay`.
pub open spec fn contains_seq(hay: Seq<char>, needle: Seq<char>) -> bool {
    exists|at: int| matches_at(hay, needle, at)
}

/// Whether `needle` occurs in `hay` at position `at`.
pub fn check_match_at(hay: &Vec<char>, needle: &Vec<char>, at: usize) -> (r: bool)
    requires
        at + needle@.len() <= hay@.len(),
    ensures
        r == matches_at(hay@, needle@, at as int),
{
    let n: usize = needle.len();
    let h: usize = hay.len();
    assert(at + n <= h);
    let mut j: usize = 0;
    while j < n
        invariant
            j <= n,
            n == needle@.len(),
            h == hay@.len(),
            at + n <= h,
            forall|k: int| 0 <= k < j ==> hay@[at + k] == needle@[k],
        decreases n - j,
    {
        if hay[at + j] != needle[j] {
            proof {
                assert(hay@.subrange(at as int, at + needle@.len())[j as int] == hay@[at + j]);
            }
            return false;
        }
        j = j + 1;
    }
    proof {
        assert(hay@.subrange(at as int, at + needle@.len()) =~= needle@);
    }
    true
}

/// The first position at or after `from` where `needle` occurs in `hay`,
/// or nothing.
pub open spec fn spec_find(hay: Seq<char>, needle: Seq<char>, from: int) -> Option<int>
    decreases hay.len() - from + 1,
    when from >= 0
{
    if from + needle.len() > hay.len() {
        None
    } else if matches_at(hay, needle, from) {
        Some(from)
    } else {
        spec_find(hay, needle, from + 1)
    }
}

/// What `spec_find` returns is the earliest occurrence at or after `from`.
pub proof fn lemma_spec_find(hay: Seq<char>, needle: Seq<char>, from: int)
    requires
        0 <= from,
    ensures
        match spec_find(hay, needle, from) {
            Some(at) => {
                &&& from <= at
                &&& matches_at(hay, needle, at)
                &&& forall|k: int| from <= k < at ==> !matches_at(hay, needle, k)
            },
            None => forall|k: int| from <= k ==> !matches_at(hay, needle, k),
        },
    decreases hay.len() - from + 1,
{
    if from + needle.len() > hay.len() {
    } else if matches_at(hay, needle, from) {
    } else {
        lemma_spec_find(hay, needle, from + 1);
    }
}

/// If `needle` occurs at `at` and nowhere earlier from `from`, the search
/// finds exactly `at`.
pub proof fn lemma_spec_find_exact(hay: Seq<char>, needle: Seq<char>, from: int, at: int)
    requires
        0 <= from <= at,
        matches_at(hay, needle, at),
        forall|k: int| from <= k < at ==> !matches_at(hay, needle, k),
    ensures
        spec_find(hay, needle, from) == Some(at),
    decreases at - from,
{
    if from == at {
    } else {
        lemma_spec_find_exact(hay, needle, from + 1, at);
    }
}

/// The first position at or after `from` where `needle` occurs in `hay`,
/// if there is one.
pub fn find_from(hay: &Vec<char>, needle: &Vec<char>, from: usize) -> (r: Option<usize>)
    requires
        from <= hay@.len(),
        needle@.len() > 0,
    ensures
        r matches Some(at) ==> spec_find(hay@, needle@, from as int) == Some(at as int),
        r is None ==> spec_find(hay@, needle@, from as int) is None,
        match r {
            Some(at) => {
                &&& from <= at
                &&& matches_at(hay@, needle@, at as int)
                &&& forall|k: int|
                    from <= k < at ==> !matches_at(hay@, needle@, k)
            },
            None => forall|k: int| from <= k ==> !matches_at(hay@, needle@, k),
        },
{
    if needle.len() > hay.len() {
        return None;
    }
    let last: usize = hay.len() - needle.len();
    let mut i: usize = from;
    while i <= last
        invariant
            needle@.len() > 0,
            needle@.len() <= hay@.len(),
            hay@.len() <= usize::MAX,
            last == hay@.len() - needle@.len(),
            last < hay@.len(),
            from <= i,
            forall|k: int| from <= k < i ==> !matches_at(hay@, needle@, k),
        decreases last - i + 1,
    {
        if check_match_at(hay, needle, i) {
            proof {
                lemma_spec_find_exact(hay@, needle@, from as int, i as int);
            }
            return Some(i);
        }
        i = i + 1;
    }
    proof {
        lemma_none_when_no_match(hay@, needle@, from as int);
    }
    None
}

/// No occurrence anywhere at or after `from` means the search finds none.
pub proof fn lemma_none_when_no_match(hay: Seq<char>, needle: Seq<char>, from: int)
    requires
        0 <= from,
        forall|k: int| from <= k ==> !matches_at(hay, needle, k),
    ensures
        spec_find(hay, needle, from) is None,
    decreases hay.len() - from + 1,
{
    if from + needle.len() > hay.len() {
    } else {
        lemma_none_when_no_match(hay, needle, from + 1);
    }
}

/// Whether `needle` occurs anywhere in `hay`.
pub fn contains_chars(hay: &Vec<char>, needle: &Vec<char>) -> (r: bool)
    requires
        needle@.len() > 0,
    ensures
        r == contains_seq(hay@, needle@),
{
    match find_from(hay, needle, 0) {
        Some(_) => true,
        None => false,
    }
}

/// How many times `needle` occurs in `hay`, counting overlapping
/// occurrences once per starting position.
pub open spec fn spec_count_from(hay: Seq<char>, needle: Seq<char>, from: int) -> nat
    decreases hay.len() - from,
    when 0 <= from
{
    if needle.len() == 0 || from + needle.len() > hay.len() {
        0
    } else if matches_at(hay, needle, from) {
        1 + spec_count_from(hay, needle, from + 1)
    } else {
        spec_count_from(hay, needle, from + 1)
    }
}

/// Occurrence count of a non-empty `needle` in `hay`, overlapping starts
/// each counted.
pub fn count_occurrences(hay: &Vec<char>, needle: &Vec<char>) -> (r: usize)
    requires
        needle@.len() > 0,
    ensures
        r == spec_count_from(hay@, needle@, 0),
{
    if needle.len() > hay.len() {
        return 0;
    }
    let last: usize = hay.len() - needle.len();
    let mut i: usize = 0;
    let mut count: usize = 0;
    while i <= last
        invariant
            needle@.len() > 0,
            needle@.len() <= hay@.len(),
            hay@.len() <= usize::MAX,
            last == hay@.len() - needle@.len(),
            last < hay@.len(),
            i <= last + 1,
            count <= i,
            spec_count_from(hay@, needle@, 0) == count + spec_count_from(hay@, needle@, i as int),
        decreases last - i + 1,
    {
        proof {
            lemma_count_step(hay@, needle@, i as int);
        }
        if check_match_at(hay, needle, i) {
            count = count + 1;
        }
        i = i + 1;
    }
    proof {
        lemma_count_done(hay@, needle@, i as int);
    }
    count
}

proof fn lemma_count_step(hay: Seq<char>, needle: Seq<char>, i: int)
    requires
        0 <= i,
        needle.len() > 0,
        i + needle.len() <= hay.len(),
    ensures
        spec_count_from(hay, needle, i) == spec_count_from(hay, needle, i + 1) + (
        if matches_at(hay, needle, i) {
            1int
        } else {
            0int
        }),
{
}

proof fn lemma_count_done(hay: Seq<char>, needle: Seq<char>, i: int)
    requires
        0 <= i,
        needle.len() > 0,
        i + needle.len() > hay.len(),
    ensures
        spec_count_from(hay, needle, i) == 0,
{
}

/// The characters of `v` between `from` and `to`.
pub fn subrange_chars(v: &Vec<char>, from: usize, to: usize) -> (r: Vec<char>)
    requires
        from <= to <= v@.len(),
    ensures
        r@ == v@.subrange(from as int, to as int),
{
    let mut r: Vec<char> = Vec::new();
    let mut i: usize = from;
    while i < to
        invariant
            from <= i <= to <= v@.len(),
            r@ == v@.subrange(from as int, i as int),
        decreases to - i,
    {
        r.push(v[i]);
        proof {
            assert(r@ =~= v@.subrange(from as int, i + 1 as int));
        }
        i = i + 1;
    }
    r
}

/// `v` with every occurrence of `pat` removed, scanning left to right.
pub open spec fn spec_remove_all(hay: Seq<char>, pat: Seq<char>) -> Seq<char>
    decreases hay.len(),
    when pat.len() > 0
{
    if hay.len() == 0 {
        hay
    } else if matches_at(hay, pat, 0) {
        spec_remove_all(hay.subrange(pat.len() as int, hay.len() as int), pat)
    } else {
        seq![hay[0]] + spec_remove_all(hay.subrange(1, hay.len() as int), pat)
    }
}

/// Remove every occurrence of a non-empty pattern, scanning once from the
/// left.
pub fn remove_all(hay: &Vec<char>, pat: &Vec<char>) -> (r: Vec<char>)
    requires
        pat@.len() > 0,
    ensures
        r@ == spec_remove_all(hay@, pat@),
    decreases hay@.len(),
{
    let mut out: Vec<char> = Vec::new();
    let mut i: usize = 0;
    proof {
        assert(hay@.subrange(0, hay@.len() as int) =~= hay@);
        assert(out@ + spec_remove_all(hay@, pat@) =~= spec_remove_all(hay@, pat@));
    }
    while i < hay.len()
        invariant
            pat@.len() > 0,
            i <= hay@.len(),
            spec_remove_all(hay@, pat@) == out@ + spec_remove_all(
                hay@.subrange(i as int, hay@.len() as int),
                pat@,
            ),
        decreases hay@.len() - i,
    {
        let ghost rest = hay@.subrange(i as int, hay@.len() as int);
        if pat.len() <= hay.len() - i && check_match_at(hay, pat, i) {
            proof {
                assert(rest.subrange(0, pat@.len() as int) =~= hay@.subrange(
                    i as int,
                    i + pat@.len(),
                ));
                assert(matches_at(rest, pat@, 0));
                assert(rest.subrange(pat@.len() as int, rest.len() as int) =~= hay@.subrange(
                    i + pat@.len(),
                    hay@.len() as int,
                ));
            }
            i = i + pat.len();
        } else {
            proof {
                if i + pat@.len() <= hay@.len() {
                    assert(rest.subrange(0, pat@.len() as int) =~= hay@.subrange(
                        i as int,
                        i + pat@.len(),
                    ));
                    assert(!matches_at(rest, pat@, 0));
                } else {
                    assert(!matches_at(rest, pat@, 0));
                }
                assert(rest.len() > 0);
                assert(rest[0] == hay@[i as int]);
                assert(rest.subrange(1, rest.len() as int) =~= hay@.subrange(
                    i + 1,
                    hay@.len() as int,
                ));
                assert(spec_remove_all(rest, pat@) == seq![hay@[i as int]] + spec_remove_all(
                    hay@.subrange(i + 1, hay@.len() as int),
                    pat@,
                ));
            }
            let ghost out_before = out@;
            out.push(hay[i]);
            proof {
                assert(out@ + spec_remove_all(hay@.subrange(i + 1, hay@.len() as int), pat@)
                    =~= out_before + (seq![hay@[i as int]] + spec_remove_all(
                    hay@.subrange(i + 1, hay@.len() as int),
                    pat@,
                )));
            }
            i = i + 1;
        }
    }
    proof {
        assert(hay@.subrange(i as int, hay@.len() as int) =~= Seq::<char>::empty());
        assert(spec_remove_all(Seq::<char>::empty(), pat@) == Seq::<char>::empty());
        assert(out@ + Seq::<char>::empty() =~= out@);
    }
    out
}

/// The lower-case form of an ASCII letter; any other character is kept.
pub open spec fn spec_ascii_lower(c: char) -> char {
    if 'A' <= c <= 'Z' {
        ((c as u32) + 32) as char
    } else {
        c
    }
}

/// ASCII lower-casing of one character.
pub fn ascii_lower(c: char) -> (r: char)
    ensures
        r == spec_ascii_lower(c),
{
    if 'A' <= c && c <= 'Z' {
        let u = c as u32;
        proof {
            vstd::utf8::char_is_scalar(c);
            assert('A' as u32 == 65 && 'Z' as u32 == 90);
            assert(vstd::utf8::is_scalar((u + 32) as u32)) by {
                assert(65 <= u <= 90);
            }
        }
        char_from_u32(u + 32)
    } else {
        c
    }
}

/// Relies on `char::from_u32`: the scalar value as a character.
#[verifier::external_body]
fn char_from_u32(u: u32) -> (r: char)
    requires
        vstd::utf8::is_scalar(u),
    ensures
        r as u32 == u,
        r == (u as char),
{
    match char::from_u32(u) {
        Some(c) => c,
        None => ' ',
    }
}


/// The character of one decimal digit.
pub open spec fn spec_digit(d: int) -> char
    recommends
        0 <= d <= 9,
{
    ((48 + d) as u32) as char
}

/// The decimal digits of `n`, most significant first, with no leading zero
/// except for `n == 0` itself.
pub open spec fn spec_decimal(n: nat) -> Seq<char>
    decreases n,
{
    if n < 10 {
        seq![spec_digit(n as int)]
    } else {
        spec_decimal(n / 10) + seq![spec_digit((n % 10) as int)]
    }
}

/// The decimal digits of `n` as characters.
pub fn u64_digits(n: u64) -> (r: Vec<char>)
    ensures
        r@ == spec_decimal(n as nat),
{
    let mut rev: Vec<char> = Vec::new();
    let mut m: u64 = n;
    proof {
        assert(rev@.reverse() =~= Seq::<char>::empty());
        assert(spec_decimal(n as nat) + Seq::<char>::empty() =~= spec_decimal(n as nat));
    }
    while m >= 10
        invariant
            spec_decimal(n as nat) == spec_decimal(m as nat) + rev@.reverse(),
        decreases m,
    {
        let d: u64 = m % 10;
        proof {
            vstd::utf8::char_is_scalar(' ');
            assert(vstd::utf8::is_scalar((48 + d) as u32)) by {
                assert(d <= 9);
            }
        }
        let c = char_from_u32(48 + (d as u32));
        let ghost rev_before = rev@;
        rev.push(c);
        proof {
            assert(c == spec_digit(d as int));
            assert(rev@.reverse() =~= seq![c] + rev_before.reverse());
            assert(spec_decimal(m as nat) == spec_decimal((m as nat) / 10) + seq![c]);
            assert(spec_decimal((m as nat) / 10) + (seq![c] + rev_before.reverse())
                =~= (spec_decimal((m as nat) / 10) + seq![c]) + rev_before.reverse());
            assert((m / 10) as nat == (m as nat) / 10);
        }
        m = m / 10;
    }
    proof {
        vstd::utf8::char_is_scalar(' ');
        assert(vstd::utf8::is_scalar((48 + m) as u32)) by {
            assert(m <= 9);
        }
    }
    let c = char_from_u32(48 + (m as u32));
    let ghost rev_before = rev@;
    rev.push(c);
    proof {
        assert(c == spec_digit(m as int));
        assert(spec_decimal(m as nat) == seq![c]);
        assert(rev@.reverse() =~= seq![c] + rev_before.reverse());
        assert(spec_decimal(n as nat) =~= rev@.reverse());
    }
    let mut out: Vec<char> = Vec::new();
    let len = rev.len();
    let mut i: usize = 0;
    while i < len
        invariant
            i <= len,
            len == rev@.len(),
            rev@.reverse().len() == len,
            out@ == rev@.reverse().subrange(0, i as int),
        decreases len - i,
    {
        out.push(rev[len - 1 - i]);
        proof {
            assert(rev@.reverse()[i as int] == rev@[len - 1 - i]);
            assert(out@ =~= rev@.reverse().subrange(0, i + 1 as int));
        }
        i = i + 1;
    }
    proof {
        assert(out@ =~= rev@.reverse());
    }
    out
}

/// The decimal text of `n`.
pub fn u64_to_string(n: u64) -> (r: String)
    ensures
        r@ == spec_decimal(n as nat),
{
    let digits = u64_digits(n);
    chars_to_string(&digits)
}

/// Append a borrowed piece to a string being built.
pub fn append_str(s: &mut String, piece: &str)
    ensures
        final(s)@ == old(s)@ + piece@,
{
    s.append(piece);
}


/// `hay` with every occurrence of `pat` replaced by `repl`, scanning left
/// to right.
pub open spec fn spec_replace_all(hay: Seq<char>, pat: Seq<char>, repl: Seq<char>) -> Seq<char>
    decreases hay.len(),
    when pat.len() > 0
{
    if hay.len() == 0 {
        hay
    } else if matches_at(hay, pat, 0) {
        repl + spec_replace_all(hay.subrange(pat.len() as int, hay.len() as int), pat, repl)
    } else {
        seq![hay[0]] + spec_replace_all(hay.subrange(1, hay.len() as int), pat, repl)
    }
}

/// Replace every occurrence of a non-empty pattern, scanning once from the
/// left.
pub fn replace_all(hay: &Vec<char>, pat: &Vec<char>, repl: &Vec<char>) -> (r: Vec<char>)
    requires
        pat@.len() > 0,
    ensures
        r@ == spec_replace_all(hay@, pat@, repl@),
{
    let mut out: Vec<char> = Vec::new();
    let mut i: usize = 0;
    proof {
        assert(hay@.subrange(0, hay@.len() as int) =~= hay@);
        assert(out@ + spec_replace_all(hay@, pat@, repl@) =~= spec_replace_all(
            hay@,
            pat@,
            repl@,
        ));
    }
    while i < hay.len()
        invariant
            pat@.len() > 0,
            i <= hay@.len(),
            spec_replace_all(hay@, pat@, repl@) == out@ + spec_replace_all(
                hay@.subrange(i as int, hay@.len() as int),
                pat@,
                repl@,
            ),
        decreases hay@.len() - i,
    {
        let ghost rest = hay@.subrange(i as int, hay@.len() as int);
        if pat.len() <= hay.len() - i && check_match_at(hay, pat, i) {
            proof {
                assert(rest.subrange(0, pat@.len() as int) =~= hay@.subrange(
                    i as int,
                    i + pat@.len(),
                ));
                assert(matches_at(rest, pat@, 0));
                assert(rest.subrange(pat@.len() as int, rest.len() as int) =~= hay@.subrange(
                    i + pat@.len(),
                    hay@.len() as int,
                ));
            }
            let ghost out_before = out@;
            let mut j: usize = 0;
            while j < repl.len()
                invariant
                    j <= repl@.len(),
                    out@ == out_before + repl@.subrange(0, j as int),
                decreases repl@.len() - j,
            {
                out.push(repl[j]);
                proof {
                    assert(out@ =~= out_before + repl@.subrange(0, j + 1 as int));
                }
                j = j + 1;
            }
            proof {
                assert(repl@.subrange(0, repl@.len() as int) =~= repl@);
                assert((out_before + repl@) + spec_replace_all(
                    hay@.subrange(i + pat@.len(), hay@.len() as int),
                    pat@,
                    repl@,
                ) =~= out_before + (repl@ + spec_replace_all(
                    hay@.subrange(i + pat@.len(), hay@.len() as int),
                    pat@,
                    repl@,
                )));
            }
            i = i + pat.len();
        } else {
            proof {
                if i + pat@.len() <= hay@.len() {
                    assert(rest.subrange(0, pat@.len() as int) =~= hay@.subrange(
                        i as int,
                        i + pat@.len(),
                    ));
                    assert(!matches_at(rest, pat@, 0));
                } else {
                    assert(!matches_at(rest, pat@, 0));
                }
                assert(rest.len() > 0);
                assert(rest[0] == hay@[i as int]);
                assert(rest.subrange(1, rest.len() as int) =~= hay@.subrange(
                    i + 1,
                    hay@.len() as int,
                ));
                assert(spec_replace_all(rest, pat@, repl@) == seq![hay@[i as int]]
                    + spec_replace_all(hay@.subrange(i + 1, hay@.len() as int), pat@, repl@));
            }
            let ghost out_before = out@;
            out.push(hay[i]);
            proof {
                assert(out@ + spec_replace_all(hay@.subrange(i + 1, hay@.len() as int), pat@, repl@)
                    =~= out_before + (seq![hay@[i as int]] + spec_replace_all(
                    hay@.subrange(i + 1, hay@.len() as int),
                    pat@,
                    repl@,
                )));
            }
            i = i + 1;
        }
    }
    proof {
        assert(hay@.subrange(i as int, hay@.len() as int) =~= Seq::<char>::empty());
        assert(spec_replace_all(Seq::<char>::empty(), pat@, repl@) == Seq::<char>::empty());
        assert(out@ + Seq::<char>::empty() =~= out@);
    }
    out
}

/// Whitespace for trimming and word counting.
pub open spec fn is_space(c: char) -> bool {
    c == ' ' || c == '\t' || c == '\n' || c == '\r'
}

/// The sequence with leading and trailing whitespace removed.
pub open spec fn spec_trim(s: Seq<char>) -> Seq<char>
    decreases s.len(),
{
    if s.len() == 0 {
        s
    } else if is_space(s[0]) {
        spec_trim(s.subrange(1, s.len() as int))
    } else if is_space(s[s.len() - 1]) {
        spec_trim(s.subrange(0, s.len() - 1))
    } else {
        s
    }
}

/// Trim whitespace from both ends.
pub fn trim_chars(v: &Vec<char>) -> (r: Vec<char>)
    ensures
        r@ == spec_trim(v@),
{
    let mut lo: usize = 0;
    let mut hi: usize = v.len();
    proof {
        assert(v@.subrange(0, v@.len() as int) =~= v@);
    }
    while lo < hi && (v[lo] == ' ' || v[lo] == '\t' || v[lo] == '\n' || v[lo] == '\r')
        invariant
            lo <= hi <= v@.len(),
            spec_trim(v@) == spec_trim(v@.subrange(lo as int, hi as int)),
        decreases hi - lo,
    {
        proof {
            let cur = v@.subrange(lo as int, hi as int);
            assert(cur[0] == v@[lo as int]);
            assert(cur.subrange(1, cur.len() as int) =~= v@.subrange(lo + 1, hi as int));
        }
        lo = lo + 1;
    }
    while lo < hi && (v[hi - 1] == ' ' || v[hi - 1] == '\t' || v[hi - 1] == '\n' || v[hi - 1]
        == '\r')
        invariant
            lo <= hi <= v@.len(),
            spec_trim(v@) == spec_trim(v@.subrange(lo as int, hi as int)),
            lo < hi ==> !is_space(v@[lo as int]),
        decreases hi - lo,
    {
        proof {
            let cur = v@.subrange(lo as int, hi as int);
            assert(cur[0] == v@[lo as int]);
            assert(cur[cur.len() - 1] == v@[hi - 1]);
            assert(cur.subrange(0, cur.len() - 1) =~= v@.subrange(lo as int, hi - 1));
        }
        hi = hi - 1;
    }
    proof {
        let cur = v@.subrange(lo as int, hi as int);
        if cur.len() > 0 {
            assert(cur[0] == v@[lo as int]);
            assert(cur[cur.len() - 1] == v@[hi - 1]);
        }
        assert(spec_trim(cur) == cur);
    }
    subrange_chars(v, lo, hi)
}


/// The sequence with leading and trailing occurrences of one character
/// removed.
pub open spec fn spec_trim_char(s: Seq<char>, c: char) -> Seq<char>
    decreases s.len(),
{
    if s.len() == 0 {
        s
    } else if s[0] == c {
        spec_trim_char(s.subrange(1, s.len() as int), c)
    } else if s[s.len() - 1] == c {
        spec_trim_char(s.subrange(0, s.len() - 1), c)
    } else {
        s
    }
}

/// Trim one character from both ends.
pub fn trim_char_ends(v: &Vec<char>, c: char) -> (r: Vec<char>)
    ensures
        r@ == spec_trim_char(v@, c),
{
    let mut lo: usize = 0;
    let mut hi: usize = v.len();
    proof {
        assert(v@.subrange(0, v@.len() as int) =~= v@);
    }
    while lo < hi && v[lo] == c
        invariant
            lo <= hi <= v@.len(),
            spec_trim_char(v@, c) == spec_trim_char(v@.subrange(lo as int, hi as int), c),
        decreases hi - lo,
    {
        proof {
            let cur = v@.subrange(lo as int, hi as int);
            assert(cur[0] == v@[lo as int]);
            assert(cur.subrange(1, cur.len() as int) =~= v@.subrange(lo + 1, hi as int));
        }
        lo = lo + 1;
    }
    while lo < hi && v[hi - 1] == c
        invariant
            lo <= hi <= v@.len(),
            spec_trim_char(v@, c) == spec_trim_char(v@.subrange(lo as int, hi as int), c),
            lo < hi ==> v@[lo as int] != c,
        decreases hi - lo,
    {
        proof {
            let cur = v@.subrange(lo as int, hi as int);
            assert(cur[0] == v@[lo as int]);
            assert(cur[cur.len() - 1] == v@[hi - 1]);
            assert(cur.subrange(0, cur.len() - 1) =~= v@.subrange(lo as int, hi - 1));
        }
        hi = hi - 1;
    }
    proof {
        let cur = v@.subrange(lo as int, hi as int);
        if cur.len() > 0 {
            assert(cur[0] == v@[lo as int]);
            assert(cur[cur.len() - 1] == v@[hi - 1]);
        }
        assert(spec_trim_char(cur, c) == cur);
    }
    subrange_chars(v, lo, hi)
}

/// The number of maximal whitespace-separated words.
pub open spec fn spec_word_count(s: Seq<char>, i: int, in_word: bool) -> nat
    decreases s.len() - i,
    when i >= 0
{
    if i >= s.len() {
        0
    } else if is_space(s[i]) {
        spec_word_count(s, i + 1, false)
    } else if in_word {
        spec_word_count(s, i + 1, true)
    } else {
        1 + spec_word_count(s, i + 1, true)
    }
}

/// Count whitespace-separated words.
pub fn count_words(v: &Vec<char>) -> (r: usize)
    ensures
        r == spec_word_count(v@, 0, false),
{
    let mut i: usize = 0;
    let mut in_word: bool = false;
    let mut count: usize = 0;
    while i < v.len()
        invariant
            i <= v@.len(),
            count <= i,
            count + spec_word_count(v@, i as int, in_word) == spec_word_count(v@, 0, false),
        decreases v@.len() - i,
    {
        let c = v[i];
        if c == ' ' || c == '\t' || c == '\n' || c == '\r' {
            in_word = false;
        } else if !in_word {
            count = count + 1;
            in_word = true;
        }
        i = i + 1;
    }
    count
}

} // verus!
