//! Character-level helpers shared by the rest of the library: converting between strings and
//! character vectors, comparing names, and searching for substrings.
use vstd::prelude::*;

verus! {

/// Lexicographic "strictly less than" on character sequences, by code point.
pub open spec fn seq_lt(a: Seq<char>, b: Seq<char>) -> bool
    decreases a.len(),
{
    if b.len() == 0 {
        false
    } else if a.len() == 0 {
        true
    } else if a[0] != b[0] {
        a[0] < b[0]
    } else {
        seq_lt(a.drop_first(), b.drop_first())
    }
}

/// Lexicographic "less than or equal" on character sequences.
pub open spec fn seq_le(a: Seq<char>, b: Seq<char>) -> bool {
    seq_lt(a, b) || a == b
}

/// `needle` occurs in `hay` at position `i`.
pub open spec fn occurs_at(hay: Seq<char>, needle: Seq<char>, i: int) -> bool {
    0 <= i && i + needle.len() <= hay.len() && hay.subrange(i, i + needle.len()) == needle
}

/// `needle` occurs somewhere in `hay` (the empty needle occurs in every string).
pub open spec fn contains_seq(hay: Seq<char>, needle: Seq<char>) -> bool {
    exists|i: int| occurs_at(hay, needle, i)
}

/// `s` ends with the character `c`.
pub open spec fn ends_with_char(s: Seq<char>, c: char) -> bool {
    s.len() > 0 && s.last() == c
}

/// Lower-cases an ASCII letter and leaves every other character alone.
pub open spec fn ascii_lower_char(c: char) -> char {
    if 'A' <= c && c <= 'Z' {
        ((c as u32) + 32) as char
    } else {
        c
    }
}

/// The ASCII lower-casing of a whole sequence.
pub open spec fn ascii_lower(s: Seq<char>) -> Seq<char> {
    Seq::new(s.len(), |i: int| ascii_lower_char(s[i]))
}

/// What `str::to_lowercase` returns for a string: Unicode lower-casing, which takes the
/// Unicode tables to state.
pub uninterp spec fn unicode_lowercase(s: Seq<char>) -> Seq<char>;

/// No sequence is before itself.
pub proof fn lemma_seq_lt_irreflexive(a: Seq<char>)
    ensures
        !seq_lt(a, a),
    decreases a.len(),
{
    if a.len() > 0 {
        lemma_seq_lt_irreflexive(a.drop_first());
    }
}

/// Two sequences are never each before the other.
pub proof fn lemma_seq_lt_asymmetric(a: Seq<char>, b: Seq<char>)
    ensures
        !(seq_lt(a, b) && seq_lt(b, a)),
    decreases a.len(),
{
    if a.len() > 0 && b.len() > 0 && a[0] == b[0] {
        lemma_seq_lt_asymmetric(a.drop_first(), b.drop_first());
    }
}

/// The lexicographic order is transitive.
pub proof fn lemma_seq_lt_transitive(a: Seq<char>, b: Seq<char>, c: Seq<char>)
    requires
        seq_lt(a, b),
        seq_lt(b, c),
    ensures
        seq_lt(a, c),
    decreases a.len(),
{
    if a.len() > 0 && b.len() > 0 && c.len() > 0 {
        if a[0] == b[0] && b[0] == c[0] {
            lemma_seq_lt_transitive(a.drop_first(), b.drop_first(), c.drop_first());
        }
    }
}

/// Of two different sequences, one is before the other.
pub proof fn lemma_seq_lt_total(a: Seq<char>, b: Seq<char>)
    ensures
        seq_lt(a, b) || seq_lt(b, a) || a == b,
    decreases a.len(),
{
    if a.len() > 0 && b.len() > 0 {
        if a[0] == b[0] {
            lemma_seq_lt_total(a.drop_first(), b.drop_first());
            if a.drop_first() == b.drop_first() {
                assert(a =~= seq![a[0]] + a.drop_first());
                assert(b =~= seq![b[0]] + b.drop_first());
            }
        }
    } else if a.len() == 0 && b.len() == 0 {
        assert(a =~= b);
    }
}

/// Appends one character to a string with `String::push`; the contract claims what its
/// documentation says, that the character is added at the end.
#[verifier::external_body]
pub(crate) fn push_char(s: &mut String, c: char)
    ensures
        final(s)@ == old(s)@.push(c),
{
    s.push(c);
}

/// The Unicode lower-casing of `s`, as `str::to_lowercase` computes it from the Unicode
/// tables; the contract only names the result.
#[verifier::external_body]
pub(crate) fn to_lowercase(s: &str) -> (out: String)
    ensures
        out@ == unicode_lowercase(s@),
{
    s.to_lowercase()
}

/// The characters of `s`, in order.
pub fn chars_of(s: &str) -> (out: Vec<char>)
    ensures
        out@ == s@,
{
    let mut out: Vec<char> = Vec::new();
    for c in it: s.chars()
        invariant
            out@ == it.seq().take(it.index() as int),
            it.seq() == s@,
    {
        out.push(c);
    }
    out
}

/// Appends every character of `cs` to `s`.
pub fn push_chars(s: &mut String, cs: &[char])
    ensures
        final(s)@ == old(s)@ + cs@,
{
    let mut i: usize = 0;
    while i < cs.len()
        invariant
            0 <= i <= cs@.len(),
            s@ == old(s)@ + cs@.subrange(0, i as int),
        decreases cs@.len() - i,
    {
        push_char(s, cs[i]);
        assert(cs@.subrange(0, i + 1) =~= cs@.subrange(0, i as int).push(cs@[i as int]));
        i = i + 1;
    }
    assert(cs@.subrange(0, cs@.len() as int) =~= cs@);
}

/// Appends the characters of the string slice `t` to `s`.
pub fn push_str(s: &mut String, t: &str)
    ensures
        final(s)@ == old(s)@ + t@,
{
    let cs = chars_of(t);
    push_chars(s, cs.as_slice());
}

/// Builds a string from a sequence of characters.
pub fn string_from_chars(cs: &[char]) -> (out: String)
    ensures
        out@ == cs@,
{
    let mut out = String::new();
    push_chars(&mut out, cs);
    assert(out@ =~= cs@);
    out
}

/// Copies a string slice into an owned string.
pub fn owned(s: &str) -> (out: String)
    ensures
        out@ == s@,
{
    let cs = chars_of(s);
    string_from_chars(cs.as_slice())
}

/// Character-sequence equality of two slices.
pub fn chars_eq(a: &[char], b: &[char]) -> (r: bool)
    ensures
        r == (a@ == b@),
{
    if a.len() != b.len() {
        return false;
    }
    let mut i: usize = 0;
    while i < a.len()
        invariant
            0 <= i <= a@.len(),
            a@.len() == b@.len(),
            forall|j: int| 0 <= j < i ==> a@[j] == b@[j],
        decreases a@.len() - i,
    {
        if a[i] != b[i] {
            return false;
        }
        i = i + 1;
    }
    assert(a@ =~= b@);
    true
}

/// Equality of two string slices.
pub fn str_eq(a: &str, b: &str) -> (r: bool)
    ensures
        r == (a@ == b@),
{
    let ca = chars_of(a);
    let cb = chars_of(b);
    chars_eq(ca.as_slice(), cb.as_slice())
}

proof fn lemma_seq_lt_common_prefix(a: Seq<char>, b: Seq<char>, i: int)
    requires
        0 <= i <= a.len(),
        i <= b.len(),
        a.subrange(0, i) == b.subrange(0, i),
    ensures
        seq_lt(a, b) == seq_lt(a.subrange(i, a.len() as int), b.subrange(i, b.len() as int)),
    decreases i,
{
    if i > 0 {
        assert(a[0] == a.subrange(0, i)[0]);
        assert(b[0] == b.subrange(0, i)[0]);
        assert(a.drop_first().subrange(0, i - 1) =~= a.subrange(0, i).drop_first());
        assert(b.drop_first().subrange(0, i - 1) =~= b.subrange(0, i).drop_first());
        lemma_seq_lt_common_prefix(a.drop_first(), b.drop_first(), i - 1);
        assert(a.drop_first().subrange(i - 1, a.len() - 1) =~= a.subrange(i, a.len() as int));
        assert(b.drop_first().subrange(i - 1, b.len() - 1) =~= b.subrange(i, b.len() as int));
    } else {
        assert(a.subrange(0, a.len() as int) =~= a);
        assert(b.subrange(0, b.len() as int) =~= b);
    }
}

/// Lexicographic comparison of two character slices: -1, 0 or 1.
pub fn compare_chars(a: &[char], b: &[char]) -> (r: i8)
    ensures
        r == -1 <==> seq_lt(a@, b@),
        r == 0 <==> a@ == b@,
        r == 1 <==> seq_lt(b@, a@),
        r == -1 || r == 0 || r == 1,
{
    let mut i: usize = 0;
    while i < a.len() && i < b.len()
        invariant
            0 <= i <= a@.len(),
            i <= b@.len(),
            a@.subrange(0, i as int) == b@.subrange(0, i as int),
        decreases a@.len() - i,
    {
        if a[i] != b[i] {
            proof {
                lemma_seq_lt_common_prefix(a@, b@, i as int);
                lemma_seq_lt_common_prefix(b@, a@, i as int);
                assert(a@.subrange(i as int, a@.len() as int)[0] == a@[i as int]);
                assert(b@.subrange(i as int, b@.len() as int)[0] == b@[i as int]);
                assert(a@ != b@ ==> true);
                if a@ == b@ {
                    assert(a@[i as int] == b@[i as int]);
                }
            }
            if a[i] < b[i] {
                return -1;
            } else {
                return 1;
            }
        }
        proof {
            assert(a@.subrange(0, i + 1) =~= a@.subrange(0, i as int).push(a@[i as int]));
            assert(b@.subrange(0, i + 1) =~= b@.subrange(0, i as int).push(b@[i as int]));
        }
        i = i + 1;
    }
    proof {
        lemma_seq_lt_common_prefix(a@, b@, i as int);
        lemma_seq_lt_common_prefix(b@, a@, i as int);
        lemma_seq_lt_irreflexive(a@);
        lemma_seq_lt_asymmetric(a@, b@);
        if a@.len() == b@.len() {
            assert(a@ =~= a@.subrange(0, i as int));
            assert(b@ =~= b@.subrange(0, i as int));
        } else if i == a@.len() {
            assert(a@ =~= a@.subrange(0, i as int));
            assert(a@.subrange(i as int, a@.len() as int).len() == 0);
            assert(a@ != b@);
        } else {
            assert(b@ =~= b@.subrange(0, i as int));
            assert(b@.subrange(i as int, b@.len() as int).len() == 0);
            assert(a@ != b@);
        }
    }
    if a.len() == b.len() {
        0
    } else if i == a.len() {
        -1
    } else {
        1
    }
}

/// Does `needle` occur at position `i` of `hay`?
fn occurs_at_exec(hay: &[char], needle: &[char], i: usize) -> (r: bool)
    requires
        i + needle@.len() <= hay@.len(),
    ensures
        r == occurs_at(hay@, needle@, i as int),
{
    let mut j: usize = 0;
    let n = hay.len();
    while j < needle.len()
        invariant
            0 <= j <= needle@.len(),
            n == hay@.len(),
            i + needle@.len() <= hay@.len(),
            forall|k: int| 0 <= k < j ==> hay@[i + k] == needle@[k],
        decreases needle@.len() - j,
    {
        if hay[i + j] != needle[j] {
            assert(hay@.subrange(i as int, i + needle@.len())[j as int] != needle@[j as int]);
            return false;
        }
        j = j + 1;
    }
    assert(hay@.subrange(i as int, i + needle@.len()) =~= needle@);
    true
}

/// Does `needle` occur anywhere in `hay`?
pub fn contains_chars(hay: &[char], needle: &[char]) -> (r: bool)
    ensures
        r == contains_seq(hay@, needle@),
{
    if needle.len() > hay.len() {
        assert(forall|i: int| !occurs_at(hay@, needle@, i));
        return false;
    }
    if needle.len() == 0 {
        assert(hay@.subrange(0, 0) =~= needle@);
        assert(occurs_at(hay@, needle@, 0));
        return true;
    }
    let hn = hay.len();
    let last = hn - needle.len();
    let mut i: usize = 0;
    while i <= last
        invariant
            0 <= i <= last + 1,
            hn == hay@.len(),
            needle@.len() > 0,
            last + needle@.len() == hay@.len(),
            forall|k: int| 0 <= k < i ==> !occurs_at(hay@, needle@, k),
        decreases last + 1 - i,
    {
        if occurs_at_exec(hay, needle, i) {
            return true;
        }
        i = i + 1;
    }
    assert forall|k: int| !occurs_at(hay@, needle@, k) by {
        if 0 <= k < i {
        } else {
        }
    }
    false
}

/// Lower-cases the ASCII letters of `cs`.
pub fn ascii_lowercase_chars(cs: &[char]) -> (out: Vec<char>)
    ensures
        out@ == ascii_lower(cs@),
{
    let mut out: Vec<char> = Vec::new();
    let mut i: usize = 0;
    while i < cs.len()
        invariant
            0 <= i <= cs@.len(),
            out@ == ascii_lower(cs@.subrange(0, i as int)),
        decreases cs@.len() - i,
    {
        let c = cs[i];
        let l = if 'A' <= c && c <= 'Z' {
            let code: u32 = (c as u32) + 32;
            char_from_ascii_code(code)
        } else {
            c
        };
        out.push(l);
        assert(ascii_lower(cs@.subrange(0, i + 1)) =~= ascii_lower(cs@.subrange(0, i as int)).push(
            ascii_lower_char(cs@[i as int]),
        ));
        i = i + 1;
    }
    assert(cs@.subrange(0, cs@.len() as int) =~= cs@);
    out
}

/// The character for an ASCII code point.
pub(crate) fn char_from_ascii_code(code: u32) -> (c: char)
    requires
        code < 128,
    ensures
        c == code as char,
{
    let b: u8 = code as u8;
    b as char
}


/// The pieces of `s` between occurrences of `sep`, as `str::split` with a character pattern
/// yields them (an empty string gives one empty piece).
pub open spec fn split_seq(s: Seq<char>, sep: char) -> Seq<Seq<char>>
    decreases s.len(),
{
    if s.len() == 0 {
        seq![Seq::<char>::empty()]
    } else {
        let init = split_seq(s.drop_last(), sep);
        if s.last() == sep {
            init.push(Seq::<char>::empty())
        } else {
            init.update(init.len() - 1, init.last().push(s.last()))
        }
    }
}

/// Splitting always gives at least one piece.
pub proof fn lemma_split_seq_nonempty(s: Seq<char>, sep: char)
    ensures
        split_seq(s, sep).len() >= 1,
    decreases s.len(),
{
    if s.len() > 0 {
        lemma_split_seq_nonempty(s.drop_last(), sep);
    }
}

/// The character sequences held by a sequence of character vectors.
pub open spec fn vecs_view(v: Seq<Vec<char>>) -> Seq<Seq<char>> {
    Seq::new(v.len(), |i: int| v[i]@)
}

/// Splits `cs` at every `sep`, as `str::split` does.
pub fn split_chars(cs: &[char], sep: char) -> (out: Vec<Vec<char>>)
    ensures
        vecs_view(out@) == split_seq(cs@, sep),
{
    let mut done: Vec<Vec<char>> = Vec::new();
    let mut cur: Vec<char> = Vec::new();
    let mut i: usize = 0;
    while i < cs.len()
        invariant
            0 <= i <= cs@.len(),
            vecs_view(done@).push(cur@) == split_seq(cs@.subrange(0, i as int), sep),
        decreases cs@.len() - i,
    {
        let c = cs[i];
        proof {
            let p = cs@.subrange(0, i + 1);
            assert(p.drop_last() =~= cs@.subrange(0, i as int));
            assert(p.last() == c);
            lemma_split_seq_nonempty(cs@.subrange(0, i as int), sep);
        }
        if c == sep {
            let ghost old_dv = vecs_view(done@);
            let ghost old_cur = cur@;
            let piece = cur;
            done.push(piece);
            cur = Vec::new();
            proof {
                assert(vecs_view(done@) =~= old_dv.push(old_cur));
                assert(vecs_view(done@).push(cur@) =~= split_seq(cs@.subrange(0, i + 1), sep));
            }
        } else {
            cur.push(c);
            proof {
                assert(vecs_view(done@).push(cur@) =~= split_seq(cs@.subrange(0, i + 1), sep));
            }
        }
        i = i + 1;
    }
    let ghost old_dv = vecs_view(done@);
    let ghost old_cur = cur@;
    done.push(cur);
    assert(vecs_view(done@) =~= old_dv.push(old_cur));
    assert(cs@.subrange(0, cs@.len() as int) =~= cs@);
    done
}


/// The character sequence of an optional owned string.
pub open spec fn opt_string_view(o: Option<String>) -> Option<Seq<char>> {
    match o {
        Some(s) => Some(s@),
        None => None,
    }
}

/// The character sequence of an optional string slice.
pub open spec fn opt_str_view(o: Option<&str>) -> Option<Seq<char>> {
    match o {
        Some(s) => Some(s@),
        None => None,
    }
}

/// Borrows the contents of an optional string.
pub fn opt_as_str(o: &Option<String>) -> (r: Option<&str>)
    ensures
        opt_str_view(r) == opt_string_view(*o),
{
    match o {
        Some(s) => Some(s.as_str()),
        None => None,
    }
}

/// An owned copy of an optional string slice.
pub fn opt_owned(o: Option<&str>) -> (r: Option<String>)
    ensures
        opt_string_view(r) == opt_str_view(o),
{
    match o {
        Some(s) => Some(owned(s)),
        None => None,
    }
}


/// `s` with every non-overlapping occurrence of `pat`, from the left, replaced by `rep`, as
/// `str::replace` computes it.
pub open spec fn replace_all(s: Seq<char>, pat: Seq<char>, rep: Seq<char>) -> Seq<char>
    recommends
        pat.len() > 0,
    decreases s.len(),
{
    if pat.len() == 0 || s.len() < pat.len() {
        s
    } else if s.subrange(0, pat.len() as int) == pat {
        rep + replace_all(s.subrange(pat.len() as int, s.len() as int), pat, rep)
    } else {
        seq![s[0]] + replace_all(s.drop_first(), pat, rep)
    }
}

/// Replaces every non-overlapping occurrence of `pat` in `s`, from the left, by `rep`.
pub fn replace_chars(s: &[char], pat: &[char], rep: &[char]) -> (out: Vec<char>)
    requires
        pat@.len() > 0,
    ensures
        out@ == replace_all(s@, pat@, rep@),
{
    let mut out: Vec<char> = Vec::new();
    let mut i: usize = 0;
    let n = s.len();
    assert(s@.subrange(0, n as int) =~= s@);
    assert(out@ + replace_all(s@, pat@, rep@) =~= replace_all(s@, pat@, rep@));
    while i < n
        invariant
            0 <= i <= n,
            n == s@.len(),
            pat@.len() > 0,
            out@ + replace_all(s@.subrange(i as int, n as int), pat@, rep@) == replace_all(
                s@,
                pat@,
                rep@,
            ),
        decreases n - i,
    {
        let rest = Ghost(s@.subrange(i as int, n as int));
        if pat.len() <= n - i && occurs_at_exec(s, pat, i) {
            proof {
                assert(rest@.subrange(0, pat@.len() as int) =~= s@.subrange(
                    i as int,
                    i + pat@.len(),
                ));
                assert(rest@.subrange(pat@.len() as int, rest@.len() as int) =~= s@.subrange(
                    i + pat@.len(),
                    n as int,
                ));
            }
            let mut k: usize = 0;
            let ghost out0 = out@;
            while k < rep.len()
                invariant
                    0 <= k <= rep@.len(),
                    out@ == out0 + rep@.subrange(0, k as int),
                decreases rep@.len() - k,
            {
                out.push(rep[k]);
                assert(rep@.subrange(0, k + 1) =~= rep@.subrange(0, k as int).push(rep@[k as int]));
                k = k + 1;
            }
            assert(rep@.subrange(0, rep@.len() as int) =~= rep@);
            assert(out@ + replace_all(s@.subrange(i + pat@.len(), n as int), pat@, rep@)
                =~= out0 + replace_all(rest@, pat@, rep@));
            i = i + pat.len();
        } else {
            proof {
                if pat@.len() <= n - i {
                    assert(rest@.subrange(0, pat@.len() as int) =~= s@.subrange(
                        i as int,
                        i + pat@.len(),
                    ));
                }
                assert(rest@.drop_first() =~= s@.subrange(i + 1, n as int));
            }
            let ghost out0 = out@;
            out.push(s[i]);
            assert(out@ + replace_all(s@.subrange(i + 1, n as int), pat@, rep@) =~= out0
                + replace_all(rest@, pat@, rep@));
            i = i + 1;
        }
    }
    assert(replace_all(s@.subrange(n as int, n as int), pat@, rep@) =~= Seq::<char>::empty());
    assert(out@ + Seq::<char>::empty() =~= out@);
    out
}

} // verus!
