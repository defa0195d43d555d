//! Reading short textual switches: trimming Unicode white space and matching
//! ASCII keywords without regard to ASCII case.

use vstd::prelude::*;
use vstd::string::*;

verus! {

/// Unicode `White_Space`, the set `char::is_whitespace` tests.
pub open spec fn is_white_space(c: char) -> bool {
    let v = c as u32;
    ||| 0x09 <= v <= 0x0D
    ||| v == 0x20
    ||| v == 0x85
    ||| v == 0xA0
    ||| v == 0x1680
    ||| 0x2000 <= v <= 0x200A
    ||| v == 0x2028
    ||| v == 0x2029
    ||| v == 0x202F
    ||| v == 0x205F
    ||| v == 0x3000
}

/// `s` without its leading white space.
pub open spec fn trim_start(s: Seq<char>) -> Seq<char>
    decreases s.len(),
{
    if s.len() > 0 && is_white_space(s[0]) {
        trim_start(s.subrange(1, s.len() as int))
    } else {
        s
    }
}

/// `s` without its trailing white space.
pub open spec fn trim_end(s: Seq<char>) -> Seq<char>
    decreases s.len(),
{
    if s.len() > 0 && is_white_space(s.last()) {
        trim_end(s.drop_last())
    } else {
        s
    }
}

/// `s` without leading and trailing white space, as `str::trim` gives it.
pub open spec fn trim(s: Seq<char>) -> Seq<char> {
    trim_end(trim_start(s))
}

/// The ASCII lower-case form of `c`; other characters stay as they are.
pub open spec fn ascii_lower(c: char) -> char {
    if 'A' <= c <= 'Z' {
        ((c as u32) + 32) as char
    } else {
        c
    }
}

/// `s` with every ASCII capital letter lowered, as `to_ascii_lowercase` gives it.
pub open spec fn ascii_lowercase(s: Seq<char>) -> Seq<char> {
    s.map_values(|c: char| ascii_lower(c))
}

/// The form a switch is compared in: trimmed, then ASCII lower-cased.
pub open spec fn normalized(s: Seq<char>) -> Seq<char> {
    ascii_lowercase(trim(s))
}

/// A keyword of lower-case ASCII letters, digits and dashes.
pub open spec fn is_keyword(w: Seq<char>) -> bool {
    forall|i: int| 0 <= i < w.len() ==> ('a' <= #[trigger] w[i] <= 'z' || '0' <= w[i] <= '9' || w[i] == '-')
}

/// A keyword is already in normalized form.
pub proof fn lemma_keyword_is_normalized(w: Seq<char>)
    requires
        is_keyword(w),
    ensures
        normalized(w) == w,
{
    if w.len() > 0 {
        assert('a' <= w[0] <= 'z' || '0' <= w[0] <= '9' || w[0] == '-');
        assert(!is_white_space(w[0]));
        assert('a' <= w[w.len() - 1] <= 'z' || '0' <= w[w.len() - 1] <= '9' || w[w.len() - 1]
            == '-');
        assert(!is_white_space(w.last()));
    }
    assert(trim_start(w) == w);
    assert(trim(w) == w);
    assert forall|i: int| 0 <= i < w.len() implies ascii_lower(w[i]) == w[i] by {
        assert('a' <= w[i] <= 'z' || '0' <= w[i] <= '9' || w[i] == '-');
    }
    assert(ascii_lowercase(w) =~= w);
}

fn white_space(c: char) -> (b: bool)
    ensures
        b == is_white_space(c),
{
    let v = c as u32;
    (0x09 <= v && v <= 0x0D) || v == 0x20 || v == 0x85 || v == 0xA0 || v == 0x1680 || (0x2000
        <= v && v <= 0x200A) || v == 0x2028 || v == 0x2029 || v == 0x202F || v == 0x205F || v
        == 0x3000
}

/// The characters of `s`, in order.
pub fn chars_of(s: &str) -> (r: Vec<char>)
    ensures
        r@ == s@,
{
    let n = s.unicode_len();
    let mut r: Vec<char> = Vec::new();
    let mut i: usize = 0;
    while i < n
        invariant
            n == s@.len(),
            i <= n,
            r@ == s@.subrange(0, i as int),
        decreases n - i,
    {
        let c = s.get_char(i);
        r.push(c);
        i = i + 1;
        assert(r@ =~= s@.subrange(0, i as int));
    }
    assert(r@ =~= s@);
    r
}

proof fn lemma_trim_start_step(s: Seq<char>, i: int)
    requires
        0 <= i < s.len(),
        is_white_space(s[i]),
    ensures
        trim_start(s.subrange(i, s.len() as int)) == trim_start(s.subrange(i + 1, s.len() as int)),
{
    let t = s.subrange(i, s.len() as int);
    assert(t.subrange(1, t.len() as int) =~= s.subrange(i + 1, s.len() as int));
}

proof fn lemma_trim_end_step(s: Seq<char>, j: int)
    requires
        0 < j <= s.len(),
        is_white_space(s[j - 1]),
    ensures
        trim_end(s.subrange(0, j)) == trim_end(s.subrange(0, j - 1)),
{
    let t = s.subrange(0, j);
    assert(t.drop_last() =~= s.subrange(0, j - 1));
}

/// The bounds `(a, b)` with `trim(s) == s[a..b]`.
pub fn trim_bounds(s: &Vec<char>) -> (r: (usize, usize))
    ensures
        r.0 <= r.1 <= s@.len(),
        trim(s@) == s@.subrange(r.0 as int, r.1 as int),
{
    let n = s.len();
    let mut a: usize = 0;
    assert(s@.subrange(0, n as int) =~= s@);
    while a < n && white_space(s[a])
        invariant
            n == s@.len(),
            a <= n,
            trim_start(s@) == trim_start(s@.subrange(a as int, n as int)),
        decreases n - a,
    {
        proof {
            lemma_trim_start_step(s@, a as int);
        }
        a = a + 1;
    }
    let ghost t = s@.subrange(a as int, n as int);
    proof {
        if a < n {
            assert(!is_white_space(t[0]));
        } else {
            assert(t.len() == 0);
        }
        assert(trim_start(s@) == t);
    }
    let mut b: usize = n;
    while b > a && white_space(s[b - 1])
        invariant
            n == s@.len(),
            a <= b <= n,
            t == s@.subrange(a as int, n as int),
            trim_end(t) == trim_end(s@.subrange(a as int, b as int)),
        decreases b,
    {
        proof {
            let u = s@.subrange(a as int, b as int);
            lemma_trim_end_step(u, (b - a) as int);
            assert(u.subrange(0, (b - a) as int) =~= u);
            assert(u.subrange(0, (b - a - 1) as int) =~= s@.subrange(a as int, b - 1));
        }
        b = b - 1;
    }
    proof {
        let u = s@.subrange(a as int, b as int);
        if b > a {
            assert(!is_white_space(u.last()));
        } else {
            assert(u.len() == 0);
        }
        assert(trim_end(u) == u);
    }
    (a, b)
}

/// Whether `normalized(s@)` is the keyword `word`.
pub fn normalized_is(s: &Vec<char>, word: &[char]) -> (b: bool)
    requires
        is_keyword(word@),
    ensures
        b == (normalized(s@) == word@),
{
    let (a, e) = trim_bounds(s);
    let ghost t = s@.subrange(a as int, e as int);
    if e - a != word.len() {
        proof {
            assert(normalized(s@).len() == t.len());
        }
        return false;
    }
    let mut i: usize = 0;
    while i < word.len()
        invariant
            a <= e <= s@.len(),
            e - a == word@.len(),
            t == s@.subrange(a as int, e as int),
            trim(s@) == t,
            is_keyword(word@),
            i <= word@.len(),
            forall|k: int| 0 <= k < i ==> ascii_lower(t[k]) == word@[k],
        decreases word.len() - i,
    {
        let c = s[a + i];
        let w = word[i];
        assert(c == t[i as int]);
        let upper_match = 'A' <= c && c <= 'Z' && (c as u32) + 32 == (w as u32);
        if !(c == w || upper_match) {
            proof {
                assert('a' <= w <= 'z' || '0' <= w <= '9' || w == '-');
                assert(ascii_lower(c) != w);
                assert(normalized(s@)[i as int] == ascii_lower(t[i as int]));
            }
            return false;
        }
        proof {
            assert('a' <= w <= 'z' || '0' <= w <= '9' || w == '-');
            assert(ascii_lower(c) == w);
        }
        i = i + 1;
    }
    proof {
        assert(normalized(s@) =~= word@);
    }
    true
}

/// Whether `s@` is exactly the keyword `word`.
pub fn chars_are(s: &Vec<char>, word: &[char]) -> (b: bool)
    ensures
        b == (s@ == word@),
{
    if s.len() != word.len() {
        return false;
    }
    let mut i: usize = 0;
    while i < word.len()
        invariant
            s@.len() == word@.len(),
            i <= word@.len(),
            forall|k: int| 0 <= k < i ==> s@[k] == word@[k],
        decreases word.len() - i,
    {
        if s[i] != word[i] {
            return false;
        }
        i = i + 1;
    }
    assert(s@ =~= word@);
    true
}

proof fn lemma_trim_start_append_space(t: Seq<char>)
    ensures
        trim_start(t.push(' ')) == (if trim_start(t).len() == 0 {
            Seq::<char>::empty()
        } else {
            trim_start(t).push(' ')
        }),
    decreases t.len(),
{
    let u = t.push(' ');
    if t.len() == 0 {
        assert(is_white_space(' '));
        assert(u.subrange(1, 1) =~= Seq::<char>::empty());
        assert(trim_start(Seq::<char>::empty()) == Seq::<char>::empty());
        assert(trim_start(u) == trim_start(u.subrange(1, 1)));
    } else if is_white_space(t[0]) {
        assert(u.subrange(1, u.len() as int) =~= t.subrange(1, t.len() as int).push(' '));
        lemma_trim_start_append_space(t.subrange(1, t.len() as int));
    } else {
        assert(u[0] == t[0]);
    }
}

/// Switch values are read without regard to white space around them:
/// padding a value with a space on each side reads the same.
pub proof fn law_switch_ignores_padding(s: Seq<char>)
    ensures
        normalized(seq![' '] + s + seq![' ']) == normalized(s),
{
    let padded = seq![' '] + s + seq![' '];
    assert(is_white_space(' '));
    assert(padded.subrange(1, padded.len() as int) =~= s.push(' '));
    assert(trim_start(padded) == trim_start(s.push(' ')));
    lemma_trim_start_append_space(s);
    let ts = trim_start(s);
    if ts.len() > 0 {
        assert(ts.push(' ').drop_last() =~= ts);
        assert(trim_end(ts.push(' ')) == trim_end(ts));
    }
    assert(trim(padded) == trim(s));
}

} // verus!
