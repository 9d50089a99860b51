//! Verified text primitives that the detection and enumeration
//! algorithms are specified and proved against: substring search,
//! splitting on a separator, whitespace trimming, and membership in a
//! collection of strings.
use vstd::prelude::*;
use vstd::string::*;

verus! {

/// A character with the Unicode `White_Space` property: the set of
/// characters that trimming removes at either end of a candidate name.
pub open spec fn is_space(c: char) -> bool {
    ||| c == ' '
    ||| c == '\t'
    ||| c == '\n'
    ||| c == '\r'
    ||| c == '\u{000B}'
    ||| c == '\u{000C}'
    ||| c == '\u{0085}'
    ||| c == '\u{00A0}'
    ||| c == '\u{1680}'
    ||| (0x2000 <= (c as u32) && (c as u32) <= 0x200A)
    ||| c == '\u{2028}'
    ||| c == '\u{2029}'
    ||| c == '\u{202F}'
    ||| c == '\u{205F}'
    ||| c == '\u{3000}'
}

pub fn is_space_char(c: char) -> (r: bool)
    ensures
        r == is_space(c),
{
    c == ' ' || c == '\t' || c == '\n' || c == '\r' || c == '\u{000B}' || c == '\u{000C}'
        || c == '\u{0085}' || c == '\u{00A0}' || c == '\u{1680}' || (0x2000 <= (c as u32) && (c
        as u32) <= 0x200A) || c == '\u{2028}' || c == '\u{2029}' || c == '\u{202F}' || c
        == '\u{205F}' || c == '\u{3000}'
}

/// The sequence with leading whitespace removed.
pub open spec fn trim_start_spec(s: Seq<char>) -> Seq<char>
    decreases s.len(),
{
    if s.len() > 0 && is_space(s[0]) {
        trim_start_spec(s.drop_first())
    } else {
        s
    }
}

/// The sequence with trailing whitespace removed.
pub open spec fn trim_end_spec(s: Seq<char>) -> Seq<char>
    decreases s.len(),
{
    if s.len() > 0 && is_space(s.last()) {
        trim_end_spec(s.drop_last())
    } else {
        s
    }
}

/// The sequence with whitespace removed at both ends.
pub open spec fn trim_spec(s: Seq<char>) -> Seq<char> {
    trim_end_spec(trim_start_spec(s))
}

/// Removes leading and trailing whitespace from a candidate name.
pub fn trim_str<'a>(s: &'a str) -> (r: &'a str)
    ensures
        r@ == trim_spec(s@),
{
    let n: usize = s.unicode_len();
    proof {
        assert(s@.subrange(0, n as int) =~= s@);
    }
    let mut ts: usize = 0;
    while ts < n
        invariant
            ts <= n,
            n == s@.len(),
            trim_start_spec(s@) == trim_start_spec(s@.subrange(ts as int, n as int)),
        ensures
            ts <= n,
            n == s@.len(),
            trim_start_spec(s@) == trim_start_spec(s@.subrange(ts as int, n as int)),
            ts == n || !is_space(s@[ts as int]),
        decreases n - ts,
    {
        if !is_space_char(s.get_char(ts)) {
            break ;
        }
        proof {
            let u = s@.subrange(ts as int, n as int);
            assert(u[0] == s@[ts as int]);
            assert(u.drop_first() =~= s@.subrange(ts as int + 1, n as int));
        }
        ts = ts + 1;
    }
    proof {
        let u = s@.subrange(ts as int, n as int);
        assert(trim_start_spec(u) == u);
    }
    let mut te: usize = n;
    while te > ts
        invariant
            ts <= te <= n,
            n == s@.len(),
            trim_end_spec(s@.subrange(ts as int, n as int)) == trim_end_spec(
                s@.subrange(ts as int, te as int),
            ),
        ensures
            ts <= te <= n,
            n == s@.len(),
            trim_end_spec(s@.subrange(ts as int, n as int)) == trim_end_spec(
                s@.subrange(ts as int, te as int),
            ),
            te == ts || !is_space(s@[te - 1]),
        decreases te - ts,
    {
        if !is_space_char(s.get_char(te - 1)) {
            break ;
        }
        proof {
            let v = s@.subrange(ts as int, te as int);
            assert(v.last() == s@[te - 1]);
            assert(v.drop_last() =~= s@.subrange(ts as int, te as int - 1));
        }
        te = te - 1;
    }
    proof {
        let v = s@.subrange(ts as int, te as int);
        assert(trim_end_spec(v) == v);
        assert(trim_spec(s@) == v);
    }
    s.substring_char(ts, te)
}

/// The pieces of `s` between occurrences of the separator, in order;
/// an empty input gives one empty piece, as splitting a string does.
pub open spec fn split_on(s: Seq<char>, sep: char) -> Seq<Seq<char>>
    decreases s.len(),
{
    if s.len() == 0 {
        seq![Seq::<char>::empty()]
    } else if s[0] == sep {
        seq![Seq::<char>::empty()] + split_on(s.drop_first(), sep)
    } else {
        let rest = split_on(s.drop_first(), sep);
        seq![seq![s[0]] + rest[0]] + rest.drop_first()
    }
}

pub proof fn lemma_split_on_len(s: Seq<char>, sep: char)
    ensures
        split_on(s, sep).len() >= 1,
    decreases s.len(),
{
    if s.len() > 0 {
        lemma_split_on_len(s.drop_first(), sep);
    }
}

pub proof fn lemma_split_on_no_sep(s: Seq<char>, sep: char)
    requires
        !s.contains(sep),
    ensures
        split_on(s, sep) == seq![s],
    decreases s.len(),
{
    if s.len() == 0 {
        assert(s =~= Seq::<char>::empty());
        assert(split_on(s, sep) =~= seq![s]);
    } else {
        assert(s[0] != sep) by {
            if s[0] == sep {
                assert(s.contains(sep));
            }
        }
        assert(!s.drop_first().contains(sep)) by {
            if s.drop_first().contains(sep) {
                let i = choose|i: int|
                    0 <= i < s.drop_first().len() && s.drop_first()[i] == sep;
                assert(s[i + 1] == sep);
                assert(s.contains(sep));
            }
        }
        lemma_split_on_no_sep(s.drop_first(), sep);
        let rest = split_on(s.drop_first(), sep);
        assert(rest[0] == s.drop_first());
        assert(seq![s[0]] + rest[0] =~= s);
        assert(rest.drop_first() =~= Seq::<Seq<char>>::empty());
        assert(split_on(s, sep) =~= seq![s]);
    }
}

pub proof fn lemma_split_on_first_sep(a: Seq<char>, b: Seq<char>, sep: char)
    requires
        !a.contains(sep),
    ensures
        split_on(a + seq![sep] + b, sep) == seq![a] + split_on(b, sep),
    decreases a.len(),
{
    let s = a + seq![sep] + b;
    if a.len() == 0 {
        assert(s[0] == sep);
        assert(s.drop_first() =~= b);
        assert(a =~= Seq::<char>::empty());
        assert(split_on(s, sep) =~= seq![a] + split_on(b, sep));
    } else {
        assert(s[0] == a[0]);
        assert(a[0] != sep) by {
            if a[0] == sep {
                assert(a.contains(sep));
            }
        }
        assert(!a.drop_first().contains(sep)) by {
            if a.drop_first().contains(sep) {
                let i = choose|i: int|
                    0 <= i < a.drop_first().len() && a.drop_first()[i] == sep;
                assert(a[i + 1] == sep);
                assert(a.contains(sep));
            }
        }
        assert(s.drop_first() =~= a.drop_first() + seq![sep] + b);
        lemma_split_on_first_sep(a.drop_first(), b, sep);
        let rest = split_on(s.drop_first(), sep);
        lemma_split_on_len(b, sep);
        assert(rest[0] == a.drop_first());
        assert(rest.drop_first() =~= split_on(b, sep));
        assert(seq![s[0]] + rest[0] =~= a);
        assert(split_on(s, sep) =~= seq![a] + split_on(b, sep));
    }
}

/// Splits `s` at every occurrence of the separator.
pub fn split_char(s: &str, sep: char) -> (r: Vec<String>)
    ensures
        r.deep_view() == split_on(s@, sep),
{
    let n: usize = s.unicode_len();
    let mut r: Vec<String> = Vec::new();
    proof {
        assert(s@.subrange(0, n as int) =~= s@);
        assert(r.deep_view() + split_on(s@, sep) =~~= split_on(s@, sep));
    }
    let mut start: usize = 0;
    let mut i: usize = 0;
    while i < n
        invariant
            start <= i <= n,
            n == s@.len(),
            forall|j: int| start <= j < i ==> s@[j] != sep,
            split_on(s@, sep) == r.deep_view() + split_on(
                s@.subrange(start as int, n as int),
                sep,
            ),
        decreases n - i,
    {
        let c = s.get_char(i);
        if c == sep {
            let piece = s.substring_char(start, i);
            proof {
                let p = s@.subrange(start as int, i as int);
                assert(piece@ =~= p);
                assert(!p.contains(sep)) by {
                    if p.contains(sep) {
                        let k = choose|k: int| 0 <= k < p.len() && p[k] == sep;
                        assert(s@[start + k] == sep);
                    }
                }
                let tail = s@.subrange(start as int, n as int);
                assert(tail =~= p + seq![sep] + s@.subrange(i as int + 1, n as int));
                lemma_split_on_first_sep(p, s@.subrange(i as int + 1, n as int), sep);
            }
            let ghost old_deep = r.deep_view();
            r.push(piece.to_owned());
            proof {
                assert(r.deep_view() =~= old_deep.push(s@.subrange(start as int, i as int)));
                assert(split_on(s@, sep) =~~= r.deep_view() + split_on(
                    s@.subrange(i as int + 1, n as int),
                    sep,
                ));
            }
            start = i + 1;
        }
        i = i + 1;
    }
    let piece = s.substring_char(start, n);
    proof {
        let p = s@.subrange(start as int, n as int);
        assert(piece@ =~= p);
        assert(!p.contains(sep)) by {
            if p.contains(sep) {
                let k = choose|k: int| 0 <= k < p.len() && p[k] == sep;
                assert(s@[start + k] == sep);
            }
        }
        lemma_split_on_no_sep(p, sep);
    }
    let ghost old_deep = r.deep_view();
    r.push(piece.to_owned());
    proof {
        assert(r.deep_view() =~= old_deep.push(s@.subrange(start as int, n as int)));
        assert(r.deep_view() =~~= split_on(s@, sep));
    }
    r
}

/// Membership in a pushed sequence: the new element, or an old one.
pub proof fn lemma_push_contains<A>(s: Seq<A>, x: A, t: A)
    ensures
        s.push(x).contains(t) <==> (s.contains(t) || t == x),
{
    if s.push(x).contains(t) {
        let k = choose|k: int| 0 <= k < s.push(x).len() && s.push(x)[k] == t;
        if k < s.len() {
            assert(s[k] == t);
        }
    }
    if s.contains(t) {
        let k = choose|k: int| 0 <= k < s.len() && s[k] == t;
        assert(s.push(x)[k] == t);
    }
    if t == x {
        assert(s.push(x)[s.len() as int] == t);
    }
}

/// `needle` occurs contiguously somewhere in `haystack`.
pub open spec fn contains_seq(haystack: Seq<char>, needle: Seq<char>) -> bool {
    exists|i: int|
        0 <= i && i + needle.len() <= haystack.len() && #[trigger] haystack.subrange(
            i,
            i + needle.len() as int,
        ) == needle
}

/// Substring search: whether `needle` occurs anywhere in `haystack`.
pub fn contains_str(haystack: &str, needle: &str) -> (r: bool)
    ensures
        r == contains_seq(haystack@, needle@),
{
    let hl: usize = haystack.unicode_len();
    let nl: usize = needle.unicode_len();
    if nl > hl {
        proof {
            assert(!contains_seq(haystack@, needle@)) by {
                if contains_seq(haystack@, needle@) {
                    let i = choose|i: int|
                        0 <= i && i + needle@.len() <= haystack@.len()
                            && #[trigger] haystack@.subrange(i, i + needle@.len() as int)
                            == needle@;
                    assert(i + nl <= hl);
                }
            }
        }
        return false;
    }
    if nl == 0 {
        proof {
            assert(haystack@.subrange(0, 0) =~= needle@);
            assert(contains_seq(haystack@, needle@)) by {
                assert(0 <= 0int && 0 + needle@.len() <= haystack@.len() && haystack@.subrange(
                    0,
                    0 + needle@.len() as int,
                ) == needle@);
            }
        }
        return true;
    }
    let mut i: usize = 0;
    while i <= hl - nl
        invariant
            nl <= hl,
            hl == haystack@.len(),
            nl == needle@.len(),
            1 <= nl,
            i <= hl - nl + 1,
            forall|i2: int|
                0 <= i2 < i ==> #[trigger] haystack@.subrange(i2, i2 + needle@.len() as int)
                    != needle@,
        decreases hl - nl - i + 1,
    {
        let mut j: usize = 0;
        let mut ok = true;
        while j < nl
            invariant
                j <= nl,
                i + nl <= hl,
                hl == haystack@.len(),
                nl == needle@.len(),
                ok ==> forall|k: int| 0 <= k < j ==> haystack@[i + k] == needle@[k],
                !ok ==> haystack@.subrange(i as int, i as int + nl as int) != needle@,
            ensures
                j <= nl,
                ok ==> forall|k: int| 0 <= k < j ==> haystack@[i + k] == needle@[k],
                !ok ==> haystack@.subrange(i as int, i as int + nl as int) != needle@,
                ok ==> j == nl,
            decreases nl - j,
        {
            if haystack.get_char(i + j) != needle.get_char(j) {
                proof {
                    assert(haystack@.subrange(i as int, i as int + nl as int)[j as int]
                        == haystack@[i + j]);
                }
                ok = false;
                break ;
            }
            j = j + 1;
        }
        if ok {
            proof {
                assert(haystack@.subrange(i as int, i as int + nl as int) =~= needle@);
                assert(contains_seq(haystack@, needle@)) by {
                    assert(0 <= i as int && i as int + needle@.len() <= haystack@.len()
                        && haystack@.subrange(i as int, i as int + needle@.len() as int)
                        == needle@);
                }
            }
            return true;
        }
        i = i + 1;
    }
    proof {
        assert(!contains_seq(haystack@, needle@)) by {
            if contains_seq(haystack@, needle@) {
                let w = choose|w: int|
                    0 <= w && w + needle@.len() <= haystack@.len()
                        && #[trigger] haystack@.subrange(w, w + needle@.len() as int)
                        == needle@;
                assert(w < i);
            }
        }
    }
    false
}

/// Whether the character occurs in the string.
pub fn contains_char(s: &str, c: char) -> (r: bool)
    ensures
        r == s@.contains(c),
{
    let n: usize = s.unicode_len();
    let mut i: usize = 0;
    while i < n
        invariant
            i <= n,
            n == s@.len(),
            forall|j: int| 0 <= j < i ==> s@[j] != c,
        decreases n - i,
    {
        if s.get_char(i) == c {
            return true;
        }
        i = i + 1;
    }
    false
}

/// Whether some string in `v` has exactly the characters of `x`
/// (case-sensitive exact match).
pub fn vec_contains_string(v: &Vec<String>, x: &String) -> (r: bool)
    ensures
        r == v.deep_view().contains(x@),
{
    let mut i: usize = 0;
    while i < v.len()
        invariant
            i <= v.len(),
            forall|j: int| 0 <= j < i ==> v.deep_view()[j] != x@,
        decreases v.len() - i,
    {
        if v[i] == *x {
            proof {
                assert(v.deep_view()[i as int] == x@);
            }
            return true;
        }
        i = i + 1;
    }
    proof {
        assert(!v.deep_view().contains(x@)) by {
            if v.deep_view().contains(x@) {
                let j = choose|j: int| 0 <= j < v.deep_view().len() && v.deep_view()[j] == x@;
                assert(v.deep_view()[j] != x@);
            }
        }
    }
    false
}

} // verus!
