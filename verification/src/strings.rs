//! Character-level helpers: whitespace classification, string/character
//! vector conversions and comparisons.

use vstd::prelude::*;
use vstd::string::StrSliceExecFns;

verus! {

/// The Unicode `White_Space` characters.
pub open spec fn is_ws_spec(c: char) -> bool {
    ||| c == ' '
    ||| ('\u{09}' <= c && c <= '\u{0d}')
    ||| c == '\u{85}'
    ||| c == '\u{a0}'
    ||| c == '\u{1680}'
    ||| ('\u{2000}' <= c && c <= '\u{200a}')
    ||| c == '\u{2028}'
    ||| c == '\u{2029}'
    ||| c == '\u{202f}'
    ||| c == '\u{205f}'
    ||| c == '\u{3000}'
}

/// Whether a character has the Unicode `White_Space` property.
pub fn is_ws(c: char) -> (r: bool)
    ensures
        r == is_ws_spec(c),
{
    c == ' ' || ('\u{09}' <= c && c <= '\u{0d}') || c == '\u{85}' || c == '\u{a0}' || c
        == '\u{1680}' || ('\u{2000}' <= c && c <= '\u{200a}') || c == '\u{2028}' || c == '\u{2029}'
        || c == '\u{202f}' || c == '\u{205f}' || c == '\u{3000}'
}

/// Relies on `Iterator::collect` for `String` from copied chars: the
/// resulting string holds exactly the given characters in order.
#[verifier::external_body]
pub fn chars_to_string(v: &Vec<char>) -> (s: String)
    ensures
        s@ == v@,
{
    v.iter().collect()
}

/// The characters of a string as a vector.
pub fn str_chars(s: &str) -> (r: Vec<char>)
    ensures
        r@ == s@,
{
    let n = s.unicode_len();
    let mut v: Vec<char> = Vec::new();
    let mut i: usize = 0;
    while i < n
        invariant
            i <= n,
            n == s@.len(),
            v@ == s@.take(i as int),
        decreases n - i,
    {
        v.push(s.get_char(i));
        i += 1;
        proof {
            assert(v@ =~= s@.take(i as int));
        }
    }
    proof {
        assert(s@.take(n as int) =~= s@);
    }
    v
}

/// Compare a range of a character vector against a string.
pub fn range_eq_str(v: &Vec<char>, from: usize, to: usize, s: &str) -> (r: bool)
    requires
        from <= to <= v@.len(),
    ensures
        r == (v@.subrange(from as int, to as int) == s@),
{
    let n = s.unicode_len();
    if n != to - from {
        proof {
            assert(v@.subrange(from as int, to as int).len() == to - from);
        }
        return false;
    }
    let mut i: usize = 0;
    while i < n
        invariant
            i <= n,
            n == s@.len(),
            from + n <= to <= v@.len(),
            n == to - from,
            forall|j: int| 0 <= j < i ==> v@[from + j] == s@[j],
        decreases n - i,
    {
        if v[from + i] != s.get_char(i) {
            proof {
                assert(v@.subrange(from as int, to as int)[i as int] == v@[from + i]);
            }
            return false;
        }
        i += 1;
    }
    proof {
        assert(v@.subrange(from as int, to as int) =~= s@);
    }
    true
}

/// Whether two strings hold the same characters.
pub fn str_eq(a: &str, b: &str) -> (r: bool)
    ensures
        r == (a@ == b@),
{
    let n = a.unicode_len();
    if n != b.unicode_len() {
        return false;
    }
    let mut i: usize = 0;
    while i < n
        invariant
            i <= n,
            n == a@.len() == b@.len(),
            forall|j: int| 0 <= j < i ==> a@[j] == b@[j],
        decreases n - i,
    {
        if a.get_char(i) != b.get_char(i) {
            return false;
        }
        i += 1;
    }
    proof {
        assert(a@ =~= b@);
    }
    true
}

/// Copy a range of a character vector.
pub fn subrange_chars(v: &Vec<char>, from: usize, to: usize) -> (r: Vec<char>)
    requires
        from <= to <= v@.len(),
    ensures
        r@ == v@.subrange(from as int, to as int),
{
    let mut out: Vec<char> = Vec::new();
    let mut i = from;
    while i < to
        invariant
            from <= i <= to <= v@.len(),
            out@ == v@.subrange(from as int, i as int),
        decreases to - i,
    {
        out.push(v[i]);
        i += 1;
        proof {
            assert(out@ =~= v@.subrange(from as int, i as int));
        }
    }
    out
}

/// The text without its leading whitespace.
pub open spec fn trim_start_spec(s: Seq<char>) -> Seq<char>
    decreases s.len(),
{
    if s.len() == 0 {
        s
    } else if is_ws_spec(s[0]) {
        trim_start_spec(s.skip(1))
    } else {
        s
    }
}

/// The text without its trailing whitespace.
pub open spec fn trim_end_spec(s: Seq<char>) -> Seq<char>
    decreases s.len(),
{
    if s.len() == 0 {
        s
    } else if is_ws_spec(s.last()) {
        trim_end_spec(s.drop_last())
    } else {
        s
    }
}

/// The text without leading and trailing whitespace.
pub open spec fn trim_spec(s: Seq<char>) -> Seq<char> {
    trim_end_spec(trim_start_spec(s))
}

/// The characters of `v` with leading and trailing whitespace removed.
pub fn trim_chars(v: &Vec<char>) -> (r: Vec<char>)
    ensures
        r@ == trim_spec(v@),
{
    let n = v.len();
    let mut lo: usize = 0;
    proof {
        assert(v@.skip(0) =~= v@);
    }
    loop
        invariant
            lo <= n,
            n == v@.len(),
            trim_start_spec(v@) == trim_start_spec(v@.skip(lo as int)),
        ensures
            lo <= n == v@.len(),
            trim_start_spec(v@) == v@.skip(lo as int),
        decreases n - lo,
    {
        if lo >= n {
            proof {
                assert(v@.skip(lo as int) =~= Seq::<char>::empty());
            }
            return Vec::new();
        }
        if !is_ws(v[lo]) {
            proof {
                assert(v@.skip(lo as int)[0] == v@[lo as int]);
            }
            break ;
        }
        lo += 1;
        proof {
            assert(v@.skip(lo as int - 1).skip(1) =~= v@.skip(lo as int));
        }
    }
    let mut hi: usize = n;
    proof {
        assert(v@.subrange(lo as int, hi as int) =~= v@.skip(lo as int));
    }
    loop
        invariant
            lo <= hi <= n,
            n == v@.len(),
            trim_start_spec(v@) == v@.skip(lo as int),
            trim_end_spec(v@.skip(lo as int)) == trim_end_spec(
                v@.subrange(lo as int, hi as int),
            ),
        ensures
            lo <= hi <= n == v@.len(),
            trim_spec(v@) == v@.subrange(lo as int, hi as int),
        decreases hi,
    {
        if hi == lo {
            proof {
                assert(v@.subrange(lo as int, hi as int) =~= Seq::<char>::empty());
            }
            break ;
        }
        if !is_ws(v[hi - 1]) {
            proof {
                assert(v@.subrange(lo as int, hi as int).last() == v@[hi - 1]);
            }
            break ;
        }
        hi -= 1;
        proof {
            assert(v@.subrange(lo as int, hi as int + 1).drop_last() =~= v@.subrange(
                lo as int,
                hi as int,
            ));
            assert(v@.subrange(lo as int, hi as int + 1).last() == v@[hi as int]);
        }
    }
    subrange_chars(v, lo, hi)
}

/// Split a text at every occurrence of `sep`; the separators belong to no
/// part, and a text always has at least one (possibly empty) part.
pub open spec fn split_sep(s: Seq<char>, sep: char) -> Seq<Seq<char>>
    decreases s.len(),
{
    if s.len() == 0 {
        seq![Seq::<char>::empty()]
    } else if s[0] == sep {
        seq![Seq::<char>::empty()] + split_sep(s.skip(1), sep)
    } else {
        let rest = split_sep(s.skip(1), sep);
        seq![seq![s[0]] + rest[0]] + rest.skip(1)
    }
}

/// Splitting yields at least one part.
pub proof fn lemma_split_sep_len_pos(s: Seq<char>, sep: char)
    ensures
        split_sep(s, sep).len() >= 1,
    decreases s.len(),
{
    if s.len() != 0 {
        lemma_split_sep_len_pos(s.skip(1), sep);
    }
}

/// Appending one character extends the last part, or, if it is the
/// separator, opens a new empty part.
pub proof fn lemma_split_sep_push(s: Seq<char>, sep: char, c: char)
    ensures
        c == sep ==> split_sep(s.push(c), sep) == split_sep(s, sep).push(Seq::<char>::empty()),
        c != sep ==> split_sep(s.push(c), sep) == split_sep(s, sep).update(
            split_sep(s, sep).len() - 1,
            split_sep(s, sep).last().push(c),
        ),
    decreases s.len(),
{
    lemma_split_sep_len_pos(s, sep);
    if s.len() == 0 {
        let t = s.push(c);
        assert(t.skip(1) =~= Seq::<char>::empty());
        assert(split_sep(t.skip(1), sep) == seq![Seq::<char>::empty()]);
        if c == sep {
            assert(t[0] == sep);
            assert(split_sep(t, sep) == seq![Seq::<char>::empty()] + split_sep(t.skip(1), sep));
            assert(split_sep(t, sep) =~~= split_sep(s, sep).push(Seq::<char>::empty()));
        } else {
            assert(t[0] != sep);
            assert(split_sep(t, sep) == seq![seq![t[0]] + split_sep(t.skip(1), sep)[0]]
                + split_sep(t.skip(1), sep).skip(1));
            assert(seq![t[0]] + split_sep(t.skip(1), sep)[0] =~= seq![c]);
            assert(split_sep(t, sep) =~~= split_sep(s, sep).update(
                0,
                split_sep(s, sep).last().push(c),
            ));
        }
    } else {
        lemma_split_sep_push(s.skip(1), sep, c);
        lemma_split_sep_len_pos(s.skip(1), sep);
        let t = s.push(c);
        assert(t.skip(1) =~= s.skip(1).push(c));
        if s[0] == sep {
            assert(t[0] == sep);
            assert(split_sep(t, sep) == seq![Seq::<char>::empty()] + split_sep(t.skip(1), sep));
            assert(split_sep(s, sep) == seq![Seq::<char>::empty()] + split_sep(s.skip(1), sep));
            if c == sep {
                assert(split_sep(t, sep) =~~= split_sep(s, sep).push(Seq::<char>::empty()));
            } else {
                assert(split_sep(s.skip(1), sep).len() >= 1);
                assert(split_sep(t, sep) =~~= split_sep(s, sep).update(
                    split_sep(s, sep).len() - 1,
                    split_sep(s, sep).last().push(c),
                ));
            }
        } else {
            assert(t[0] == s[0] && t[0] != sep);
            assert(split_sep(t, sep) == seq![seq![t[0]] + split_sep(t.skip(1), sep)[0]]
                + split_sep(t.skip(1), sep).skip(1));
            assert(split_sep(s, sep) == seq![seq![s[0]] + split_sep(s.skip(1), sep)[0]]
                + split_sep(s.skip(1), sep).skip(1));
            let rest = split_sep(s.skip(1), sep);
            let rest2 = split_sep(t.skip(1), sep);
            if c == sep {
                assert(rest2 == rest.push(Seq::<char>::empty()));
                assert(rest2[0] == rest[0]) by {
                    assert(rest.push(Seq::<char>::empty())[0] == rest[0]);
                }
                assert(split_sep(t, sep) =~~= split_sep(s, sep).push(Seq::<char>::empty()));
            } else {
                assert(rest2 == rest.update(rest.len() - 1, rest.last().push(c)));
                if rest.len() == 1 {
                    assert(rest2[0] == rest[0].push(c));
                    assert(split_sep(t, sep) =~~= split_sep(s, sep).update(
                        split_sep(s, sep).len() - 1,
                        split_sep(s, sep).last().push(c),
                    ));
                } else {
                    assert(rest2[0] == rest[0]);
                    assert(split_sep(t, sep) =~~= split_sep(s, sep).update(
                        split_sep(s, sep).len() - 1,
                        split_sep(s, sep).last().push(c),
                    ));
                }
            }
        }
    }
}

/// The parts of `v` split at every `sep`.
pub fn split_chars(v: &Vec<char>, sep: char) -> (r: Vec<Vec<char>>)
    ensures
        r@.map_values(|p: Vec<char>| p@) == split_sep(v@, sep),
        r@.len() >= 1,
{
    let n = v.len();
    let mut acc: Vec<Vec<char>> = Vec::new();
    let mut cur: Vec<char> = Vec::new();
    let mut i: usize = 0;
    proof {
        assert(v@.take(0) =~= Seq::<char>::empty());
        assert(acc@.map_values(|p: Vec<char>| p@).push(cur@) =~~= split_sep(v@.take(0), sep));
    }
    while i < n
        invariant
            i <= n,
            n == v@.len(),
            acc@.map_values(|p: Vec<char>| p@).push(cur@) == split_sep(v@.take(i as int), sep),
        decreases n - i,
    {
        let c = v[i];
        proof {
            lemma_split_sep_push(v@.take(i as int), sep, c);
            assert(v@.take(i as int).push(c) =~= v@.take(i as int + 1));
        }
        if c == sep {
            acc.push(cur);
            cur = Vec::new();
            proof {
                assert(acc@.map_values(|p: Vec<char>| p@).push(cur@) =~~= split_sep(
                    v@.take(i as int + 1),
                    sep,
                ));
            }
        } else {
            cur.push(c);
            proof {
                let parts = split_sep(v@.take(i as int), sep);
                assert(parts.update(parts.len() - 1, parts.last().push(c)).drop_last()
                    =~~= parts.drop_last());
                assert(acc@.map_values(|p: Vec<char>| p@).push(cur@) =~~= split_sep(
                    v@.take(i as int + 1),
                    sep,
                ));
            }
        }
        i += 1;
    }
    proof {
        assert(v@.take(n as int) =~= v@);
    }
    acc.push(cur);
    proof {
        assert(acc@.map_values(|p: Vec<char>| p@) =~~= split_sep(v@, sep));
    }
    acc
}

/// What remains of a path after its last `'/'` separator; the whole path if
/// it has none.
pub open spec fn after_last_sep(p: Seq<char>) -> Seq<char>
    decreases p.len(),
{
    if p.len() == 0 {
        p
    } else if p.last() == '/' {
        Seq::empty()
    } else {
        after_last_sep(p.drop_last()).push(p.last())
    }
}

/// The final component of a path: everything after the last `'/'`.
pub fn path_file_name(p: &str) -> (r: Vec<char>)
    ensures
        r@ == after_last_sep(p@),
{
    let n = p.unicode_len();
    let mut out: Vec<char> = Vec::new();
    let mut i: usize = 0;
    while i < n
        invariant
            i <= n,
            n == p@.len(),
            out@ == after_last_sep(p@.take(i as int)),
        decreases n - i,
    {
        let c = p.get_char(i);
        if c == '/' {
            out = Vec::new();
        } else {
            out.push(c);
        }
        i += 1;
        proof {
            assert(p@.take(i as int).drop_last() =~= p@.take(i - 1));
            assert(p@.take(i as int).last() == p@[i - 1]);
        }
    }
    proof {
        assert(p@.take(n as int) =~= p@);
    }
    out
}

} // verus!
