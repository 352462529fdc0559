//! Character-level text utilities: whitespace stripping, separator
//! splitting, and equality against string slices. Records are handled as
//! vectors of characters so that every step of parsing is verified against
//! a sequence-level specification.

use vstd::prelude::*;

verus! {

/// Whitespace characters removed from a record before it is split.
pub open spec fn is_ws(c: char) -> bool {
    c == ' ' || c == '\t' || c == '\r' || c == '\n'
}

/// The sequence with all whitespace characters removed.
pub open spec fn strip_ws(s: Seq<char>) -> Seq<char>
    decreases s.len(),
{
    if s.len() == 0 {
        Seq::empty()
    } else if is_ws(s[0]) {
        strip_ws(s.subrange(1, s.len() as int))
    } else {
        seq![s[0]] + strip_ws(s.subrange(1, s.len() as int))
    }
}

/// The characters of a string, in order.
pub fn to_chars(s: &str) -> (r: Vec<char>)
    ensures
        r@ == s@,
{
    let n = s.unicode_len();
    let mut r: Vec<char> = Vec::new();
    let mut i: usize = 0;
    while i < n
        invariant
            n == s@.len(),
            i <= n,
            r@ == s@.subrange(0, i as int),
        decreases n - i,
    {
        let c = s.get_char(i);
        r.push(c);
        i += 1;
        proof {
            assert(r@ =~= s@.subrange(0, i as int));
        }
    }
    proof {
        assert(r@ =~= s@);
    }
    r
}

/// Removes every whitespace character, keeping the rest in order.
pub fn strip_whitespace(v: &Vec<char>) -> (r: Vec<char>)
    ensures
        r@ == strip_ws(v@),
{
    let mut r: Vec<char> = Vec::new();
    let n = v.len();
    let mut i: usize = 0;
    proof {
        assert(v@.subrange(0, n as int) =~= v@);
        assert(r@ + strip_ws(v@) =~= strip_ws(v@));
    }
    while i < n
        invariant
            n == v@.len(),
            i <= n,
            strip_ws(v@) == r@ + strip_ws(v@.subrange(i as int, n as int)),
        decreases n - i,
    {
        let c = v[i];
        proof {
            let tail = v@.subrange(i as int, n as int);
            assert(tail[0] == v@[i as int]);
            assert(tail.subrange(1, tail.len() as int) =~= v@.subrange(i as int + 1, n as int));
        }
        if !(c == ' ' || c == '\t' || c == '\r' || c == '\n') {
            r.push(c);
            proof {
                let tail = v@.subrange(i as int, n as int);
                assert(strip_ws(tail) == seq![c] + strip_ws(v@.subrange(i as int + 1, n as int)));
                assert(r@ + strip_ws(v@.subrange(i as int + 1, n as int)) =~= strip_ws(v@));
            }
        }
        i += 1;
    }
    proof {
        assert(strip_ws(v@.subrange(i as int, n as int)) =~= Seq::<char>::empty());
        assert(r@ + Seq::<char>::empty() =~= r@);
    }
    r
}

/// The fields obtained by cutting the sequence at every occurrence of
/// `sep`. A sequence with no separator yields one field; each separator
/// adds one more, so the result is never empty.
pub open spec fn split_char(s: Seq<char>, sep: char) -> Seq<Seq<char>>
    decreases s.len(),
{
    if s.len() == 0 {
        seq![Seq::<char>::empty()]
    } else if s[0] == sep {
        seq![Seq::<char>::empty()] + split_char(s.subrange(1, s.len() as int), sep)
    } else {
        prepend_first(seq![s[0]], split_char(s.subrange(1, s.len() as int), sep))
    }
}

/// The field list with `p` prefixed onto its first field.
pub open spec fn prepend_first(p: Seq<char>, r: Seq<Seq<char>>) -> Seq<Seq<char>> {
    r.update(0, p + r[0])
}

/// Splitting never yields an empty field list.
pub proof fn lemma_split_len(s: Seq<char>, sep: char)
    ensures
        split_char(s, sep).len() >= 1,
    decreases s.len(),
{
    if s.len() > 0 {
        lemma_split_len(s.subrange(1, s.len() as int), sep);
    }
}

/// Cuts the characters at every occurrence of `sep`, returning the fields
/// in order.
pub fn split_on(v: &Vec<char>, sep: char) -> (r: Vec<Vec<char>>)
    ensures
        r.deep_view() == split_char(v@, sep),
        r@.len() >= 1,
{
    let mut out: Vec<Vec<char>> = Vec::new();
    let mut cur: Vec<char> = Vec::new();
    let n = v.len();
    let mut i: usize = 0;
    proof {
        lemma_split_len(v@, sep);
        assert(v@.subrange(0, n as int) =~= v@);
        assert(cur@ + split_char(v@, sep)[0] =~= split_char(v@, sep)[0]);
        assert(prepend_first(cur@, split_char(v@, sep)) =~~= split_char(v@, sep));
        assert(out.deep_view() + split_char(v@, sep) =~~= split_char(v@, sep));
    }
    while i < n
        invariant
            n == v@.len(),
            i <= n,
            split_char(v@, sep) == out.deep_view() + prepend_first(
                cur@,
                split_char(v@.subrange(i as int, n as int), sep),
            ),
        decreases n - i,
    {
        let c = v[i];
        proof {
            let tail = v@.subrange(i as int, n as int);
            assert(tail[0] == v@[i as int]);
            assert(tail.subrange(1, tail.len() as int) =~= v@.subrange(i as int + 1, n as int));
            lemma_split_len(v@.subrange(i as int + 1, n as int), sep);
        }
        if c == sep {
            let ghost prev_out = out.deep_view();
            let ghost prev_cur = cur@;
            out.push(cur);
            cur = Vec::new();
            proof {
                let rest = split_char(v@.subrange(i as int + 1, n as int), sep);
                let tail_split = split_char(v@.subrange(i as int, n as int), sep);
                assert(tail_split == seq![Seq::<char>::empty()] + rest);
                assert(prev_cur + tail_split[0] =~= prev_cur);
                assert(prepend_first(prev_cur, tail_split) =~~= seq![prev_cur] + rest);
                assert(out.deep_view() =~~= prev_out + seq![prev_cur]);
                assert(cur@ + rest[0] =~= rest[0]);
                assert(prepend_first(cur@, rest) =~~= rest);
                assert(out.deep_view() + prepend_first(cur@, rest) =~~= prev_out + prepend_first(
                    prev_cur,
                    tail_split,
                ));
            }
        } else {
            let ghost prev_cur = cur@;
            cur.push(c);
            proof {
                let rest = split_char(v@.subrange(i as int + 1, n as int), sep);
                let tail_split = split_char(v@.subrange(i as int, n as int), sep);
                assert(tail_split == prepend_first(seq![c], rest));
                assert(cur@ =~= prev_cur + seq![c]);
                assert(prev_cur + (seq![c] + rest[0]) =~= cur@ + rest[0]);
                assert(prepend_first(prev_cur, tail_split) =~~= prepend_first(cur@, rest));
            }
        }
        i += 1;
    }
    proof {
        assert(v@.subrange(n as int, n as int) =~= Seq::<char>::empty());
        assert(cur@ + split_char(Seq::<char>::empty(), sep)[0] =~= cur@);
        assert(prepend_first(cur@, split_char(Seq::<char>::empty(), sep)) =~~= seq![cur@]);
    }
    let ghost prev_out = out.deep_view();
    let ghost prev_cur = cur@;
    out.push(cur);
    proof {
        assert(out.deep_view() =~~= prev_out + seq![prev_cur]);
        assert(out.deep_view() =~~= split_char(v@, sep));
        lemma_split_len(v@, sep);
        assert(out.deep_view().len() == out@.len());
    }
    out
}

/// Whether the characters equal those of the given string slice.
pub fn chars_eq_str(v: &Vec<char>, s: &str) -> (r: bool)
    ensures
        r == (v@ == s@),
{
    let n = s.unicode_len();
    if v.len() != n {
        proof {
            assert(v@.len() != s@.len());
        }
        return false;
    }
    let mut i: usize = 0;
    while i < n
        invariant
            n == s@.len(),
            v@.len() == n,
            i <= n,
            forall|j: int| 0 <= j < i ==> v@[j] == s@[j],
        decreases n - i,
    {
        if v[i] != s.get_char(i) {
            return false;
        }
        i += 1;
    }
    proof {
        assert(v@ =~= s@);
    }
    true
}

} // verus!
