//! Character-level helpers on strings, specified over `Seq<char>`.

use vstd::prelude::*;

verus! {

/// `String::push` appends one character to the end of the string.
pub assume_specification[ std::string::String::push ](s: &mut std::string::String, ch: char)
    ensures
        final(s)@ == old(s)@.push(ch),
;

/// `s` is non-empty and its first character is `c`.
pub open spec fn starts_with(s: Seq<char>, c: char) -> bool {
    s.len() > 0 && s[0] == c
}

/// `s` is non-empty and its last character is `c`.
pub open spec fn ends_with(s: Seq<char>, c: char) -> bool {
    s.len() > 0 && s[s.len() - 1] == c
}

/// `s` without its longest prefix made of `c` only.
pub open spec fn trim_start(s: Seq<char>, c: char) -> Seq<char>
    decreases s.len(),
{
    if starts_with(s, c) {
        trim_start(s.drop_first(), c)
    } else {
        s
    }
}

/// `s` without its longest suffix made of `c` only.
pub open spec fn trim_end(s: Seq<char>, c: char) -> Seq<char>
    decreases s.len(),
{
    if ends_with(s, c) {
        trim_end(s.drop_last(), c)
    } else {
        s
    }
}

/// `s` with every pair `c c`, found from the left without overlap, replaced
/// by the single character `by`.
pub open spec fn collapse_pairs(s: Seq<char>, c: char, by: char) -> Seq<char>
    decreases s.len(),
{
    if s.len() < 2 {
        s
    } else if s[0] == c && s[1] == c {
        seq![by] + collapse_pairs(s.skip(2), c, by)
    } else {
        seq![s[0]] + collapse_pairs(s.drop_first(), c, by)
    }
}

/// No two `c` stand next to each other in `s`.
pub open spec fn no_pair(s: Seq<char>, c: char) -> bool {
    forall|i: int| 0 <= i && i + 1 < s.len() ==> !(#[trigger] s[i] == c && s[i + 1] == c)
}

/// What is left after trimming does not begin with `c`.
pub proof fn lemma_trim_start_done(s: Seq<char>, c: char)
    ensures
        !starts_with(trim_start(s, c), c),
    decreases s.len(),
{
    if starts_with(s, c) {
        lemma_trim_start_done(s.drop_first(), c);
    }
}

/// Collapsing pairs of `c` into another character puts no `c` at the front.
pub proof fn lemma_collapse_keeps_front(s: Seq<char>, c: char, by: char)
    requires
        c != by,
        !starts_with(s, c),
    ensures
        !starts_with(collapse_pairs(s, c, by), c),
{
    if s.len() >= 2 {
        assert(collapse_pairs(s, c, by)[0] == s[0]);
    }
}

/// After pairs of `c` were collapsed into another character, no pair is left.
pub proof fn lemma_collapse_leaves_no_pair(s: Seq<char>, c: char, by: char)
    requires
        c != by,
    ensures
        no_pair(collapse_pairs(s, c, by), c),
    decreases s.len(),
{
    let out = collapse_pairs(s, c, by);
    if s.len() >= 2 {
        let paired = s[0] == c && s[1] == c;
        let rest = if paired {
            s.skip(2)
        } else {
            s.drop_first()
        };
        let head = if paired {
            by
        } else {
            s[0]
        };
        let tail = collapse_pairs(rest, c, by);
        lemma_collapse_leaves_no_pair(rest, c, by);
        assert(out == seq![head] + tail);
        if !paired && s[0] == c {
            assert(rest[0] == s[1]);
            lemma_collapse_keeps_front(rest, c, by);
        }
        assert forall|i: int| 0 <= i && i + 1 < out.len() implies !(#[trigger] out[i] == c && out[i
            + 1] == c) by {
            if i == 0 {
                assert(out[1] == tail[0]);
            } else {
                assert(out[i] == tail[i - 1]);
                assert(out[i + 1] == tail[i - 1 + 1]);
            }
        }
    }
}

/// Where no pair of `c` stands, collapsing changes nothing.
pub proof fn lemma_collapse_without_pair(s: Seq<char>, c: char, by: char)
    requires
        no_pair(s, c),
    ensures
        collapse_pairs(s, c, by) == s,
    decreases s.len(),
{
    if s.len() >= 2 {
        assert(!(s[0int] == c && s[0int + 1] == c));
        let rest = s.drop_first();
        assert forall|i: int| 0 <= i && i + 1 < rest.len() implies !(#[trigger] rest[i] == c
            && rest[i + 1] == c) by {
            assert(rest[i] == s[i + 1]);
            assert(rest[i + 1] == s[i + 1 + 1]);
        }
        lemma_collapse_without_pair(rest, c, by);
        assert(seq![s[0]] + rest =~= s);
    }
}

/// The characters of `s`, in order.
pub fn to_chars(s: &str) -> (v: Vec<char>)
    ensures
        v@ == s@,
{
    let mut v: Vec<char> = Vec::new();
    for x in it: s.chars()
        invariant
            it.seq() == s@,
            v@ == s@.take(it.index() as int),
    {
        proof {
            let i = it.index() as int;
            assert(s@.take(i + 1) =~= s@.take(i).push(s@[i]));
        }
        v.push(x);
    }
    proof {
        assert(s@.take(s@.len() as int) =~= s@);
    }
    v
}

/// The string made of `v[from..to]`.
pub fn from_chars(v: &Vec<char>, from: usize, to: usize) -> (s: String)
    requires
        from <= to <= v.len(),
    ensures
        s@ == v@.subrange(from as int, to as int),
{
    let mut s = String::new();
    let mut i: usize = from;
    while i < to
        invariant
            from <= i <= to <= v.len(),
            s@ == v@.subrange(from as int, i as int),
        decreases to - i,
    {
        s.push(v[i]);
        proof {
            assert(v@.subrange(from as int, i + 1) =~= v@.subrange(from as int, i as int).push(
                v@[i as int],
            ));
        }
        i += 1;
    }
    s
}

/// Whether `c` occurs in `s`.
pub fn contains_char(s: &str, c: char) -> (found: bool)
    ensures
        found == s@.contains(c),
{
    let mut found = false;
    for x in it: s.chars()
        invariant
            it.seq() == s@,
            found == s@.take(it.index() as int).contains(c),
    {
        proof {
            let i = it.index() as int;
            assert(s@.take(i + 1) =~= s@.take(i).push(s@[i]));
            if s@.take(i).contains(c) {
                let j = choose|j: int| 0 <= j < i && s@.take(i)[j] == c;
                assert(s@.take(i + 1)[j] == c);
            }
            if x == c {
                assert(s@.take(i + 1)[i] == c);
            }
        }
        if x == c {
            found = true;
        }
    }
    proof {
        assert(s@.take(s@.len() as int) =~= s@);
    }
    found
}

/// Whether `a` and `b` are the same text.
pub fn same_text(a: &str, b: &str) -> (same: bool)
    ensures
        same == (a@ == b@),
{
    String::from_str(a) == String::from_str(b)
}

/// Whether `s` begins with `c`.
pub fn starts_with_char(s: &str, c: char) -> (b: bool)
    ensures
        b == starts_with(s@, c),
{
    let mut it = s.chars();
    match it.next() {
        Some(first) => first == c,
        None => false,
    }
}

/// Whether `s` ends with `c`.
pub fn ends_with_char(s: &str, c: char) -> (b: bool)
    ensures
        b == ends_with(s@, c),
{
    let v = to_chars(s);
    v.len() > 0 && v[v.len() - 1] == c
}

/// `s` with every leading `c` removed.
pub fn trim_start_char(s: &str, c: char) -> (r: String)
    ensures
        r@ == trim_start(s@, c),
{
    let v = to_chars(s);
    let mut i: usize = 0;
    proof {
        assert(v@.skip(0) =~= v@);
    }
    while i < v.len() && v[i] == c
        invariant
            i <= v.len(),
            trim_start(v@, c) == trim_start(v@.skip(i as int), c),
        decreases v.len() - i,
    {
        proof {
            assert(v@.skip(i as int).drop_first() =~= v@.skip(i + 1));
        }
        i += 1;
    }
    proof {
        assert(v@.skip(i as int) =~= v@.subrange(i as int, v.len() as int));
    }
    from_chars(&v, i, v.len())
}

/// `s` with every trailing `c` removed.
pub fn trim_end_char(s: &str, c: char) -> (r: String)
    ensures
        r@ == trim_end(s@, c),
{
    let v = to_chars(s);
    let mut n: usize = v.len();
    proof {
        assert(v@.take(v.len() as int) =~= v@);
    }
    while n > 0 && v[n - 1] == c
        invariant
            n <= v.len(),
            trim_end(v@, c) == trim_end(v@.take(n as int), c),
        decreases n,
    {
        proof {
            assert(v@.take(n as int).drop_last() =~= v@.take(n - 1));
        }
        n -= 1;
    }
    proof {
        assert(v@.take(v.len() as int) =~= v@);
        assert(v@.take(n as int) =~= v@.subrange(0, n as int));
    }
    from_chars(&v, 0, n)
}

/// `s` with every pair `c c` replaced by `by`, scanning from the left.
pub fn collapse_pairs_char(s: &str, c: char, by: char) -> (r: String)
    ensures
        r@ == collapse_pairs(s@, c, by),
{
    let v = to_chars(s);
    let mut out = String::new();
    let mut i: usize = 0;
    proof {
        assert(v@.skip(0) =~= v@);
        assert(out@ + collapse_pairs(v@, c, by) =~= collapse_pairs(v@, c, by));
    }
    while i < v.len()
        invariant
            i <= v.len(),
            out@ + collapse_pairs(v@.skip(i as int), c, by) == collapse_pairs(v@, c, by),
        decreases v.len() - i,
    {
        let ghost rest = v@.skip(i as int);
        let ghost done = out@;
        if i + 1 < v.len() && v[i] == c && v[i + 1] == c {
            out.push(by);
            proof {
                assert(rest.skip(2) =~= v@.skip(i + 2));
                assert(out@ + collapse_pairs(v@.skip(i + 2), c, by) =~= done + collapse_pairs(
                    rest,
                    c,
                    by,
                ));
            }
            i += 2;
        } else {
            out.push(v[i]);
            proof {
                assert(rest.drop_first() =~= v@.skip(i + 1));
                if rest.len() < 2 {
                    assert(v@.skip(i + 1).len() == 0);
                    assert(collapse_pairs(rest, c, by) =~= seq![rest[0]] + collapse_pairs(
                        v@.skip(i + 1),
                        c,
                        by,
                    ));
                }
                assert(out@ + collapse_pairs(v@.skip(i + 1), c, by) =~= done + collapse_pairs(
                    rest,
                    c,
                    by,
                ));
            }
            i += 1;
        }
    }
    proof {
        assert(v@.skip(v.len() as int).len() == 0);
        assert(out@ + collapse_pairs(v@.skip(i as int), c, by) =~= out@);
    }
    out
}

} // verus!
