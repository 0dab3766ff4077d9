//! Searching, splitting and trimming of character sequences.
//!
//! The specification functions speak of `Seq<char>`; the executable functions
//! work on a vector of characters and on index ranges into it, so that no text
//! is copied while a line is taken apart.

use vstd::prelude::*;

verus! {

/// The index of the first occurrence of `c` in `s`, or `s.len()` where `s`
/// does not hold `c`.
pub open spec fn find(s: Seq<char>, c: char) -> int
    decreases s.len(),
{
    if s.len() == 0 {
        0
    } else if s[0] == c {
        0
    } else {
        1 + find(s.drop_first(), c)
    }
}

/// The pieces of `s` between the occurrences of `sep`. A sequence without
/// `sep` is its own single piece, so the result is never empty; two
/// separators in a row, or one at either end, give an empty piece.
pub open spec fn split(s: Seq<char>, sep: char) -> Seq<Seq<char>>
    decreases s.len(),
{
    let i = find(s, sep);
    if 0 <= i < s.len() {
        seq![s.take(i)] + split(s.skip(i + 1), sep)
    } else {
        seq![s]
    }
}

/// Whether `c` is white space: the code points that Unicode gives the
/// property `White_Space`.
pub open spec fn is_space(c: char) -> bool {
    let u = c as u32;
    ||| 0x09 <= u <= 0x0d
    ||| u == 0x20
    ||| u == 0x85
    ||| u == 0xa0
    ||| u == 0x1680
    ||| 0x2000 <= u <= 0x200a
    ||| u == 0x2028
    ||| u == 0x2029
    ||| u == 0x202f
    ||| u == 0x205f
    ||| u == 0x3000
}

/// `s` without its leading white space.
pub open spec fn trim_start(s: Seq<char>) -> Seq<char>
    decreases s.len(),
{
    if s.len() > 0 && is_space(s[0]) {
        trim_start(s.drop_first())
    } else {
        s
    }
}

/// `s` without its trailing white space.
pub open spec fn trim_end(s: Seq<char>) -> Seq<char>
    decreases s.len(),
{
    if s.len() > 0 && is_space(s.last()) {
        trim_end(s.drop_last())
    } else {
        s
    }
}

/// `s` without its leading and trailing white space.
pub open spec fn trim(s: Seq<char>) -> Seq<char> {
    trim_end(trim_start(s))
}

/// Whether the index ranges `ranges` cut exactly the pieces `pieces` out of
/// `s`, one range for each piece and in the same order.
pub open spec fn ranges_cut(s: Seq<char>, ranges: Seq<(usize, usize)>, pieces: Seq<Seq<char>>) -> bool {
    &&& ranges.len() == pieces.len()
    &&& forall|k: int|
        0 <= k < ranges.len() ==> {
            &&& (#[trigger] ranges[k]).0 <= ranges[k].1 <= s.len()
            &&& s.subrange(ranges[k].0 as int, ranges[k].1 as int) == pieces[k]
        }
}

/// `find` returns a position within `0..=s.len()`, nothing before it is `c`,
/// and what stands at it is `c` unless it is the end.
pub proof fn lemma_find(s: Seq<char>, c: char)
    ensures
        0 <= find(s, c) <= s.len(),
        forall|j: int| 0 <= j < find(s, c) ==> s[j] != c,
        find(s, c) < s.len() ==> s[find(s, c)] == c,
    decreases s.len(),
{
    if s.len() > 0 && s[0] != c {
        let rest = s.drop_first();
        lemma_find(rest, c);
        assert forall|j: int| 0 <= j < find(s, c) implies s[j] != c by {
            if j > 0 {
                assert(s[j] == rest[j - 1]);
            }
        }
    }
}

/// A position with the three properties of `lemma_find` is the one that
/// `find` returns.
pub proof fn lemma_find_is(s: Seq<char>, c: char, i: int)
    requires
        0 <= i <= s.len(),
        forall|j: int| 0 <= j < i ==> s[j] != c,
        i < s.len() ==> s[i] == c,
    ensures
        find(s, c) == i,
{
    lemma_find(s, c);
    let f = find(s, c);
    if f < i {
        assert(s[f] == c);
    } else if i < f {
        assert(s[i] == c);
    }
}

/// A sequence that does not hold the separator is a single piece.
pub proof fn lemma_split_single(s: Seq<char>, sep: char)
    requires
        !s.contains(sep),
    ensures
        split(s, sep) == seq![s],
{
    lemma_find(s, sep);
    if find(s, sep) < s.len() {
        assert(s.contains(sep));
    }
}

/// Splitting distributes over a separator: the pieces of `a`, then those of
/// `b`.
pub proof fn lemma_split_join(a: Seq<char>, b: Seq<char>, sep: char)
    ensures
        split(a + seq![sep] + b, sep) == split(a, sep) + split(b, sep),
    decreases a.len(),
{
    let whole = a + seq![sep] + b;
    lemma_find(a, sep);
    let i = find(a, sep);
    if i < a.len() {
        assert forall|j: int| 0 <= j < i implies whole[j] != sep by {
            assert(whole[j] == a[j]);
        }
        assert(whole[i] == a[i]);
        lemma_find_is(whole, sep, i);
        assert(whole.take(i) =~= a.take(i));
        assert(whole.skip(i + 1) =~= a.skip(i + 1) + seq![sep] + b);
        lemma_split_join(a.skip(i + 1), b, sep);
        assert(split(whole, sep) =~= split(a, sep) + split(b, sep));
    } else {
        assert forall|j: int| 0 <= j < a.len() implies whole[j] != sep by {
            assert(whole[j] == a[j]);
        }
        assert(whole[a.len() as int] == sep);
        lemma_find_is(whole, sep, a.len() as int);
        assert(whole.take(a.len() as int) =~= a);
        assert(whole.skip(a.len() as int + 1) =~= b);
        assert(split(whole, sep) =~= split(a, sep) + split(b, sep));
    }
}

/// The first piece is what stands before the first separator.
pub proof fn lemma_split_first(s: Seq<char>, sep: char)
    ensures
        split(s, sep).len() >= 1,
        split(s, sep)[0] == s.take(find(s, sep)),
{
    lemma_find(s, sep);
    if find(s, sep) >= s.len() {
        assert(s.take(s.len() as int) =~= s);
    }
}

/// The pieces with `sep` put back between them.
pub open spec fn join(pieces: Seq<Seq<char>>, sep: char) -> Seq<char>
    decreases pieces.len(),
{
    if pieces.len() == 0 {
        Seq::empty()
    } else if pieces.len() == 1 {
        pieces[0]
    } else {
        pieces[0] + seq![sep] + join(pieces.drop_first(), sep)
    }
}

/// Splitting loses nothing but the separators: no piece holds one, and the
/// pieces joined by the separator are the sequence that was split.
pub proof fn lemma_split_round_trip(s: Seq<char>, sep: char)
    ensures
        split(s, sep).len() >= 1,
        forall|k: int| 0 <= k < split(s, sep).len() ==> !(#[trigger] split(s, sep)[k]).contains(sep),
        join(split(s, sep), sep) == s,
    decreases s.len(),
{
    lemma_find(s, sep);
    let i = find(s, sep);
    if i < s.len() {
        let head = s.take(i);
        let rest = s.skip(i + 1);
        let tail = split(rest, sep);
        lemma_split_round_trip(rest, sep);
        assert(!head.contains(sep)) by {
            if head.contains(sep) {
                let j = choose|j: int| 0 <= j < head.len() && head[j] == sep;
                assert(s[j] == sep);
            }
        }
        let all = split(s, sep);
        assert(all =~= seq![head] + tail);
        assert forall|k: int| 0 <= k < all.len() implies !(#[trigger] all[k]).contains(sep) by {
            if k > 0 {
                assert(all[k] == tail[k - 1]);
            }
        }
        assert(all.drop_first() =~= tail);
        assert(head + seq![sep] + rest =~= s);
    } else {
        assert(!s.contains(sep)) by {
            if s.contains(sep) {
                let j = choose|j: int| 0 <= j < s.len() && s[j] == sep;
                assert(s[j] == sep);
            }
        }
    }
}

/// What `trim_start` takes off is white space, and what it leaves does not
/// start with any.
pub proof fn lemma_trim_start(s: Seq<char>)
    ensures
        exists|lo: int|
            {
                &&& 0 <= lo <= s.len()
                &&& #[trigger] s.skip(lo) == trim_start(s)
                &&& forall|j: int| 0 <= j < lo ==> is_space(s[j])
                &&& lo < s.len() ==> !is_space(s[lo])
            },
    decreases s.len(),
{
    if s.len() > 0 && is_space(s[0]) {
        let rest = s.drop_first();
        lemma_trim_start(rest);
        let inner = choose|lo: int|
            {
                &&& 0 <= lo <= rest.len()
                &&& #[trigger] rest.skip(lo) == trim_start(rest)
                &&& forall|j: int| 0 <= j < lo ==> is_space(rest[j])
                &&& lo < rest.len() ==> !is_space(rest[lo])
            };
        let lo = inner + 1;
        assert(s.skip(lo) =~= rest.skip(inner));
        assert forall|j: int| 0 <= j < lo implies is_space(s[j]) by {
            if j > 0 {
                assert(s[j] == rest[j - 1]);
            }
        }
        if lo < s.len() {
            assert(s[lo] == rest[inner]);
        }
    } else {
        assert(s.skip(0) =~= s);
    }
}

/// What `trim_end` takes off is white space, and what it leaves does not
/// end with any.
pub proof fn lemma_trim_end(s: Seq<char>)
    ensures
        exists|hi: int|
            {
                &&& 0 <= hi <= s.len()
                &&& #[trigger] s.take(hi) == trim_end(s)
                &&& forall|j: int| hi <= j < s.len() ==> is_space(s[j])
                &&& 0 < hi ==> !is_space(s[hi - 1])
            },
    decreases s.len(),
{
    if s.len() > 0 && is_space(s.last()) {
        let rest = s.drop_last();
        lemma_trim_end(rest);
        let hi = choose|hi: int|
            {
                &&& 0 <= hi <= rest.len()
                &&& #[trigger] rest.take(hi) == trim_end(rest)
                &&& forall|j: int| hi <= j < rest.len() ==> is_space(rest[j])
                &&& 0 < hi ==> !is_space(rest[hi - 1])
            };
        assert(s.take(hi) =~= rest.take(hi));
        assert forall|j: int| hi <= j < s.len() implies is_space(s[j]) by {
            if j < rest.len() {
                assert(s[j] == rest[j]);
            }
        }
        if 0 < hi {
            assert(s[hi - 1] == rest[hi - 1]);
        }
    } else {
        assert(s.take(s.len() as int) =~= s);
    }
}

/// Trimming cuts a part out of the middle: all that stands before and
/// behind it is white space, and the part neither starts nor ends with any.
pub proof fn lemma_trim(s: Seq<char>)
    ensures
        exists|lo: int, hi: int|
            {
                &&& 0 <= lo <= hi <= s.len()
                &&& #[trigger] s.subrange(lo, hi) == trim(s)
                &&& forall|j: int| 0 <= j < lo || hi <= j < s.len() ==> is_space(s[j])
                &&& lo < hi ==> !is_space(s[lo]) && !is_space(s[hi - 1])
            },
{
    lemma_trim_start(s);
    let lo = choose|lo: int|
        {
            &&& 0 <= lo <= s.len()
            &&& #[trigger] s.skip(lo) == trim_start(s)
            &&& forall|j: int| 0 <= j < lo ==> is_space(s[j])
            &&& lo < s.len() ==> !is_space(s[lo])
        };
    let kept = s.skip(lo);
    lemma_trim_end(kept);
    let len = choose|hi: int|
        {
            &&& 0 <= hi <= kept.len()
            &&& #[trigger] kept.take(hi) == trim_end(kept)
            &&& forall|j: int| hi <= j < kept.len() ==> is_space(kept[j])
            &&& 0 < hi ==> !is_space(kept[hi - 1])
        };
    let hi = lo + len;
    assert(s.subrange(lo, hi) =~= kept.take(len));
    assert forall|j: int| 0 <= j < lo || hi <= j < s.len() implies is_space(s[j]) by {
        if hi <= j {
            assert(s[j] == kept[j - lo]);
        }
    }
    if lo < hi {
        assert(s[hi - 1] == kept[len - 1]);
    }
}

/// The characters of `s`, in order, as a vector that can be indexed in
/// constant time.
pub fn chars_of(s: &str) -> (v: Vec<char>)
    ensures
        v@ == s@,
{
    broadcast use vstd::string::group_string_axioms;

    let mut v: Vec<char> = Vec::new();
    for c in it: s.chars()
        invariant
            it.seq() == s@,
            v@ == s@.subrange(0, it.index()),
    {
        v.push(c);
        assert(v@ =~= s@.subrange(0, it.index() + 1));
    }
    assert(v@ =~= s@);
    v
}

/// The characters of `s` from index `from` up to, not including, `to`, as a
/// string of their own.
pub fn slice_string(s: &str, from: usize, to: usize) -> (r: String)
    requires
        from <= to <= s@.len(),
    ensures
        r@ == s@.subrange(from as int, to as int),
{
    s.substring_char(from, to).to_owned()
}

/// The first position of `c` in `chars[from..to]`, counted from the start of
/// `chars`, or `to` where it does not occur there.
pub fn find_in(chars: &Vec<char>, from: usize, to: usize, c: char) -> (i: usize)
    requires
        from <= to <= chars@.len(),
    ensures
        from <= i <= to,
        i - from == find(chars@.subrange(from as int, to as int), c),
{
    let ghost part = chars@.subrange(from as int, to as int);
    let mut i: usize = from;
    while i < to && chars[i] != c
        invariant
            from <= i <= to <= chars@.len(),
            part == chars@.subrange(from as int, to as int),
            forall|j: int| 0 <= j < i - from ==> part[j] != c,
        decreases to - i,
    {
        i += 1;
    }
    proof {
        lemma_find_is(part, c, i - from);
    }
    i
}

/// The pieces of `chars[from..to]` between the occurrences of `sep`, each as
/// a pair of indices into `chars`.
pub fn split_ranges(chars: &Vec<char>, from: usize, to: usize, sep: char) -> (ranges: Vec<(usize, usize)>)
    requires
        from <= to <= chars@.len(),
    ensures
        ranges_cut(chars@, ranges@, split(chars@.subrange(from as int, to as int), sep)),
        forall|k: int| 0 <= k < ranges@.len() ==> from <= (#[trigger] ranges@[k]).0 && ranges@[k].1 <= to,
{
    let ghost whole = split(chars@.subrange(from as int, to as int), sep);
    let ghost mut done: Seq<Seq<char>> = Seq::empty();
    let mut ranges: Vec<(usize, usize)> = Vec::new();
    let mut start: usize = from;
    loop
        invariant_except_break
            whole == done + split(chars@.subrange(start as int, to as int), sep),
            ranges_cut(chars@, ranges@, done),
        invariant
            from <= start <= to <= chars@.len(),
            whole == split(chars@.subrange(from as int, to as int), sep),
            forall|k: int| 0 <= k < ranges@.len() ==> from <= (#[trigger] ranges@[k]).0 && ranges@[k].1 <= to,
        ensures
            ranges_cut(chars@, ranges@, whole),
        decreases to - start,
    {
        let ghost rest = chars@.subrange(start as int, to as int);
        let i = find_in(chars, start, to, sep);
        ranges.push((start, i));
        if i == to {
            proof {
                done = done.push(rest);
                assert(whole =~= done);
            }
            break;
        }
        proof {
            assert(rest.take(i - start) =~= chars@.subrange(start as int, i as int));
            assert(rest.skip(i - start + 1) =~= chars@.subrange(i + 1, to as int));
            done = done.push(chars@.subrange(start as int, i as int));
            assert(whole =~= done + split(chars@.subrange(i + 1, to as int), sep));
        }
        start = i + 1;
    }
    ranges
}

/// Whether `c` is white space.
pub fn is_space_char(c: char) -> (b: bool)
    ensures
        b == is_space(c),
{
    let u: u32 = c as u32;
    (0x09 <= u && u <= 0x0d) || u == 0x20 || u == 0x85 || u == 0xa0 || u == 0x1680 || (0x2000 <= u
        && u <= 0x200a) || u == 0x2028 || u == 0x2029 || u == 0x202f || u == 0x205f || u == 0x3000
}

/// The range that is left of `chars[from..to]` when the white space at both
/// of its ends is taken off.
pub fn trim_range(chars: &Vec<char>, from: usize, to: usize) -> (r: (usize, usize))
    requires
        from <= to <= chars@.len(),
    ensures
        from <= r.0 <= r.1 <= to,
        chars@.subrange(r.0 as int, r.1 as int) == trim(chars@.subrange(from as int, to as int)),
{
    let mut lo: usize = from;
    while lo < to && is_space_char(chars[lo])
        invariant
            from <= lo <= to <= chars@.len(),
            trim_start(chars@.subrange(from as int, to as int)) == trim_start(
                chars@.subrange(lo as int, to as int),
            ),
        decreases to - lo,
    {
        assert(chars@.subrange(lo as int, to as int).drop_first() =~= chars@.subrange(
            lo + 1,
            to as int,
        ));
        lo += 1;
    }
    let mut hi: usize = to;
    while lo < hi && is_space_char(chars[hi - 1])
        invariant
            lo <= hi <= to <= chars@.len(),
            trim_end(chars@.subrange(lo as int, to as int)) == trim_end(
                chars@.subrange(lo as int, hi as int),
            ),
        decreases hi - lo,
    {
        assert(chars@.subrange(lo as int, hi as int).drop_last() =~= chars@.subrange(
            lo as int,
            hi - 1,
        ));
        hi -= 1;
    }
    (lo, hi)
}

} // verus!
