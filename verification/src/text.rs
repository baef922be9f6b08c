use vstd::prelude::*;

verus! {

broadcast use vstd::string::group_string_axioms;

/// First index at or after `from` where `c` occurs in `s`, if any.
pub open spec fn index_of_from(s: Seq<char>, c: char, from: int) -> Option<int>
    decreases s.len() - from,
{
    if from < 0 || from >= s.len() {
        None
    } else if s[from] == c {
        Some(from)
    } else {
        index_of_from(s, c, from + 1)
    }
}

/// `index_of_from` finds an occurrence of `c`, and the earliest one.
pub proof fn lemma_index_of_from(s: Seq<char>, c: char, from: int)
    requires
        0 <= from <= s.len(),
    ensures
        match index_of_from(s, c, from) {
            Some(i) => from <= i < s.len() && s[i] == c && (forall|j: int|
                from <= j < i ==> s[j] != c),
            None => forall|j: int| from <= j < s.len() ==> s[j] != c,
        },
    decreases s.len() - from,
{
    if from < s.len() && s[from] != c {
        lemma_index_of_from(s, c, from + 1);
    }
}

/// An occurrence of `c` with none before it is what `index_of_from` returns.
pub proof fn lemma_index_of_from_is_first(s: Seq<char>, c: char, from: int, i: int)
    requires
        0 <= from <= i < s.len(),
        s[i] == c,
        forall|j: int| from <= j < i ==> s[j] != c,
    ensures
        index_of_from(s, c, from) == Some(i),
    decreases s.len() - from,
{
    if from < i {
        lemma_index_of_from_is_first(s, c, from + 1, i);
    }
}

/// Searching within a suffix finds the same occurrence, shifted.
pub proof fn lemma_index_of_from_skip(s: Seq<char>, c: char, from: int)
    requires
        0 <= from <= s.len(),
    ensures
        index_of_from(s, c, from) == match index_of_from(s.skip(from), c, 0) {
            Some(i) => Some(i + from),
            None => None::<int>,
        },
{
    let t = s.skip(from);
    lemma_index_of_from(s, c, from);
    lemma_index_of_from(t, c, 0);
    match index_of_from(t, c, 0) {
        Some(i) => {
            assert(s[i + from] == t[i]);
            assert(forall|j: int| from <= j < i + from ==> s[j] == t[j - from] && t[j - from] != c);
            lemma_index_of_from_is_first(s, c, from, i + from);
        },
        None => {
            if index_of_from(s, c, from) is Some {
                let i = index_of_from(s, c, from)->0;
                assert(t[i - from] == s[i]);
            }
        },
    }
}

/// First index at or after `from` (in characters) where `c` occurs.
pub fn find_from(s: &str, from: usize, c: char) -> (r: Option<usize>)
    requires
        from <= s@.len(),
    ensures
        match r {
            Some(i) => from <= i < s@.len() && index_of_from(s@, c, from as int) == Some(i as int),
            None => index_of_from(s@, c, from as int) is None,
        },
{
    let n = s.unicode_len();
    let mut i = from;
    while i < n
        invariant
            from <= i <= n,
            n == s@.len(),
            from <= s@.len(),
            forall|j: int| from <= j < i ==> s@[j] != c,
        decreases n - i,
    {
        if s.get_char(i) == c {
            proof {
                lemma_index_of_from_is_first(s@, c, from as int, i as int);
            }
            return Some(i);
        }
        i += 1;
    }
    proof {
        lemma_index_of_from(s@, c, from as int);
    }
    None
}

/// Character-for-character equality of two string slices.
pub fn str_eq(a: &str, b: &str) -> (r: bool)
    ensures
        r == (a@ == b@),
{
    let n = a.unicode_len();
    if n != b.unicode_len() {
        return false;
    }
    let mut i: usize = 0;
    while i < n
        invariant
            0 <= i <= n,
            n == a@.len(),
            n == b@.len(),
            forall|j: int| 0 <= j < i ==> a@[j] == b@[j],
        decreases n - i,
    {
        if a.get_char(i) != b.get_char(i) {
            return false;
        }
        i += 1;
    }
    assert(a@ =~= b@);
    true
}

/// Does `s` begin with the characters of `p`?
pub fn has_prefix(s: &str, p: &str) -> (r: bool)
    ensures
        r == (p@.len() <= s@.len() && s@.take(p@.len() as int) == p@),
{
    let np = p.unicode_len();
    let ns = s.unicode_len();
    if np > ns {
        return false;
    }
    let mut i: usize = 0;
    while i < np
        invariant
            0 <= i <= np,
            np == p@.len(),
            ns == s@.len(),
            np <= ns,
            forall|j: int| 0 <= j < i ==> s@[j] == p@[j],
        decreases np - i,
    {
        if s.get_char(i) != p.get_char(i) {
            assert(s@.take(p@.len() as int)[i as int] != p@[i as int]);
            return false;
        }
        i += 1;
    }
    assert(s@.take(p@.len() as int) =~= p@);
    true
}

/// The pieces of `s` between occurrences of `sep`, empty pieces dropped.
pub open spec fn spec_split(s: Seq<char>, sep: char) -> Seq<Seq<char>>
    decreases s.len(),
    via spec_split_decreases
{
    if s.len() == 0 {
        Seq::empty()
    } else {
        match index_of_from(s, sep, 0) {
            None => seq![s],
            Some(i) => {
                let head = s.take(i);
                let tail = spec_split(s.skip(i + 1), sep);
                if head.len() == 0 {
                    tail
                } else {
                    seq![head] + tail
                }
            },
        }
    }
}

#[via_fn]
proof fn spec_split_decreases(s: Seq<char>, sep: char) {
    if s.len() > 0 {
        lemma_index_of_from(s, sep, 0);
    }
}

/// Split `s` at every occurrence of `sep`, dropping empty pieces.
pub fn split_on(s: &str, sep: char) -> (r: Vec<String>)
    ensures
        r@.map_values(|x: String| x@) == spec_split(s@, sep),
{
    let n = s.unicode_len();
    let mut out: Vec<String> = Vec::new();
    let mut p: usize = 0;
    proof {
        assert(s@.skip(0) =~= s@);
        assert(out@.map_values(|x: String| x@) =~= Seq::<Seq<char>>::empty());
        assert(out@.map_values(|x: String| x@) + spec_split(s@, sep) =~= spec_split(s@, sep));
    }
    while p < n
        invariant
            0 <= p <= n,
            n == s@.len(),
            spec_split(s@, sep) == out@.map_values(|x: String| x@) + spec_split(
                s@.skip(p as int),
                sep,
            ),
        decreases n - p,
    {
        proof {
            lemma_index_of_from_skip(s@.skip(p as int), sep, 0);
            lemma_index_of_from_skip(s@, sep, p as int);
            assert(s@.skip(p as int).skip(0) =~= s@.skip(p as int));
        }
        let ghost rest = s@.skip(p as int);
        match find_from(s, p, sep) {
            None => {
                let seg = String::from_str(s.substring_char(p, n));
                proof {
                    assert(seg@ =~= rest);
                    assert(index_of_from(rest, sep, 0) is None);
                    assert(spec_split(rest, sep) =~= seq![rest]);
                    assert((out@.push(seg)).map_values(|x: String| x@) =~= out@.map_values(
                        |x: String| x@,
                    ).push(seg@));
                    assert(out@.map_values(|x: String| x@) + seq![rest] =~= (out@.push(
                        seg,
                    )).map_values(|x: String| x@));
                }
                out.push(seg);
                p = n;
                proof {
                    assert(s@.skip(n as int) =~= Seq::<char>::empty());
                }
            },
            Some(i) => {
                proof {
                    assert(index_of_from(rest, sep, 0) == Some(i - p));
                    assert(rest.take(i - p) =~= s@.subrange(p as int, i as int));
                    assert(rest.skip(i - p + 1) =~= s@.skip(i + 1));
                }
                if i > p {
                    let seg = String::from_str(s.substring_char(p, i));
                    proof {
                        assert(seg@ =~= rest.take(i - p));
                        assert(rest.take(i - p).len() > 0);
                        assert(spec_split(rest, sep) =~= seq![rest.take(i - p)] + spec_split(
                            s@.skip(i + 1),
                            sep,
                        ));
                        assert((out@.push(seg)).map_values(|x: String| x@) =~= out@.map_values(
                            |x: String| x@,
                        ).push(seg@));
                        assert(out@.map_values(|x: String| x@) + spec_split(rest, sep)
                            =~= (out@.push(seg)).map_values(|x: String| x@) + spec_split(
                            s@.skip(i + 1),
                            sep,
                        ));
                    }
                    out.push(seg);
                } else {
                    proof {
                        assert(rest.take(i - p).len() == 0);
                        assert(spec_split(rest, sep) =~= spec_split(s@.skip(i + 1), sep));
                    }
                }
                p = i + 1;
            },
        }
    }
    proof {
        assert(s@.skip(p as int) =~= Seq::<char>::empty());
        assert(spec_split(s@, sep) =~= out@.map_values(|x: String| x@));
    }
    out
}

/// The pieces of `segs` joined by `sep`.
pub open spec fn spec_join(segs: Seq<Seq<char>>, sep: Seq<char>) -> Seq<char>
    decreases segs.len(),
{
    if segs.len() == 0 {
        Seq::empty()
    } else if segs.len() == 1 {
        segs[0]
    } else {
        segs[0] + sep + spec_join(segs.drop_first(), sep)
    }
}

/// Joining one more piece extends the join by a separator and the piece.
pub proof fn lemma_join_push(segs: Seq<Seq<char>>, x: Seq<char>, sep: Seq<char>)
    ensures
        spec_join(segs.push(x), sep) == if segs.len() == 0 {
            x
        } else {
            spec_join(segs, sep) + sep + x
        },
    decreases segs.len(),
{
    let pushed = segs.push(x);
    if segs.len() == 0 {
        assert(pushed.len() == 1);
        assert(pushed[0] == x);
    } else if segs.len() == 1 {
        assert(pushed[0] == segs[0]);
        assert(pushed.drop_first() =~= seq![x]);
        assert(spec_join(seq![x], sep) == x);
        assert(spec_join(pushed, sep) == segs[0] + sep + x);
        assert(spec_join(segs, sep) == segs[0]);
    } else {
        assert(pushed[0] == segs[0]);
        assert(pushed.drop_first() =~= segs.drop_first().push(x));
        lemma_join_push(segs.drop_first(), x, sep);
        assert(spec_join(pushed, sep) == segs[0] + sep + (spec_join(segs.drop_first(), sep) + sep
            + x));
        assert(segs[0] + sep + (spec_join(segs.drop_first(), sep) + sep + x) =~= (segs[0] + sep
            + spec_join(segs.drop_first(), sep)) + sep + x);
    }
}

/// Join the pieces of `segs` with the separator `sep`.
pub fn join_with(segs: &Vec<String>, sep: &str) -> (r: String)
    ensures
        r@ == spec_join(segs@.map_values(|x: String| x@), sep@),
{
    let ghost views = segs@.map_values(|x: String| x@);
    let mut out = String::new();
    let n = segs.len();
    let mut i: usize = 0;
    while i < n
        invariant
            0 <= i <= n,
            n == segs@.len(),
            views == segs@.map_values(|x: String| x@),
            out@ == spec_join(views.take(i as int), sep@),
        decreases n - i,
    {
        proof {
            assert(views.take(i as int).push(views[i as int]) =~= views.take(i + 1));
            lemma_join_push(views.take(i as int), views[i as int], sep@);
        }
        if i > 0 {
            out.append(sep);
        } else {
            proof {
                assert(views.take(0int).len() == 0);
                assert(out@ =~= Seq::<char>::empty());
            }
        }
        out.append(segs[i].as_str());
        i += 1;
    }
    proof {
        assert(views.take(n as int) =~= views);
    }
    out
}

} // verus!
