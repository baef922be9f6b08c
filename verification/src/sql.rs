use vstd::prelude::*;

verus! {

/// Extra context for why a SQL statement might not be valid.
#[derive(Debug, Clone)]
pub enum ValidationFailed {
    /// Something else.
    Other(String),
}

impl ValidationFailed {
    /// Wrap the persistence layer's message.
    pub fn from_message(msg: String) -> (r: ValidationFailed)
        ensures
            r matches ValidationFailed::Other(m) && m@ == msg@,
    {
        ValidationFailed::Other(msg)
    }
}

/// What a validated SQL statement answers with.
#[derive(Debug, Clone)]
pub struct ValidationResponse {
    /// The total number of rows that were selected.
    pub row_count: usize,
    /// A preview of the first records, serialized in the columnar
    /// interchange format.
    pub preview: Vec<u8>,
}

/// The row total of the listed frames.
pub open spec fn spec_row_sum(s: Seq<usize>) -> int
    decreases s.len(),
{
    if s.len() == 0 {
        0int
    } else {
        s[0] + spec_row_sum(s.drop_first())
    }
}

/// A row total is never negative.
proof fn lemma_row_sum_nonneg(s: Seq<usize>)
    ensures
        spec_row_sum(s) >= 0,
    decreases s.len(),
{
    if s.len() > 0 {
        lemma_row_sum_nonneg(s.drop_first());
    }
}

/// The row total splits at every prefix boundary.
proof fn lemma_row_sum_split(s: Seq<usize>, k: int)
    requires
        0 <= k <= s.len(),
    ensures
        spec_row_sum(s) == spec_row_sum(s.take(k)) + spec_row_sum(s.skip(k)),
    decreases k,
{
    if k == 0 {
        assert(s.take(0) =~= Seq::<usize>::empty());
        assert(s.skip(0) =~= s);
    } else {
        assert(s.take(k)[0] == s[0]);
        assert(s.take(k).drop_first() =~= s.drop_first().take(k - 1));
        assert(s.skip(k) =~= s.drop_first().skip(k - 1));
        lemma_row_sum_split(s.drop_first(), k - 1);
    }
}

/// How many leading result frames make up the preview of a validated
/// statement: frames are taken until their row total reaches
/// `max_rows`, and all of them when it never does.
pub fn preview_frame_count(frame_rows: &Vec<usize>, max_rows: usize) -> (r: usize)
    requires
        spec_row_sum(frame_rows@) <= usize::MAX,
    ensures
        r <= frame_rows@.len(),
        r < frame_rows@.len() ==> spec_row_sum(frame_rows@.take(r as int)) >= max_rows,
        forall|k: int| 1 <= k < r ==> spec_row_sum(frame_rows@.take(k)) < max_rows,
{
    let n = frame_rows.len();
    let mut num: usize = 0;
    let mut i: usize = 0;
    proof {
        assert(frame_rows@.take(0) =~= Seq::<usize>::empty());
    }
    while i < n
        invariant
            0 <= i <= n,
            n == frame_rows@.len(),
            spec_row_sum(frame_rows@) <= usize::MAX,
            num == spec_row_sum(frame_rows@.take(i as int)),
            forall|k: int| 1 <= k <= i ==> spec_row_sum(frame_rows@.take(k)) < max_rows,
        decreases n - i,
    {
        proof {
            assert(frame_rows@.take(i + 1).drop_last() =~= frame_rows@.take(i as int));
            assert(frame_rows@.take(i + 1).last() == frame_rows@[i as int]);
            lemma_row_sum_last(frame_rows@.take(i + 1));
            lemma_row_sum_split(frame_rows@, i + 1);
            lemma_row_sum_nonneg(frame_rows@.skip(i + 1));
        }
        num = num + frame_rows[i];
        i += 1;
        if num >= max_rows {
            return i;
        }
    }
    n
}

/// The row total of a non-empty list is that of its front plus its last.
proof fn lemma_row_sum_last(s: Seq<usize>)
    requires
        s.len() > 0,
    ensures
        spec_row_sum(s) == spec_row_sum(s.drop_last()) + s.last(),
    decreases s.len(),
{
    if s.len() == 1 {
        assert(s.drop_last() =~= Seq::<usize>::empty());
        assert(s.drop_first() =~= Seq::<usize>::empty());
    } else {
        assert(s.drop_first().drop_last() =~= s.drop_last().drop_first());
        assert(s.drop_first().last() == s.last());
        assert(s.drop_last()[0] == s[0]);
        lemma_row_sum_last(s.drop_first());
    }
}

} // verus!
