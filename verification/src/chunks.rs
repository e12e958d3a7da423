use vstd::prelude::*;

verus! {

/// The half-open ranges `[start, end)` into which rows `from..len` are cut
/// when each insert statement takes at most `size` rows: consecutive,
/// each `size` rows long but the last, which takes what is left.
pub open spec fn chunk_ranges_from(from: int, len: int, size: int) -> Seq<(int, int)>
    decreases len - from,
    when size > 0
{
    if from >= len {
        Seq::empty()
    } else {
        let end = if from + size < len {
            from + size
        } else {
            len
        };
        seq![(from, end)] + chunk_ranges_from(end, len, size)
    }
}

/// The ranges that cut `len` rows into statements of at most `size` rows.
pub open spec fn spec_chunk_ranges(len: int, size: int) -> Seq<(int, int)> {
    chunk_ranges_from(0, len, size)
}

/// Cuts `len` rows into consecutive ranges of at most `size` rows each,
/// as `chunks(size)` does on a slice of that length.
pub fn chunk_ranges(len: usize, size: usize) -> (r: Vec<(usize, usize)>)
    requires
        size > 0,
    ensures
        r@.len() == spec_chunk_ranges(len as int, size as int).len(),
        forall|k: int| 0 <= k < r@.len() ==> (#[trigger] r@[k]).0 as int == spec_chunk_ranges(len as int, size as int)[k].0
            && r@[k].1 as int == spec_chunk_ranges(len as int, size as int)[k].1,
{
    let mut r: Vec<(usize, usize)> = Vec::new();
    let mut start: usize = 0;
    while start < len
        invariant
            size > 0,
            start <= len,
            r@.len() + chunk_ranges_from(start as int, len as int, size as int).len()
                == spec_chunk_ranges(len as int, size as int).len(),
            forall|k: int| 0 <= k < r@.len() ==> (#[trigger] r@[k]).0 as int == spec_chunk_ranges(len as int, size as int)[k].0
                && r@[k].1 as int == spec_chunk_ranges(len as int, size as int)[k].1,
            forall|k: int| 0 <= k < chunk_ranges_from(start as int, len as int, size as int).len()
                ==> #[trigger] chunk_ranges_from(start as int, len as int, size as int)[k]
                == spec_chunk_ranges(len as int, size as int)[r@.len() + k],
        decreases len - start,
    {
        let end: usize = if len - start > size {
            start + size
        } else {
            len
        };
        let ghost rest = chunk_ranges_from(start as int, len as int, size as int);
        let ghost next = chunk_ranges_from(end as int, len as int, size as int);
        assert(rest == seq![(start as int, end as int)] + next);
        assert(rest[0] == (start as int, end as int));
        assert forall|k: int| 0 <= k < next.len() implies #[trigger] next[k]
            == spec_chunk_ranges(len as int, size as int)[r@.len() + 1 + k] by {
            assert(next[k] == rest[k + 1]);
        }
        r.push((start, end));
        start = end;
    }
    r
}

/// Every range of `chunk_ranges_from(from, len, size)` is non-empty and at
/// most `size` long, they follow one another without gap or overlap, the
/// first starts at `from` and the last ends at `len`.
pub proof fn lemma_chunk_ranges_from_partition(from: int, len: int, size: int)
    requires
        size > 0,
        from <= len,
    ensures
        ({
            let c = chunk_ranges_from(from, len, size);
            &&& forall|k: int| 0 <= k < c.len() ==> (#[trigger] c[k]).0 < c[k].1 && c[k].1 - c[k].0 <= size
            &&& forall|k: int| 0 < k < c.len() ==> (#[trigger] c[k]).0 == c[k - 1].1
            &&& c.len() == 0 <==> from == len
            &&& c.len() > 0 ==> c[0].0 == from && c[c.len() - 1].1 == len
        }),
    decreases len - from,
{
    if from < len {
        let end = if from + size < len {
            from + size
        } else {
            len
        };
        lemma_chunk_ranges_from_partition(end, len, size);
        let c = chunk_ranges_from(from, len, size);
        let rest = chunk_ranges_from(end, len, size);
        assert(c == seq![(from, end)] + rest);
        assert forall|k: int| 0 < k < c.len() implies (#[trigger] c[k]).0 == c[k - 1].1 by {
            if k > 1 {
                assert(c[k] == rest[k - 1]);
                assert(c[k - 1] == rest[k - 2]);
            }
        }
    }
}

/// Cutting `len` rows into statements of at most `size` rows submits every
/// row exactly once: the ranges are non-empty, at most `size` long, and
/// tile `[0, len)` in order.
pub proof fn lemma_chunk_ranges_partition(len: int, size: int)
    requires
        size > 0,
        len >= 0,
    ensures
        ({
            let c = spec_chunk_ranges(len, size);
            &&& forall|k: int| 0 <= k < c.len() ==> (#[trigger] c[k]).0 < c[k].1 && c[k].1 - c[k].0 <= size
            &&& forall|k: int| 0 < k < c.len() ==> (#[trigger] c[k]).0 == c[k - 1].1
            &&& c.len() == 0 <==> len == 0
            &&& c.len() > 0 ==> c[0].0 == 0 && c[c.len() - 1].1 == len
        }),
{
    lemma_chunk_ranges_from_partition(0, len, size);
}

/// Every range lies within `[from, len]`.
pub proof fn lemma_chunk_ranges_from_bounded(from: int, len: int, size: int)
    requires
        size > 0,
        from <= len,
    ensures
        forall|k: int| 0 <= k < chunk_ranges_from(from, len, size).len() ==> from <= (#[trigger] chunk_ranges_from(
            from,
            len,
            size,
        )[k]).0 && chunk_ranges_from(from, len, size)[k].1 <= len,
    decreases len - from,
{
    if from < len {
        let end = if from + size < len {
            from + size
        } else {
            len
        };
        lemma_chunk_ranges_from_bounded(end, len, size);
        let c = chunk_ranges_from(from, len, size);
        let rest = chunk_ranges_from(end, len, size);
        assert(c == seq![(from, end)] + rest);
        assert forall|k: int| 0 <= k < c.len() implies from <= (#[trigger] c[k]).0 && c[k].1 <= len by {
            if k > 0 {
                assert(c[k] == rest[k - 1]);
            }
        }
    }
}

/// Every range of the rows `[0, len)` lies within them.
pub proof fn lemma_chunk_ranges_bounded(len: int, size: int)
    requires
        size > 0,
        len >= 0,
    ensures
        forall|k: int| 0 <= k < spec_chunk_ranges(len, size).len() ==> 0 <= (#[trigger] spec_chunk_ranges(len, size)[k]).0
            && spec_chunk_ranges(len, size)[k].1 <= len,
{
    lemma_chunk_ranges_from_bounded(0, len, size);
}

/// Every range but the last holds exactly `size` rows, as `chunks` cuts a
/// slice.
pub proof fn lemma_chunk_ranges_from_full(from: int, len: int, size: int)
    requires
        size > 0,
        from <= len,
    ensures
        forall|k: int| 0 <= k < chunk_ranges_from(from, len, size).len() - 1 ==> (#[trigger] chunk_ranges_from(
            from,
            len,
            size,
        )[k]).1 - chunk_ranges_from(from, len, size)[k].0 == size,
    decreases len - from,
{
    if from < len {
        let end = if from + size < len {
            from + size
        } else {
            len
        };
        lemma_chunk_ranges_from_full(end, len, size);
        let c = chunk_ranges_from(from, len, size);
        let rest = chunk_ranges_from(end, len, size);
        assert(c == seq![(from, end)] + rest);
        assert forall|k: int| 0 <= k < c.len() - 1 implies (#[trigger] c[k]).1 - c[k].0 == size by {
            if k > 0 {
                assert(c[k] == rest[k - 1]);
            } else {
                assert(rest.len() > 0);
            }
        }
    }
}

/// Cutting `len` rows into statements of at most `size` rows makes every
/// statement but the last take exactly `size` rows.
pub proof fn lemma_chunk_ranges_full(len: int, size: int)
    requires
        size > 0,
        len >= 0,
    ensures
        forall|k: int| 0 <= k < spec_chunk_ranges(len, size).len() - 1 ==> (#[trigger] spec_chunk_ranges(len, size)[k]).1
            - spec_chunk_ranges(len, size)[k].0 == size,
{
    lemma_chunk_ranges_from_full(0, len, size);
}

} // verus!
