use vstd::prelude::*;

verus! {

/// `s` cut at every newline; the newlines themselves are dropped. There is
/// always one more piece than there are newlines.
pub open spec fn pieces(s: Seq<char>) -> Seq<Seq<char>>
    decreases s.len(),
{
    if s.len() == 0 {
        seq![Seq::<char>::empty()]
    } else if s.last() == '\n' {
        pieces(s.drop_last()).push(Seq::<char>::empty())
    } else {
        let p = pieces(s.drop_last());
        p.update(p.len() - 1, p.last().push(s.last()))
    }
}

/// A line that ended in `\r\n` loses its `\r`.
pub open spec fn strip_cr(l: Seq<char>) -> Seq<char> {
    if l.len() > 0 && l.last() == '\r' {
        l.drop_last()
    } else {
        l
    }
}

/// The lines of `s`: every piece that a newline ended, without a `\r` before
/// that newline, then the text after the last newline when it is not empty.
pub open spec fn lines_of(s: Seq<char>) -> Seq<Seq<char>> {
    let p = pieces(s);
    let ended = Seq::new((p.len() - 1) as nat, |j: int| strip_cr(p[j]));
    if p.last().len() > 0 {
        ended.push(p.last())
    } else {
        ended
    }
}

pub proof fn lemma_pieces_nonempty(s: Seq<char>)
    ensures
        pieces(s).len() >= 1,
        pieces(s).len() <= s.len() + 1,
    decreases s.len(),
{
    if s.len() > 0 {
        lemma_pieces_nonempty(s.drop_last());
    }
}

/// `(start, end)` pairs into `c`, one for each line of `c@`, in order.
pub fn line_spans(c: &Vec<char>) -> (r: Vec<(usize, usize)>)
    ensures
        r@.len() == lines_of(c@).len(),
        forall|j: int| 0 <= j < r@.len() ==> (#[trigger] r@[j]).0 <= r@[j].1 <= c@.len(),
        forall|j: int|
            0 <= j < r@.len() ==> c@.subrange(r@[j].0 as int, r@[j].1 as int) == #[trigger] lines_of(
                c@,
            )[j],
{
    let mut r: Vec<(usize, usize)> = Vec::new();
    let mut start: usize = 0;
    let mut i: usize = 0;
    proof {
        assert(c@.take(0) =~= Seq::<char>::empty());
    }
    while i < c.len()
        invariant
            start <= i <= c@.len(),
            pieces(c@.take(i as int)).len() == r@.len() + 1,
            pieces(c@.take(i as int)).last() == c@.subrange(start as int, i as int),
            forall|j: int| 0 <= j < r@.len() ==> (#[trigger] r@[j]).0 <= r@[j].1 <= i,
            forall|j: int|
                0 <= j < r@.len() ==> c@.subrange(r@[j].0 as int, r@[j].1 as int) == strip_cr(
                    #[trigger] pieces(c@.take(i as int))[j],
                ),
        decreases c@.len() - i,
    {
        let ghost p = pieces(c@.take(i as int));
        let ghost old_r = r@;
        assert(c@.take(i + 1).drop_last() =~= c@.take(i as int));
        if c[i] == '\n' {
            assert(pieces(c@.take(i + 1)) == p.push(Seq::<char>::empty()));
            let end: usize = if i > start && c[i - 1] == '\r' {
                i - 1
            } else {
                i
            };
            assert(c@.subrange(start as int, end as int) =~= strip_cr(p.last()));
            assert(pieces(c@.take(i + 1))[old_r.len() as int] == p.last());
            r.push((start, end));
            start = i + 1;
        } else {
            assert(pieces(c@.take(i + 1)) == p.update(p.len() - 1, p.last().push(c@[i as int])));
            assert(c@.subrange(start as int, i + 1) =~= p.last().push(c@[i as int]));
        }
        assert(forall|j: int| 0 <= j < old_r.len() ==> #[trigger] pieces(c@.take(i + 1))[j] == p[j]);
        i = i + 1;
        assert(c@.subrange(start as int, i as int) =~= pieces(c@.take(i as int)).last());
    }
    proof {
        assert(c@.take(i as int) =~= c@);
        lemma_pieces_nonempty(c@);
    }
    if start < i {
        r.push((start, i));
    }
    proof {
        let p = pieces(c@);
        assert forall|j: int| 0 <= j < r@.len() implies c@.subrange(
            r@[j].0 as int,
            r@[j].1 as int,
        ) == #[trigger] lines_of(c@)[j] by {
            assert(pieces(c@.take(i as int)) == p);
            if j < p.len() - 1 {
                assert(lines_of(c@)[j] == strip_cr(p[j]));
            } else {
                assert(lines_of(c@)[j] == p.last());
            }
        }
    }
    r
}

} // verus!
