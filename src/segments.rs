//! Splitting a reference into its `/`-separated segments.
use vstd::prelude::*;

verus! {

/// The separator between the segments of a reference.
pub open spec fn is_separator(c: char) -> bool {
    c == '/'
}

/// Reading `s` from the left: the non-empty segments already closed by a
/// separator, and the (possibly empty) segment still open at the end of `s`.
pub open spec fn split_open(s: Seq<char>) -> (Seq<Seq<char>>, Seq<char>)
    decreases s.len(),
{
    if s.len() == 0 {
        (Seq::empty(), Seq::empty())
    } else {
        let (closed, open) = split_open(s.drop_last());
        if is_separator(s.last()) {
            if open.len() == 0 {
                (closed, Seq::empty())
            } else {
                (closed.push(open), Seq::empty())
            }
        } else {
            (closed, open.push(s.last()))
        }
    }
}

/// The segments of `s`: the maximal runs of characters other than `/`, in
/// order. Empty segments (from leading, trailing or doubled slashes) are
/// dropped.
pub open spec fn segments(s: Seq<char>) -> Seq<Seq<char>> {
    let (closed, open) = split_open(s);
    if open.len() == 0 {
        closed
    } else {
        closed.push(open)
    }
}

/// The character sequences held by a sequence of strings.
pub open spec fn string_views(v: Seq<String>) -> Seq<Seq<char>> {
    v.map_values(|p: String| p@)
}

/// Splits `s` at every `/`, keeping the non-empty pieces in order.
pub fn split_segments(s: &str) -> (parts: Vec<String>)
    ensures
        string_views(parts@) == segments(s@),
{
    let n = s.unicode_len();
    let mut parts: Vec<String> = Vec::new();
    let mut start: usize = 0;
    let mut i: usize = 0;
    while i < n
        invariant
            n == s@.len(),
            start <= i <= n,
            split_open(s@.take(i as int)).0 == string_views(parts@),
            split_open(s@.take(i as int)).1 == s@.subrange(start as int, i as int),
        decreases n - i,
    {
        let c = s.get_char(i);
        proof {
            assert(s@.take(i + 1).drop_last() =~= s@.take(i as int));
        }
        if c == '/' {
            if start < i {
                let piece = String::from_str(s.substring_char(start, i));
                proof {
                    assert(string_views(parts@.push(piece)) =~= string_views(parts@).push(piece@));
                }
                parts.push(piece);
            }
            start = i + 1;
            assert(s@.subrange(start as int, i + 1) =~= Seq::<char>::empty());
        } else {
            assert(s@.subrange(start as int, i + 1) =~= s@.subrange(start as int, i as int).push(c));
        }
        i = i + 1;
    }
    assert(s@.take(n as int) =~= s@);
    if start < n {
        let piece = String::from_str(s.substring_char(start, n));
        proof {
            assert(string_views(parts@.push(piece)) =~= string_views(parts@).push(piece@));
        }
        parts.push(piece);
    }
    parts
}


/// Characters other than `/` only extend the open segment.
pub proof fn lemma_split_open_extend(p: Seq<char>, x: Seq<char>)
    requires
        !x.contains('/'),
    ensures
        split_open(p + x) == (split_open(p).0, split_open(p).1 + x),
    decreases x.len(),
{
    if x.len() == 0 {
        assert(p + x =~= p);
        assert(split_open(p).1 + x =~= split_open(p).1);
    } else {
        let y = x.drop_last();
        assert(!y.contains('/')) by {
            assert forall|i: int| 0 <= i < y.len() implies y[i] != '/' by {
                assert(y[i] == x[i]);
            }
        }
        lemma_split_open_extend(p, y);
        assert((p + x).drop_last() =~= p + y);
        assert((p + x).last() == x[x.len() - 1]);
        assert((split_open(p).1 + y).push(x.last()) =~= split_open(p).1 + x);
    }
}

/// A `/` closes the open segment, if it is not empty.
pub proof fn lemma_split_open_separator(p: Seq<char>)
    ensures
        split_open(p.push('/')) == (if split_open(p).1.len() == 0 {
            (split_open(p).0, Seq::<char>::empty())
        } else {
            (split_open(p).0.push(split_open(p).1), Seq::<char>::empty())
        }),
{
    assert(p.push('/').drop_last() =~= p);
}

/// A `/` after plain text closes that text as a segment of its own.
pub proof fn lemma_split_open_closes(p: Seq<char>, x: Seq<char>)
    requires
        split_open(p).1.len() == 0,
        x.len() > 0,
        !x.contains('/'),
    ensures
        split_open(p + x + seq!['/']) == (split_open(p).0.push(x), Seq::<char>::empty()),
{
    lemma_split_open_extend(p, x);
    assert(split_open(p).1 + x =~= x);
    assert(p + x + seq!['/'] =~= (p + x).push('/'));
    lemma_split_open_separator(p + x);
}

/// The segments of `s` are non-empty and free of `/`.
pub open spec fn plain_segments(parts: Seq<Seq<char>>) -> bool {
    forall|i: int| 0 <= i < parts.len() ==> #[trigger] parts[i].len() > 0 && !parts[i].contains('/')
}

/// What `split_open` produces is free of `/`, and its closed segments are
/// non-empty.
pub proof fn lemma_split_open_plain(s: Seq<char>)
    ensures
        plain_segments(split_open(s).0),
        !split_open(s).1.contains('/'),
    decreases s.len(),
{
    if s.len() > 0 {
        lemma_split_open_plain(s.drop_last());
        let (closed, open) = split_open(s.drop_last());
        if !is_separator(s.last()) {
            assert forall|i: int| 0 <= i < open.push(s.last()).len() implies open.push(s.last())[i] != '/' by {
                if i < open.len() {
                    assert(open.push(s.last())[i] == open[i]);
                }
            }
        } else if open.len() > 0 {
            assert forall|i: int| 0 <= i < closed.push(open).len() implies #[trigger] closed.push(open)[i].len() > 0
                && !closed.push(open)[i].contains('/') by {
                if i < closed.len() {
                    assert(closed.push(open)[i] == closed[i]);
                }
            }
        }
    }
}

/// Every segment is non-empty and free of `/`.
pub proof fn lemma_segments_plain(s: Seq<char>)
    ensures
        plain_segments(segments(s)),
{
    lemma_split_open_plain(s);
    let (closed, open) = split_open(s);
    if open.len() > 0 {
        assert forall|i: int| 0 <= i < closed.push(open).len() implies #[trigger] closed.push(open)[i].len() > 0
            && !closed.push(open)[i].contains('/') by {
            if i < closed.len() {
                assert(closed.push(open)[i] == closed[i]);
            }
        }
    }
}

} // verus!
