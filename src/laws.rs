//! General facts about parsing and resolving references.
use vstd::prelude::*;

use crate::segments::{
    lemma_segments_plain,
    lemma_split_open_closes,
    lemma_split_open_extend,
    plain_segments,
    segments,
    split_open,
};
use crate::source::{
    colon_before_last,
    host_named,
    is_first_colon,
    parse_spec,
    split_ref,
    url_spec,
    Host,
    ParseError,
    SourceView,
};

verus! {

/// A name that can stand as a segment of a reference: non-empty, with no `/`
/// and no `:` in it.
pub open spec fn is_plain_name(x: Seq<char>) -> bool {
    &&& x.len() > 0
    &&& !x.contains('/')
    &&& !x.contains(':')
}

/// A plain last segment carries no ref.
proof fn lemma_split_ref_plain(x: Seq<char>)
    requires
        !x.contains(':'),
    ensures
        split_ref(x) == (x, None::<Seq<char>>),
{
    assert(!exists|k: int| is_first_colon(x, k));
}

/// A sequence that holds a colon has a first one.
proof fn lemma_first_colon_exists(x: Seq<char>, i: int)
    requires
        0 <= i < x.len(),
        x[i] == ':',
    ensures
        exists|k: int| is_first_colon(x, k),
    decreases i,
{
    if exists|j: int| 0 <= j < i && x[j] == ':' {
        let j = choose|j: int| 0 <= j < i && x[j] == ':';
        lemma_first_colon_exists(x, j);
    } else {
        assert(is_first_colon(x, i));
    }
}

/// `owner/repo`, with plain names, is that repository on GitHub at its
/// default ref.
pub proof fn two_segments_default_to_github(owner: Seq<char>, repo: Seq<char>)
    requires
        is_plain_name(owner),
        is_plain_name(repo),
    ensures
        parse_spec(owner + seq!['/'] + repo) == Ok::<SourceView, ParseError>(
            SourceView { host: Host::Github, owner, repo, tag: None },
        ),
{
    let e = Seq::<char>::empty();
    assert(split_open(e) == (Seq::<Seq<char>>::empty(), e));
    lemma_split_open_closes(e, owner);
    assert(e + owner =~= owner);
    let p = owner + seq!['/'];
    lemma_split_open_extend(p, repo);
    assert(split_open(p).1 + repo =~= repo);
    let parts = segments(p + repo);
    assert(parts =~= seq![owner, repo]);
    assert(!colon_before_last(parts));
    lemma_split_ref_plain(repo);
}

/// `host/owner/repo`, with a supported host and plain names, is that
/// repository on the host that the first segment names, at its default ref.
pub proof fn three_segments_name_the_host(host: Seq<char>, owner: Seq<char>, repo: Seq<char>)
    requires
        host_named(host) is Some,
        is_plain_name(owner),
        is_plain_name(repo),
    ensures
        parse_spec(host + seq!['/'] + owner + seq!['/'] + repo) == Ok::<SourceView, ParseError>(
            SourceView { host: host_named(host)->Some_0, owner, repo, tag: None },
        ),
{
    reveal_strlit("github.com");
    reveal_strlit("gitlab.com");
    assert(is_plain_name(host));
    let e = Seq::<char>::empty();
    assert(split_open(e) == (Seq::<Seq<char>>::empty(), e));
    lemma_split_open_closes(e, host);
    assert(e + host =~= host);
    let p = host + seq!['/'];
    lemma_split_open_closes(p, owner);
    let q = p + owner + seq!['/'];
    lemma_split_open_extend(q, repo);
    assert(split_open(q).1 + repo =~= repo);
    let parts = segments(q + repo);
    assert(parts =~= seq![host, owner, repo]);
    assert(!colon_before_last(parts));
    lemma_split_ref_plain(repo);
}

/// When the last segment holds exactly one colon, a parsed reference has as
/// its repository what stands before the colon and as its ref what stands
/// after it, and that ref is not empty.
pub proof fn ref_follows_the_colon(s: Seq<char>, k: int)
    requires
        segments(s).len() > 0,
        0 <= k < segments(s).last().len(),
        segments(s).last()[k] == ':',
        forall|j: int|
            0 <= j < segments(s).last().len() && j != k ==> segments(s).last()[j] != ':',
    ensures
        parse_spec(s) matches Ok(v) ==> {
            &&& v.repo == segments(s).last().take(k)
            &&& v.tag == Some(segments(s).last().skip(k + 1))
            &&& segments(s).last().skip(k + 1).len() > 0
        },
{
    let last = segments(s).last();
    assert(is_first_colon(last, k));
    if parse_spec(s) is Ok {
        if last.skip(k + 1).len() == 0 {
            assert(last.skip(k + 1) =~= Seq::<char>::empty());
        }
    }
}

/// Every parsed reference is well formed: owner and repository are non-empty
/// and free of `/` and `:`, and a ref is non-empty and free of `/`.
pub proof fn parsed_references_are_well_formed(s: Seq<char>)
    ensures
        parse_spec(s) matches Ok(v) ==> v.wf(),
{
    if parse_spec(s) is Ok {
        let parts = segments(s);
        let n = parts.len() as int;
        lemma_segments_plain(s);
        assert(parts[n - 1].len() > 0 && !parts[n - 1].contains('/'));
        assert(parts[n - 2].len() > 0 && !parts[n - 2].contains('/'));
        assert(!parts[n - 2].contains(':'));
        let last = parts[n - 1];
        let v = parse_spec(s)->Ok_0;
        if exists|k: int| is_first_colon(last, k) {
            let k = choose|k: int| is_first_colon(last, k);
            assert(v.repo == last.take(k));
            assert(!v.repo.contains(':') && !v.repo.contains('/')) by {
                assert forall|i: int| 0 <= i < v.repo.len() implies v.repo[i] != ':' && v.repo[i]
                    != '/' by {
                    assert(v.repo[i] == last[i]);
                }
            }
            let t = last.skip(k + 1);
            if t.len() == 0 {
                assert(t =~= Seq::<char>::empty());
            }
            assert(!t.contains('/')) by {
                assert forall|i: int| 0 <= i < t.len() implies t[i] != '/' by {
                    assert(t[i] == last[i + k + 1]);
                }
            }
        } else {
            if last.contains(':') {
                let i = choose|i: int| 0 <= i < last.len() && last[i] == ':';
                lemma_first_colon_exists(last, i);
            }
        }
    }
}

/// Resolving depends on the reference alone: equal references resolve to
/// the same URL.
pub proof fn resolve_is_deterministic(a: SourceView, b: SourceView)
    requires
        a == b,
    ensures
        url_spec(a) == url_spec(b),
{
}

} // verus!
