//! References to a repository on a hosting provider, and the archive URL each
//! one resolves to.
use vstd::prelude::*;

use crate::laws::parsed_references_are_well_formed;
use crate::segments::{segments, split_segments, string_views};

verus! {

/// The hosting providers that a reference can name.
#[derive(Clone, Copy, Debug, PartialEq, Eq, Structural)]
pub enum Host {
    Github,
    Gitlab,
}

/// Why a reference could not be parsed.
#[derive(Clone, Copy, Debug, PartialEq, Eq, Structural)]
pub enum ParseError {
    /// Not two or three segments, or an empty repository name.
    MalformedReference,
    /// A three-segment reference whose first segment is no supported host.
    UnsupportedHost,
    /// An empty ref after the colon, or a colon before the last segment (a
    /// ref holding a `/`, which the segment split cannot keep whole).
    InvalidRef,
}

/// The host that a literal host segment names, if it names one.
pub open spec fn host_named(name: Seq<char>) -> Option<Host> {
    if name == "github.com"@ {
        Some(Host::Github)
    } else if name == "gitlab.com"@ {
        Some(Host::Gitlab)
    } else {
        None
    }
}

/// `k` is the position of the first `:` in `s`.
pub open spec fn is_first_colon(s: Seq<char>, k: int) -> bool {
    &&& 0 <= k < s.len()
    &&& s[k] == ':'
    &&& forall|j: int| 0 <= j < k ==> s[j] != ':'
}

/// The repository name and the optional ref that the last segment holds:
/// what stands before its first colon, and what stands after it.
pub open spec fn split_ref(last: Seq<char>) -> (Seq<char>, Option<Seq<char>>) {
    if exists|k: int| is_first_colon(last, k) {
        let k = choose|k: int| is_first_colon(last, k);
        (last.take(k), Some(last.skip(k + 1)))
    } else {
        (last, None)
    }
}

/// Some segment before the last holds a `:`.
pub open spec fn colon_before_last(parts: Seq<Seq<char>>) -> bool {
    exists|i: int| 0 <= i < parts.len() - 1 && #[trigger] parts[i].contains(':')
}

/// A parsed reference, as plain values.
pub struct SourceView {
    pub host: Host,
    pub owner: Seq<char>,
    pub repo: Seq<char>,
    pub tag: Option<Seq<char>>,
}

impl SourceView {
    /// What every successfully parsed reference satisfies.
    pub open spec fn wf(self) -> bool {
        &&& self.owner.len() > 0
        &&& self.repo.len() > 0
        &&& !self.owner.contains('/') && !self.owner.contains(':')
        &&& !self.repo.contains('/') && !self.repo.contains(':')
        &&& self.tag matches Some(t) ==> t.len() > 0 && !t.contains('/')
    }
}

/// The reference that `s` denotes, or why it denotes none.
pub open spec fn parse_spec(s: Seq<char>) -> Result<SourceView, ParseError> {
    let parts = segments(s);
    let n = parts.len() as int;
    if n != 2 && n != 3 {
        Err(ParseError::MalformedReference)
    } else if colon_before_last(parts) {
        Err(ParseError::InvalidRef)
    } else if n == 3 && host_named(parts[0]) is None {
        Err(ParseError::UnsupportedHost)
    } else {
        let (repo, tag) = split_ref(parts[n - 1]);
        if repo.len() == 0 {
            Err(ParseError::MalformedReference)
        } else if tag == Some(Seq::<char>::empty()) {
            Err(ParseError::InvalidRef)
        } else {
            Ok(
                SourceView {
                    host: if n == 3 {
                        host_named(parts[0])->Some_0
                    } else {
                        Host::Github
                    },
                    owner: parts[n - 2],
                    repo,
                    tag,
                },
            )
        }
    }
}

/// The archive URL of a reference.
pub open spec fn url_spec(v: SourceView) -> Seq<char> {
    match v.host {
        Host::Github => "https://api.github.com/repos/"@ + v.owner + "/"@ + v.repo
            + "/tarball/"@ + match v.tag {
            Some(t) => t,
            None => Seq::empty(),
        },
        Host::Gitlab => "https://gitlab.com/api/v4/projects/"@ + v.owner + "%2F"@ + v.repo
            + "/repository/archive"@ + match v.tag {
            Some(t) => "?sha="@ + t,
            None => Seq::empty(),
        },
    }
}

/// A reference to a repository (and optionally a ref in it) on a host.
#[derive(Debug)]
pub struct Source {
    host: Host,
    owner: String,
    repo: String,
    tag: Option<String>,
}

impl View for Source {
    type V = SourceView;

    closed spec fn view(&self) -> SourceView {
        SourceView {
            host: self.host,
            owner: self.owner@,
            repo: self.repo@,
            tag: match self.tag {
                Some(t) => Some(t@),
                None => None,
            },
        }
    }
}

/// The position of the first `:` in `s`, if it has one.
pub fn find_colon(s: &str) -> (r: Option<usize>)
    ensures
        match r {
            Some(k) => is_first_colon(s@, k as int),
            None => !s@.contains(':'),
        },
{
    let n = s.unicode_len();
    let mut i: usize = 0;
    while i < n
        invariant
            n == s@.len(),
            i <= n,
            forall|j: int| 0 <= j < i ==> s@[j] != ':',
        decreases n - i,
    {
        if s.get_char(i) == ':' {
            return Some(i);
        }
        i = i + 1;
    }
    None
}


/// The host that a host segment names, if it names a supported one.
fn host_of(name: &String) -> (r: Option<Host>)
    ensures
        r == host_named(name@),
{
    if *name == String::from_str("github.com") {
        Some(Host::Github)
    } else if *name == String::from_str("gitlab.com") {
        Some(Host::Gitlab)
    } else {
        None
    }
}

/// Parses `[host/]owner/repo[:ref]`.
///
/// The input is split at `/` with empty segments dropped. Two segments are
/// `owner/repo` on GitHub; three are `host/owner/repo`, where `host` is
/// `github.com` or `gitlab.com`. The last segment is split at its first `:`
/// into the repository name and the ref. A ref may not hold a `/`: a `:`
/// before the last segment is rejected as an invalid ref.
pub fn parse_source(source: &str) -> (r: Result<Source, ParseError>)
    ensures
        match r {
            Ok(src) => parse_spec(source@) == Ok::<SourceView, ParseError>(src@),
            Err(e) => parse_spec(source@) == Err::<SourceView, ParseError>(e),
        },
        r matches Ok(src) ==> src@.wf(),
{
    proof {
        parsed_references_are_well_formed(source@);
    }
    let parts = split_segments(source);
    let ghost pv = segments(source@);
    let count = parts.len();
    if count != 2 && count != 3 {
        return Err(ParseError::MalformedReference);
    }
    let mut i: usize = 0;
    while i < count - 1
        invariant
            pv == segments(source@),
            pv == string_views(parts@),
            count == parts@.len(),
            pv.len() == count,
            count == 2 || count == 3,
            i <= count - 1,
            forall|j: int| 0 <= j < i ==> !(#[trigger] pv[j]).contains(':'),
        decreases count - i,
    {
        assert(parts[i as int]@ == pv[i as int]);
        if let Some(k) = find_colon(parts[i].as_str()) {
            assert(pv[i as int][k as int] == ':');
            assert(pv[i as int].contains(':'));
            return Err(ParseError::InvalidRef);
        }
        i = i + 1;
    }
    assert(!colon_before_last(pv));
    let host = if count == 3 {
        assert(parts[0]@ == pv[0]);
        match host_of(&parts[0]) {
            Some(h) => h,
            None => {
                return Err(ParseError::UnsupportedHost);
            },
        }
    } else {
        Host::Github
    };
    let owner = parts[count - 2].clone();
    assert(owner@ == pv[count - 2]);
    let last = parts[count - 1].as_str();
    assert(last@ == pv[count - 1]);
    let n = last.unicode_len();
    let (repo, tag) = match find_colon(last) {
        Some(k) => {
            assert(is_first_colon(last@, k as int));
            let repo = String::from_str(last.substring_char(0, k));
            let tag = String::from_str(last.substring_char(k + 1, n));
            assert(last@.take(k as int) == repo@);
            assert(last@.skip(k + 1) =~= tag@);
            (repo, Some(tag))
        },
        None => {
            assert(!exists|k: int| is_first_colon(last@, k));
            (String::from_str(last), None)
        },
    };
    if repo.unicode_len() == 0 {
        return Err(ParseError::MalformedReference);
    }
    match &tag {
        Some(t) => {
            if t.as_str().unicode_len() == 0 {
                assert(t@ =~= Seq::<char>::empty());
                return Err(ParseError::InvalidRef);
            }
        },
        None => {},
    }
    let src = Source { host, owner, repo, tag };
    assert(src@ == parse_spec(source@)->Ok_0);
    Ok(src)
}

/// The URL from which the provider serves the reference's source archive.
///
/// GitHub: `https://api.github.com/repos/{owner}/{repo}/tarball/{ref}`, with
/// the ref left out when there is none. GitLab:
/// `https://gitlab.com/api/v4/projects/{owner}%2F{repo}/repository/archive`,
/// followed by `?sha={ref}` when there is a ref.
pub fn gen_url(source: &Source) -> (url: String)
    ensures
        url@ == url_spec(source@),
{
    match source.host {
        Host::Github => {
            let mut url = String::from_str("https://api.github.com/repos/");
            url.append(source.owner.as_str());
            url.append("/");
            url.append(source.repo.as_str());
            url.append("/tarball/");
            match &source.tag {
                Some(t) => url.append(t.as_str()),
                None => {
                    assert(url@ =~= url@ + Seq::<char>::empty());
                },
            }
            url
        },
        Host::Gitlab => {
            let mut url = String::from_str("https://gitlab.com/api/v4/projects/");
            url.append(source.owner.as_str());
            url.append("%2F");
            url.append(source.repo.as_str());
            url.append("/repository/archive");
            match &source.tag {
                Some(t) => {
                    let ghost before = url@;
                    url.append("?sha=");
                    url.append(t.as_str());
                    assert(url@ =~= before + ("?sha="@ + t@));
                },
                None => {
                    assert(url@ =~= url@ + Seq::<char>::empty());
                },
            }
            url
        },
    }
}

impl Source {
    /// Parses a reference; see [`parse_source`].
    pub fn from(source: &str) -> (r: Result<Source, ParseError>)
        ensures
            match r {
                Ok(src) => parse_spec(source@) == Ok::<SourceView, ParseError>(src@),
                Err(e) => parse_spec(source@) == Err::<SourceView, ParseError>(e),
            },
            r matches Ok(src) ==> src@.wf(),
    {
        parse_source(source)
    }

    /// The host that holds the repository.
    pub fn host(&self) -> (r: Host)
        ensures
            r == self@.host,
    {
        self.host
    }

    /// The account, organization or namespace that owns the repository.
    pub fn owner(&self) -> (r: &str)
        ensures
            r@ == self@.owner,
    {
        self.owner.as_str()
    }

    /// The repository's name.
    pub fn repo(&self) -> (r: &str)
        ensures
            r@ == self@.repo,
    {
        self.repo.as_str()
    }

    /// The branch, tag or commit, if one was given.
    pub fn tag(&self) -> (r: Option<&str>)
        ensures
            match r {
                Some(t) => self@.tag == Some(t@),
                None => self@.tag is None,
            },
    {
        match &self.tag {
            Some(t) => Some(t.as_str()),
            None => None,
        }
    }

    /// The archive URL of this reference; see [`gen_url`].
    pub fn to_url(&self) -> (url: String)
        ensures
            url@ == url_spec(self@),
    {
        gen_url(self)
    }
}

} // verus!
