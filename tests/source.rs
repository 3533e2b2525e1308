use clopy::{find_colon, gen_url, parse_source, split_segments, Host, ParseError, Source};

#[test]
fn github_reference_with_ref_resolves_to_tarball_url() {
    let src = Source::from("kjpark/clopy:dev").unwrap();
    assert_eq!(src.host(), Host::Github);
    assert_eq!(src.owner(), "kjpark");
    assert_eq!(src.repo(), "clopy");
    assert_eq!(src.tag(), Some("dev"));
    assert_eq!(src.to_url(), "https://api.github.com/repos/kjpark/clopy/tarball/dev");
}

#[test]
fn gitlab_reference_resolves_to_archive_url() {
    let src = Source::from("gitlab.com/kjpark/clopy").unwrap();
    assert_eq!(src.host(), Host::Gitlab);
    assert_eq!(src.owner(), "kjpark");
    assert_eq!(src.repo(), "clopy");
    assert_eq!(src.tag(), None);
    assert_eq!(
        src.to_url(),
        "https://gitlab.com/api/v4/projects/kjpark%2Fclopy/repository/archive"
    );
}

#[test]
fn gitlab_ref_becomes_sha_query() {
    let src = Source::from("gitlab.com/kjpark/clopy:v1.2").unwrap();
    assert_eq!(src.tag(), Some("v1.2"));
    let url = src.to_url();
    assert!(url.ends_with("?sha=v1.2"));
    assert_eq!(
        url,
        "https://gitlab.com/api/v4/projects/kjpark%2Fclopy/repository/archive?sha=v1.2"
    );
}

#[test]
fn unknown_host_is_unsupported() {
    assert_eq!(
        Source::from("bitbucket.org/kjpark/clopy").unwrap_err(),
        ParseError::UnsupportedHost
    );
}

#[test]
fn wrong_segment_counts_are_malformed() {
    assert_eq!(Source::from("kjpark").unwrap_err(), ParseError::MalformedReference);
    assert_eq!(Source::from("a/b/c/d").unwrap_err(), ParseError::MalformedReference);
    assert_eq!(Source::from("").unwrap_err(), ParseError::MalformedReference);
    assert_eq!(Source::from("///").unwrap_err(), ParseError::MalformedReference);
}

#[test]
fn empty_ref_after_colon_is_invalid() {
    assert_eq!(Source::from("kjpark/clopy:").unwrap_err(), ParseError::InvalidRef);
    assert_eq!(
        Source::from("gitlab.com/kjpark/clopy:").unwrap_err(),
        ParseError::InvalidRef
    );
}

#[test]
fn ref_holding_a_slash_is_invalid() {
    assert_eq!(
        Source::from("kjpark/clopy:feature/x").unwrap_err(),
        ParseError::InvalidRef
    );
    assert_eq!(Source::from("own:er/clopy").unwrap_err(), ParseError::InvalidRef);
}

#[test]
fn empty_repo_is_malformed() {
    assert_eq!(Source::from("kjpark/:dev").unwrap_err(), ParseError::MalformedReference);
    assert_eq!(Source::from("kjpark/:").unwrap_err(), ParseError::MalformedReference);
}

#[test]
fn two_segments_default_to_github_without_ref() {
    let src = parse_source("some-owner/some.repo").unwrap();
    assert_eq!(src.host(), Host::Github);
    assert_eq!(src.owner(), "some-owner");
    assert_eq!(src.repo(), "some.repo");
    assert_eq!(src.tag(), None);
}

#[test]
fn host_like_owner_in_two_segments_stays_github() {
    let src = parse_source("gitlab.com/clopy").unwrap();
    assert_eq!(src.host(), Host::Github);
    assert_eq!(src.owner(), "gitlab.com");
    assert_eq!(src.repo(), "clopy");
}

#[test]
fn three_segments_name_their_host() {
    let gh = parse_source("github.com/kjpark/clopy").unwrap();
    assert_eq!(gh.host(), Host::Github);
    assert_eq!(gh.owner(), "kjpark");
    assert_eq!(gh.repo(), "clopy");
    let gl = parse_source("gitlab.com/kjpark/clopy").unwrap();
    assert_eq!(gl.host(), Host::Gitlab);
}

#[test]
fn host_names_match_exactly() {
    assert_eq!(
        parse_source("GitHub.com/kjpark/clopy").unwrap_err(),
        ParseError::UnsupportedHost
    );
    assert_eq!(
        parse_source("www.github.com/kjpark/clopy").unwrap_err(),
        ParseError::UnsupportedHost
    );
}

#[test]
fn repo_and_ref_split_at_the_colon() {
    let src = parse_source("kjpark/clopy:0123abc").unwrap();
    assert_eq!(src.repo(), "clopy");
    assert_eq!(src.tag(), Some("0123abc"));
}

#[test]
fn ref_keeps_later_colons() {
    let src = parse_source("kjpark/clopy:a:b").unwrap();
    assert_eq!(src.repo(), "clopy");
    assert_eq!(src.tag(), Some("a:b"));
}

#[test]
fn extra_slashes_are_ignored() {
    let src = parse_source("/kjpark//clopy/").unwrap();
    assert_eq!(src.owner(), "kjpark");
    assert_eq!(src.repo(), "clopy");
    let src = parse_source("//gitlab.com///kjpark/clopy:dev//").unwrap();
    assert_eq!(src.host(), Host::Gitlab);
    assert_eq!(src.tag(), Some("dev"));
}

#[test]
fn non_ascii_names_are_kept_whole() {
    let src = parse_source("jürgen/größe:ß").unwrap();
    assert_eq!(src.owner(), "jürgen");
    assert_eq!(src.repo(), "größe");
    assert_eq!(src.tag(), Some("ß"));
    assert_eq!(src.to_url(), "https://api.github.com/repos/jürgen/größe/tarball/ß");
}

#[test]
fn github_without_ref_ends_in_tarball() {
    let src = parse_source("kjpark/clopy").unwrap();
    assert_eq!(gen_url(&src), "https://api.github.com/repos/kjpark/clopy/tarball/");
}

#[test]
fn resolving_twice_gives_the_same_url() {
    let a = parse_source("gitlab.com/kjpark/clopy:v1.2").unwrap();
    let b = parse_source("gitlab.com/kjpark/clopy:v1.2").unwrap();
    assert_eq!(a.to_url(), a.to_url());
    assert_eq!(gen_url(&a), gen_url(&b));
}

#[test]
fn segments_drop_empty_pieces() {
    assert_eq!(split_segments("/a//b/c/"), vec!["a", "b", "c"]);
    assert_eq!(split_segments(""), Vec::<String>::new());
    assert_eq!(split_segments("//"), Vec::<String>::new());
    assert_eq!(split_segments("abc"), vec!["abc"]);
}

#[test]
fn first_colon_is_found() {
    assert_eq!(find_colon("clopy:dev:x"), Some(5));
    assert_eq!(find_colon(":"), Some(0));
    assert_eq!(find_colon("clopy"), None);
    assert_eq!(find_colon("größe:ß"), Some(5));
}
