use ratcrate::repo::parse_github_repo;

#[test]
fn http_url() {
    let url = "https://github.com/owner/repo";
    let (o, r) = parse_github_repo(url).unwrap();
    assert_eq!(o, "owner");
    assert_eq!(r, "repo");
}

#[test]
fn git_at_url() {
    let url = "git@github.com:owner/repo.git";
    let (o, r) = parse_github_repo(url).unwrap();
    assert_eq!(o, "owner");
    assert_eq!(r, "repo");
}

#[test]
fn bad_url() {
    assert!(parse_github_repo("https://example.com/foo").is_none());
}

#[test]
fn www_and_mixed_case_host() {
    let (o, r) = parse_github_repo("https://www.GitHub.com/Some-Owner/Some_Repo").unwrap();
    assert_eq!(o, "Some-Owner");
    assert_eq!(r, "Some_Repo");
}

#[test]
fn trailing_path_segments_are_ignored() {
    let (o, r) = parse_github_repo("https://github.com/owner/repo/tree/main").unwrap();
    assert_eq!(o, "owner");
    assert_eq!(r, "repo");
}

#[test]
fn missing_repo_is_rejected() {
    assert!(parse_github_repo("https://github.com/owner").is_none());
    assert!(parse_github_repo("https://github.com/owner/").is_none());
    assert!(parse_github_repo("https://github.com//repo").is_none());
}
