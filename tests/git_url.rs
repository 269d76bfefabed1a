use webtags_host::git_url::{convert_https_to_ssh, convert_ssh_to_https, parse_git_url, GitUrlError, GitUrlType};

#[test]
fn test_parse_ssh_urls() {
    assert_eq!(parse_git_url("git@github.com:user/repo.git").unwrap(), GitUrlType::Ssh);
    assert_eq!(parse_git_url("git@github.com:user/repo").unwrap(), GitUrlType::Ssh);
    assert_eq!(parse_git_url("ssh://git@github.com/user/repo.git").unwrap(), GitUrlType::Ssh);
}

#[test]
fn test_parse_https_urls() {
    assert_eq!(parse_git_url("https://github.com/user/repo.git").unwrap(), GitUrlType::Https);
    assert_eq!(parse_git_url("https://github.com/user/repo").unwrap(), GitUrlType::Https);
    assert_eq!(parse_git_url("http://github.com/user/repo.git").unwrap(), GitUrlType::Https);
}

#[test]
fn test_parse_invalid_url() {
    assert!(parse_git_url("not-a-url").is_err());
    assert!(parse_git_url("ftp://example.com/repo").is_err());
}

#[test]
fn test_convert_ssh_to_https_github() {
    let ssh = "git@github.com:user/repo.git";
    let https = convert_ssh_to_https(ssh).unwrap();
    assert_eq!(https, "https://github.com/user/repo.git");
}

#[test]
fn test_convert_ssh_to_https_without_git_extension() {
    let ssh = "git@github.com:user/repo";
    let https = convert_ssh_to_https(ssh).unwrap();
    assert_eq!(https, "https://github.com/user/repo.git");
}

#[test]
fn test_convert_ssh_to_https_gitlab() {
    let ssh = "git@gitlab.com:group/subgroup/repo.git";
    let https = convert_ssh_to_https(ssh).unwrap();
    assert_eq!(https, "https://gitlab.com/group/subgroup/repo.git");
}

#[test]
fn test_convert_ssh_to_https_ssh_protocol() {
    let ssh = "ssh://git@github.com/user/repo";
    let https = convert_ssh_to_https(ssh).unwrap();
    assert_eq!(https, "https://github.com/user/repo.git");
}

#[test]
fn test_convert_https_to_ssh_github() {
    let https = "https://github.com/user/repo.git";
    let ssh = convert_https_to_ssh(https).unwrap();
    assert_eq!(ssh, "git@github.com:user/repo.git");
}

#[test]
fn test_convert_https_to_ssh_without_git_extension() {
    let https = "https://github.com/user/repo";
    let ssh = convert_https_to_ssh(https).unwrap();
    assert_eq!(ssh, "git@github.com:user/repo.git");
}

#[test]
fn test_convert_https_to_ssh_gitlab() {
    let https = "https://gitlab.com/group/subgroup/repo.git";
    let ssh = convert_https_to_ssh(https).unwrap();
    assert_eq!(ssh, "git@gitlab.com:group/subgroup/repo.git");
}

#[test]
fn test_convert_https_to_ssh_bitbucket() {
    let https = "https://bitbucket.org/user/repo.git";
    let ssh = convert_https_to_ssh(https).unwrap();
    assert_eq!(ssh, "git@bitbucket.org:user/repo.git");
}

#[test]
fn test_convert_invalid_ssh() {
    assert!(convert_ssh_to_https("not-a-url").is_err());
    assert!(convert_ssh_to_https("https://github.com/user/repo").is_err());
}

#[test]
fn test_convert_invalid_https() {
    assert!(convert_https_to_ssh("not-a-url").is_err());
    assert!(convert_https_to_ssh("git@github.com:user/repo").is_err());
}

#[test]
fn test_roundtrip_conversion() {
    let original_ssh = "git@github.com:user/repo.git";
    let https = convert_ssh_to_https(original_ssh).unwrap();
    let back_to_ssh = convert_https_to_ssh(&https).unwrap();
    assert_eq!(back_to_ssh, original_ssh);
}

#[test]
fn ssh_scheme_form_keeps_its_git_suffix() {
    assert_eq!(
        convert_ssh_to_https("ssh://git@github.com/user/repo.git").unwrap(),
        "https://github.com/user/repo.git.git"
    );
}

#[test]
fn empty_host_or_path_is_refused() {
    assert_eq!(parse_git_url("https:///repo"), Err(GitUrlError::InvalidGitUrl));
    assert_eq!(parse_git_url("https://host/"), Err(GitUrlError::InvalidGitUrl));
    assert_eq!(parse_git_url("git@:repo"), Err(GitUrlError::InvalidGitUrl));
    assert_eq!(convert_https_to_ssh("https://host"), Err(GitUrlError::InvalidHttpsUrl));
    assert_eq!(convert_ssh_to_https("git@host:"), Err(GitUrlError::InvalidSshUrl));
}

#[test]
fn line_break_in_path_is_refused() {
    assert!(parse_git_url("https://host/a\nb").is_err());
}

#[test]
fn bare_git_suffix_is_kept_as_path() {
    assert_eq!(convert_https_to_ssh("https://host/.git").unwrap(), "git@host:.git.git");
}

#[test]
fn host_stops_at_first_separator() {
    assert_eq!(
        convert_https_to_ssh("http://example.com/a/b/c").unwrap(),
        "git@example.com:a/b/c.git"
    );
    assert_eq!(
        convert_ssh_to_https("git@example.com:a:b").unwrap(),
        "https://example.com/a:b.git"
    );
}
