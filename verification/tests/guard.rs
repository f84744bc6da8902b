use mcastfs::guard::{file_is_under_trusted_dir, is_trusted, under_trusted_root};

fn strings(items: &[&str]) -> Vec<String> {
    items.iter().map(|s| s.to_string()).collect()
}

#[test]
fn a_path_under_a_root_is_trusted_when_it_exists() {
    let roots = strings(&["/srv/share"]);
    assert!(is_trusted(true, &"/srv/share/a.txt".to_string(), &roots));
    assert!(is_trusted(true, &"/srv/share".to_string(), &roots));
}

#[test]
fn a_missing_path_is_never_trusted() {
    let roots = strings(&["/srv/share", "/"]);
    assert!(!is_trusted(false, &"/srv/share/a.txt".to_string(), &roots));
    assert!(!is_trusted(false, &"/".to_string(), &roots));
}

#[test]
fn a_path_without_a_root_as_prefix_is_never_trusted() {
    let roots = strings(&["/srv/share"]);
    assert!(!is_trusted(true, &"/etc/passwd".to_string(), &roots));
    assert!(!is_trusted(true, &"/srv/shar".to_string(), &roots));
    assert!(!is_trusted(true, &"srv/share/a.txt".to_string(), &roots));
    assert!(!is_trusted(true, &"/srv/share/a.txt".to_string(), &Vec::new()));
}

#[test]
fn the_check_is_textual() {
    let roots = strings(&["/srv/share"]);
    assert!(is_trusted(true, &"/srv/shared/secret".to_string(), &roots));
    assert!(is_trusted(true, &"/srv/share/../../etc/passwd".to_string(), &roots));
}

#[test]
fn any_root_may_match() {
    let roots = strings(&["/srv/share", "/home/me/docs"]);
    assert!(under_trusted_root(&"/home/me/docs/x".to_string(), &roots));
    assert!(under_trusted_root(&"/srv/share/x".to_string(), &roots));
    assert!(!under_trusted_root(&"/home/me".to_string(), &roots));
    assert!(under_trusted_root(&"anything".to_string(), &strings(&[""])));
}

#[test]
fn the_probe_finds_what_exists() {
    assert!(file_is_under_trusted_dir(&"/".to_string(), &strings(&["/"])));
    assert!(!file_is_under_trusted_dir(&"/".to_string(), &strings(&["/srv/share"])));
}

#[test]
fn the_probe_refuses_what_does_not_exist() {
    let missing = "/no/such/directory/anywhere/at-all.txt".to_string();
    assert!(!file_is_under_trusted_dir(&missing, &strings(&["/"])));
    assert!(!file_is_under_trusted_dir(&missing, &strings(&["/no/such"])));
}
