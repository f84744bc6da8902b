use mcastfs::dispatch::{
    classify, dispatch, readable_arguments, respond, CommandKind, FileEntry, FileProbe,
};

fn strings(items: &[&str]) -> Vec<String> {
    items.iter().map(|s| s.to_string()).collect()
}

fn entry(path: &str, size: u64) -> FileEntry {
    FileEntry { path: path.to_string(), size }
}

fn probe(exists: bool, contents: Option<&str>) -> FileProbe {
    FileProbe { exists, contents: contents.map(|c| c.to_string()) }
}

fn host() -> Option<String> {
    Some("box".to_string())
}

#[test]
fn commands_are_told_apart_by_name() {
    assert_eq!(classify(&"ls".to_string()), CommandKind::List);
    assert_eq!(classify(&"cat".to_string()), CommandKind::Read);
    assert_eq!(classify(&"rm".to_string()), CommandKind::Unknown);
    assert_eq!(classify(&"LS".to_string()), CommandKind::Unknown);
    assert_eq!(classify(&"".to_string()), CommandKind::Unknown);
}

#[test]
fn a_listing_of_one_file() {
    let text = respond(
        &strings(&["ls"]),
        &strings(&["/srv/share"]),
        &host(),
        &vec![entry("/srv/share/a.txt", 2048)],
        &Vec::new(),
    );
    assert_eq!(text, "From host box:\n2.0 KB - \"/srv/share/a.txt\"\n");
}

#[test]
fn a_listing_has_one_line_for_each_entry() {
    let listing = vec![
        entry("/srv/share", 4096),
        entry("/srv/share/a.txt", 2048),
        entry("/srv/share/b.bin", 512),
        entry("/srv/share/c", 0),
    ];
    let text = respond(&strings(&["ls"]), &strings(&["/srv/share"]), &host(), &listing, &Vec::new());
    let lines: Vec<&str> = text.lines().collect();
    assert_eq!(
        lines,
        vec![
            "From host box:",
            "4.1 KB - \"/srv/share\"",
            "2.0 KB - \"/srv/share/a.txt\"",
            "512B - \"/srv/share/b.bin\"",
            "0B - \"/srv/share/c\"",
        ]
    );
    assert!(text.ends_with('\n'));
}

#[test]
fn an_empty_listing_is_the_header_alone() {
    let text = respond(&strings(&["ls"]), &Vec::new(), &host(), &Vec::new(), &Vec::new());
    assert_eq!(text, "From host box:\n");
}

#[test]
fn an_unknown_host_reads_err() {
    let text = respond(&strings(&["ls"]), &Vec::new(), &None, &Vec::new(), &Vec::new());
    assert_eq!(text, "From host ERR:\n");
}

#[test]
fn a_read_of_a_trusted_file_sends_its_contents() {
    let text = respond(
        &strings(&["cat", "/srv/share/a.txt"]),
        &strings(&["/srv/share"]),
        &host(),
        &Vec::new(),
        &vec![probe(true, Some("hello\nworld"))],
    );
    assert_eq!(text, "From host box:\nhello\nworld\n");
}

#[test]
fn a_read_outside_the_roots_is_the_header_alone() {
    let baseline = respond(&strings(&["ls"]), &Vec::new(), &host(), &Vec::new(), &Vec::new());
    let text = respond(
        &strings(&["cat", "/etc/passwd"]),
        &strings(&["/srv/share"]),
        &host(),
        &Vec::new(),
        &vec![probe(true, Some("root:x:0:0:root:/root:/bin/sh"))],
    );
    assert_eq!(text, "From host box:\n");
    assert_eq!(text, baseline);
}

#[test]
fn a_read_skips_what_is_untrusted_missing_or_unread() {
    let text = respond(
        &strings(&["cat", "/srv/share/a", "/etc/b", "/srv/share/c", "/srv/share/d", "/srv/share/e", "/srv/share/f"]),
        &strings(&["/srv/share"]),
        &host(),
        &Vec::new(),
        &vec![
            probe(true, Some("A")),
            probe(true, Some("B")),
            probe(false, Some("C")),
            probe(true, None),
            probe(true, Some("E")),
        ],
    );
    assert_eq!(text, "From host box:\nA\nE\n");
}

#[test]
fn a_read_without_a_path_is_answered_with_a_complaint() {
    let text = respond(&strings(&["cat"]), &strings(&["/srv/share"]), &host(), &Vec::new(), &Vec::new());
    assert_eq!(
        text,
        "From host box:\nErr: \"cat\" command requires at least one argument to print out.\n"
    );
}

#[test]
fn an_unknown_command_is_named_in_the_response() {
    let text = respond(&strings(&["frob", "x y"]), &Vec::new(), &host(), &Vec::new(), &Vec::new());
    assert_eq!(text, "From host box:\nunknown client_args=[\"frob\", \"x y\"]");
}

#[test]
fn dispatch_gives_the_bytes_of_the_text() {
    let command = strings(&["ls"]);
    let roots = strings(&["/srv/share"]);
    let listing = vec![entry("/srv/share/gr\u{fc}n.txt", 2048)];
    let bytes = dispatch(&command, &roots, &host(), &listing, &Vec::new());
    assert_eq!(
        bytes,
        Some("From host box:\n2.0 KB - \"/srv/share/gr\u{fc}n.txt\"\n".as_bytes().to_vec())
    );
}

#[test]
fn an_empty_command_gets_no_response() {
    assert_eq!(dispatch(&Vec::new(), &strings(&["/srv/share"]), &host(), &Vec::new(), &Vec::new()), None);
}

#[test]
fn readable_arguments_marks_each_path_argument() {
    let command = strings(&["cat", "/", "/no/such/file/anywhere", "/"]);
    assert_eq!(readable_arguments(&command, &strings(&["/"])), vec![true, false, true]);
    assert_eq!(readable_arguments(&command, &strings(&["/srv/share"])), vec![false, false, false]);
    assert_eq!(readable_arguments(&strings(&["cat"]), &strings(&["/"])), Vec::<bool>::new());
    assert_eq!(readable_arguments(&Vec::new(), &strings(&["/"])), Vec::<bool>::new());
}
