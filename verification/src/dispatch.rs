//! Turning a decoded command into the text of the response.
//!
//! The dispatcher reads no disk. Whoever calls it has asked the filesystem
//! first and hands over what it said: for a listing, the entries found under
//! the trusted roots with their sizes; for a read, one probe per path
//! argument. What goes into the response is decided here, and contents reach
//! it only for a path that the trust check lets through.

use crate::guard::{file_is_under_trusted_dir, has_trusted_prefix, is_trusted, trusted};
use crate::size::{push_size, size_text};
use crate::text::{joined, lemma_joined_take, words};
use vstd::prelude::*;
use vstd::string::{StrSliceExecFns, StringExecFns};
use vstd::utf8::encode_utf8;

verus! {

/// One entry of a listing: a path and the size of what it names, in bytes.
pub struct FileEntry {
    pub path: String,
    pub size: u64,
}

/// What the filesystem said of one path argument of a read: whether the path
/// exists, and its contents where they were read.
pub struct FileProbe {
    pub exists: bool,
    pub contents: Option<String>,
}

/// The commands that a server knows.
#[derive(Clone, Copy, Debug, PartialEq, Eq, Structural)]
pub enum CommandKind {
    /// `ls`: list what lies under the trusted roots.
    List,
    /// `cat`: send the contents of the named files.
    Read,
    /// Anything else.
    Unknown,
}

/// The text that `{:?}` formatting writes for a list of strings.
pub uninterp spec fn debug_text(list: Seq<Seq<char>>) -> Seq<char>;

/// The kind of the command with the given name.
pub open spec fn kind_of(name: Seq<char>) -> CommandKind {
    if name == "ls"@ {
        CommandKind::List
    } else if name == "cat"@ {
        CommandKind::Read
    } else {
        CommandKind::Unknown
    }
}

/// The host's name as the header shows it: `ERR` where none is known.
pub open spec fn host_text(hostname: Option<String>) -> Seq<char> {
    match hostname {
        Some(name) => name@,
        None => "ERR"@,
    }
}

/// The line that opens every response and names the responding host.
pub open spec fn header(host: Seq<char>) -> Seq<char> {
    "From host "@ + host + ":\n"@
}

/// The line of a listing for one entry.
pub open spec fn entry_line(entry: FileEntry) -> Seq<char> {
    size_text(entry.size as nat) + " - \""@ + entry.path@ + "\"\n"@
}

/// The lines of a listing, one for each entry, in order.
pub open spec fn list_lines(listing: Seq<FileEntry>) -> Seq<Seq<char>> {
    Seq::new(listing.len(), |i: int| entry_line(listing[i]))
}

/// What a read contributes for one path: the contents and a newline where
/// the path is trusted and was read, nothing otherwise.
pub open spec fn read_part(path: Seq<char>, probe: FileProbe, roots: Seq<Seq<char>>) -> Seq<char> {
    if trusted(probe.exists, path, roots) {
        match probe.contents {
            Some(contents) => contents@ + "\n"@,
            None => Seq::<char>::empty(),
        }
    } else {
        Seq::<char>::empty()
    }
}

/// What a read contributes for each path argument, in order. The probe of
/// argument `i + 1` is `probes[i]`; an argument without a probe gives nothing.
pub open spec fn read_parts(
    command: Seq<Seq<char>>,
    roots: Seq<Seq<char>>,
    probes: Seq<FileProbe>,
) -> Seq<Seq<char>> {
    Seq::new(
        (command.len() - 1) as nat,
        |i: int|
            if i < probes.len() {
                read_part(command[i + 1], probes[i], roots)
            } else {
                Seq::<char>::empty()
            },
    )
}

/// The complaint of a read without a path argument.
pub open spec fn missing_argument() -> Seq<char> {
    "Err: \"cat\" command requires at least one argument to print out.\n"@
}

/// What follows the header in the response to `command`.
pub open spec fn body(
    command: Seq<Seq<char>>,
    roots: Seq<Seq<char>>,
    listing: Seq<FileEntry>,
    probes: Seq<FileProbe>,
) -> Seq<char>
    recommends
        command.len() >= 1,
{
    match kind_of(command[0]) {
        CommandKind::List => joined(list_lines(listing)),
        CommandKind::Read => if command.len() < 2 {
            missing_argument()
        } else {
            joined(read_parts(command, roots, probes))
        },
        CommandKind::Unknown => "unknown client_args="@ + debug_text(command),
    }
}

/// The whole text of the response to `command`.
pub open spec fn response_text(
    command: Seq<Seq<char>>,
    roots: Seq<Seq<char>>,
    host: Seq<char>,
    listing: Seq<FileEntry>,
    probes: Seq<FileProbe>,
) -> Seq<char>
    recommends
        command.len() >= 1,
{
    header(host) + body(command, roots, listing, probes)
}

/// `{:?}` formatting of a list of strings: the text is a function of the
/// strings alone.
#[verifier::external_body]
fn debug_list(list: &Vec<String>) -> (r: String)
    ensures
        r@ == debug_text(words(list@)),
{
    format!("{:?}", list)
}

/// The kind of the command called `name`.
pub fn classify(name: &String) -> (kind: CommandKind)
    ensures
        kind == kind_of(name@),
{
    let list = String::from_str("ls");
    let read = String::from_str("cat");
    if *name == list {
        CommandKind::List
    } else if *name == read {
        CommandKind::Read
    } else {
        CommandKind::Unknown
    }
}

/// Appends the header line to `out`.
pub fn push_header(out: &mut String, hostname: &Option<String>)
    ensures
        final(out)@ == old(out)@ + header(host_text(*hostname)),
{
    out.append("From host ");
    match hostname {
        Some(name) => out.append(name.as_str()),
        None => out.append("ERR"),
    }
    out.append(":\n");
    assert(final(out)@ =~= old(out)@ + header(host_text(*hostname)));
}

/// Appends the listing's line for `entry` to `out`.
pub fn push_entry_line(out: &mut String, entry: &FileEntry)
    ensures
        final(out)@ == old(out)@ + entry_line(*entry),
{
    push_size(out, entry.size);
    out.append(" - \"");
    out.append(entry.path.as_str());
    out.append("\"\n");
    assert(final(out)@ =~= old(out)@ + entry_line(*entry));
}

/// Appends one line for each entry of `listing` to `out`, in order.
pub fn push_listing(out: &mut String, listing: &Vec<FileEntry>)
    ensures
        final(out)@ == old(out)@ + joined(list_lines(listing@)),
{
    let ghost lines = list_lines(listing@);
    let mut i: usize = 0;
    assert(out@ =~= old(out)@ + joined(lines.take(0)));
    while i < listing.len()
        invariant
            i <= listing.len(),
            lines == list_lines(listing@),
            out@ == old(out)@ + joined(lines.take(i as int)),
        decreases listing.len() - i,
    {
        push_entry_line(out, &listing[i]);
        proof {
            lemma_joined_take(lines, i as int);
            assert(out@ =~= old(out)@ + joined(lines.take(i + 1)));
        }
        i += 1;
    }
    assert(lines.take(i as int) =~= lines);
}

/// For each path argument of `command`, in order, whether its file may be
/// opened: the filesystem is asked whether the path exists, and a trusted
/// root must be its literal prefix. Whatever the filesystem answers, no
/// argument outside the roots is marked.
pub fn readable_arguments(command: &Vec<String>, roots: &Vec<String>) -> (marks: Vec<bool>)
    ensures
        command.len() == 0 ==> marks.len() == 0,
        command.len() >= 1 ==> marks.len() == command.len() - 1,
        forall|i: int|
            0 <= i < marks.len() && marks[i] ==> has_trusted_prefix(
                #[trigger] words(command@)[i + 1],
                words(roots@),
            ),
{
    let mut marks: Vec<bool> = Vec::new();
    let mut i: usize = 1;
    while i < command.len()
        invariant
            1 <= i,
            i <= command.len() || i == 1,
            marks.len() == i - 1,
            forall|j: int|
                0 <= j < marks.len() && marks[j] ==> has_trusted_prefix(
                    #[trigger] words(command@)[j + 1],
                    words(roots@),
                ),
        decreases command.len() - i,
    {
        let mark = file_is_under_trusted_dir(&command[i], roots);
        marks.push(mark);
        i += 1;
    }
    marks
}

/// Appends to `out` what a read contributes for each path argument of
/// `command`: the contents of those that are trusted and were read.
pub fn push_reads(
    out: &mut String,
    command: &Vec<String>,
    roots: &Vec<String>,
    probes: &Vec<FileProbe>,
)
    requires
        command.len() >= 1,
    ensures
        final(out)@ == old(out)@ + joined(read_parts(words(command@), words(roots@), probes@)),
{
    let ghost parts = read_parts(words(command@), words(roots@), probes@);
    let mut i: usize = 1;
    assert(out@ =~= old(out)@ + joined(parts.take(0)));
    while i < command.len()
        invariant
            1 <= i <= command.len(),
            parts == read_parts(words(command@), words(roots@), probes@),
            out@ == old(out)@ + joined(parts.take(i - 1)),
        decreases command.len() - i,
    {
        if i - 1 < probes.len() {
            let probe = &probes[i - 1];
            if is_trusted(probe.exists, &command[i], roots) {
                match &probe.contents {
                    Some(contents) => {
                        out.append(contents.as_str());
                        out.append("\n");
                    },
                    None => {},
                }
            }
        }
        proof {
            lemma_joined_take(parts, i - 1);
            assert(out@ =~= old(out)@ + joined(parts.take(i - 1 + 1)));
        }
        i += 1;
    }
    assert(parts.take(i - 1) =~= parts);
}

/// The text of the response to a command.
///
/// `listing` holds what enumerating the trusted roots found and is read for
/// a listing only; `probes` holds what the filesystem said of the path
/// arguments and is read for a read only.
pub fn respond(
    command: &Vec<String>,
    roots: &Vec<String>,
    hostname: &Option<String>,
    listing: &Vec<FileEntry>,
    probes: &Vec<FileProbe>,
) -> (text: String)
    requires
        command.len() >= 1,
    ensures
        text@ == response_text(
            words(command@),
            words(roots@),
            host_text(*hostname),
            listing@,
            probes@,
        ),
{
    let mut text = String::new();
    push_header(&mut text, hostname);
    match classify(&command[0]) {
        CommandKind::List => {
            push_listing(&mut text, listing);
        },
        CommandKind::Read => {
            if command.len() < 2 {
                text.append("Err: \"cat\" command requires at least one argument to print out.\n");
            } else {
                push_reads(&mut text, command, roots, probes);
            }
        },
        CommandKind::Unknown => {
            text.append("unknown client_args=");
            let shown = debug_list(command);
            text.append(shown.as_str());
        },
    }
    assert(text@ =~= response_text(
        words(command@),
        words(roots@),
        host_text(*hostname),
        listing@,
        probes@,
    ));
    text
}

/// The response to a command, as the bytes to send: the UTF-8 form of the
/// response text. An empty command is no command and gets no response.
pub fn dispatch(
    command: &Vec<String>,
    roots: &Vec<String>,
    hostname: &Option<String>,
    listing: &Vec<FileEntry>,
    probes: &Vec<FileProbe>,
) -> (response: Option<Vec<u8>>)
    ensures
        match response {
            Some(bytes) => command.len() >= 1 && bytes@ == encode_utf8(
                response_text(
                    words(command@),
                    words(roots@),
                    host_text(*hostname),
                    listing@,
                    probes@,
                ),
            ),
            None => command.len() == 0,
        },
{
    if command.len() < 1 {
        return None;
    }
    let text = respond(command, roots, hostname, listing, probes);
    Some(text.as_str().as_bytes_vec())
}

/// Joining parts that are all empty gives the empty text.
pub proof fn lemma_joined_empty_parts(parts: Seq<Seq<char>>)
    requires
        forall|i: int| 0 <= i < parts.len() ==> (#[trigger] parts[i]).len() == 0,
    ensures
        joined(parts) == Seq::<char>::empty(),
    decreases parts.len(),
{
    if parts.len() > 0 {
        lemma_joined_empty_parts(parts.drop_last());
        assert(joined(parts) =~= Seq::<char>::empty());
    }
}

/// A listing answers with the header and then exactly one line for each
/// entry, in order, each made of the entry's size text and its quoted path.
pub proof fn lemma_list_response(
    command: Seq<Seq<char>>,
    roots: Seq<Seq<char>>,
    host: Seq<char>,
    listing: Seq<FileEntry>,
    probes: Seq<FileProbe>,
)
    requires
        command.len() >= 1,
        kind_of(command[0]) == CommandKind::List,
    ensures
        response_text(command, roots, host, listing, probes) == header(host) + joined(
            list_lines(listing),
        ),
        list_lines(listing).len() == listing.len(),
        forall|i: int|
            0 <= i < listing.len() ==> (#[trigger] list_lines(listing)[i]) == size_text(
                listing[i].size as nat,
            ) + " - \""@ + listing[i].path@ + "\"\n"@,
{
}

/// A read whose path arguments all lie outside the trusted roots answers
/// with the header alone, whatever exists on disk and whatever was read.
pub proof fn lemma_untrusted_read_is_header_only(
    command: Seq<Seq<char>>,
    roots: Seq<Seq<char>>,
    host: Seq<char>,
    listing: Seq<FileEntry>,
    probes: Seq<FileProbe>,
)
    requires
        command.len() >= 2,
        kind_of(command[0]) == CommandKind::Read,
        forall|i: int| 1 <= i < command.len() ==> !has_trusted_prefix(#[trigger] command[i], roots),
    ensures
        response_text(command, roots, host, listing, probes) == header(host),
{
    let parts = read_parts(command, roots, probes);
    assert forall|i: int| 0 <= i < parts.len() implies (#[trigger] parts[i]).len() == 0 by {
        assert(!has_trusted_prefix(command[i + 1], roots));
    }
    lemma_joined_empty_parts(parts);
    assert(header(host) + Seq::<char>::empty() =~= header(host));
}

/// A read discloses contents only of paths that exist and lie textually
/// under a trusted root: for any other path its part of the response is empty.
pub proof fn lemma_read_discloses_trusted_only(
    path: Seq<char>,
    probe: FileProbe,
    roots: Seq<Seq<char>>,
)
    ensures
        !trusted(probe.exists, path, roots) ==> read_part(path, probe, roots)
            == Seq::<char>::empty(),
{
}

} // verus!
