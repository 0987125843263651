use vstd::prelude::*;
use vstd::string::StringExecFns;
use crate::protocol::{map_speed, speed_code};
use crate::text::{
    occurs_at, occurs_at_exec,
    chars_of, contains_chars, contains_text, decimal, is_space_exec, lemma_token_len_bound,
    parse_u32, parse_u32_at, push_decimal, push_signed_decimal, push_str, signed_decimal, token_len,
    tokens,
};
use crate::UsbSpeed;

verus! {

/// Why no virtual port could be found.
#[derive(Debug, Clone, Copy, PartialEq, Eq)]
pub enum VhciError {
    /// No status file lists a free port, or no status file could be read.
    NoFreePort,
}

impl VhciError {
    pub open spec fn text(self) -> Seq<char> {
        match self {
            VhciError::NoFreePort => "No free VHCI ports available or status file missing/unreadable"@,
        }
    }

    /// The message that tells a user of the error.
    pub fn message(&self) -> (s: String)
        ensures
            s@ == self.text(),
    {
        match self {
            VhciError::NoFreePort => String::from_str("No free VHCI ports available or status file missing/unreadable"),
        }
    }
}

/// Whether a directory entry named `name` is a status file of the controller: `status`, or a
/// name that starts with `status.`.
pub open spec fn is_status_file(name: Seq<char>) -> bool {
    name == "status"@ || occurs_at(name, "status."@, 0)
}

/// The status files among the directory entries `names`, in their order.
pub open spec fn status_entries(names: Seq<Seq<char>>) -> Seq<Seq<char>>
    decreases names.len(),
{
    if names.len() == 0 {
        Seq::empty()
    } else if is_status_file(names.last()) {
        status_entries(names.drop_last()).push(names.last())
    } else {
        status_entries(names.drop_last())
    }
}

/// The status files to read, given the entries `names` of the controller's directory: those
/// that are status files, in their order, or `status` where there is none.
pub open spec fn status_files(names: Seq<Seq<char>>) -> Seq<Seq<char>> {
    if status_entries(names).len() == 0 { seq!["status"@] } else { status_entries(names) }
}

/// Whether the directory entry `name` is a status file.
pub fn is_status_file_name(name: &str) -> (b: bool)
    ensures
        b == is_status_file(name@),
{
    let cs = chars_of(name);
    let exact = chars_of("status");
    let prefix = chars_of("status.");
    proof {
        reveal_strlit("status");
        reveal_strlit("status.");
    }
    let is_exact = cs.len() == 6 && occurs_at_exec(&cs, &exact, 0);
    proof {
        if cs@ == "status"@ {
            assert(cs@.subrange(0, 6) =~= cs@);
        }
        if is_exact {
            assert(cs@ =~= cs@.subrange(0, 6));
        }
    }
    is_exact || occurs_at_exec(&cs, &prefix, 0)
}

/// The status files to read among the entries `names` of the controller's directory.
pub fn status_file_names(names: &Vec<String>) -> (r: Vec<String>)
    ensures
        r@.map_values(|f: String| f@) == status_files(names@.map_values(|f: String| f@)),
{
    let ghost all = names@.map_values(|f: String| f@);
    let mut r: Vec<String> = Vec::new();
    let mut i: usize = 0;
    while i < names.len()
        invariant
            i <= names@.len(),
            all == names@.map_values(|f: String| f@),
            r@.map_values(|f: String| f@) == status_entries(all.take(i as int)),
        decreases names@.len() - i,
    {
        let ghost before = r@.map_values(|f: String| f@);
        assert(all.take(i + 1).drop_last() =~= all.take(i as int));
        assert(all.take(i + 1).last() == names@[i as int]@);
        if is_status_file_name(names[i].as_str()) {
            let name = names[i].clone();
            r.push(name);
            assert(r@.map_values(|f: String| f@) =~= before.push(names@[i as int]@));
        }
        i = i + 1;
    }
    assert(all.take(i as int) =~= all);
    if r.len() == 0 {
        let mut fallback: Vec<String> = Vec::new();
        fallback.push(String::from_str("status"));
        assert(fallback@.map_values(|f: String| f@) =~= seq!["status"@]);
        fallback
    } else {
        r
    }
}

/// The number of characters before the first line feed of `s`, or all of them.
pub open spec fn newline_index(s: Seq<char>) -> nat
    decreases s.len(),
{
    if s.len() == 0 || s[0] == '\n' { 0 } else { 1 + newline_index(s.drop_first()) }
}

/// The first line ends at a line feed, or at the end of the text, and holds none.
pub proof fn lemma_newline_index_bound(s: Seq<char>)
    ensures
        newline_index(s) <= s.len(),
        newline_index(s) < s.len() ==> s[newline_index(s) as int] == '\n',
        forall|i: int| 0 <= i < newline_index(s) ==> s[i] != '\n',
    decreases s.len(),
{
    if s.len() > 0 && s[0] != '\n' {
        lemma_newline_index_bound(s.drop_first());
        assert forall|i: int| 0 <= i < newline_index(s) implies s[i] != '\n' by {
            if i > 0 {
                assert(s[i] == s.drop_first()[i - 1]);
            }
        }
    }
}

/// The lines of `s` (`str::lines`): split at line feeds, a carriage return before a line feed
/// removed, no empty line after a final line feed.
pub open spec fn split_lines(s: Seq<char>) -> Seq<Seq<char>>
    decreases s.len(),
{
    if s.len() == 0 {
        Seq::empty()
    } else {
        proof {
            lemma_newline_index_bound(s);
        }
        let k = newline_index(s);
        if k >= s.len() {
            seq![s]
        } else {
            let raw = s.take(k as int);
            let line = if raw.len() > 0 && raw.last() == '\r' { raw.drop_last() } else { raw };
            seq![line] + split_lines(s.skip(k + 1 as int))
        }
    }
}

/// The free port that one line of a VHCI status file announces. Heading lines, which hold
/// `hub`, `port` or `sta`, announce none; a port line has at least seven words, the port number
/// second, the status third and the socket fourth from last but one (sixth); the port is free
/// where its status is 4 (no device) or 5 (not assigned), or where it has no socket.
pub open spec fn line_free_port(line: Seq<char>) -> Option<u32> {
    if contains_text(line, "hub"@) || contains_text(line, "port"@) || contains_text(line, "sta"@) {
        None
    } else {
        let parts = tokens(line);
        if parts.len() >= 7 {
            match (parse_u32(parts[1]), parse_u32(parts[2]), parse_u32(parts[5])) {
                (Some(port), Some(status), Some(sockfd)) => if status == 4 || status == 5 || sockfd == 0 {
                    Some(port)
                } else {
                    None
                },
                _ => None,
            }
        } else {
            None
        }
    }
}

/// One line of a status file announces a free port exactly when it is a port line: it holds
/// none of `hub`, `port` and `sta`, and has at least seven words whose second, third and sixth
/// parse as numbers; then it announces its second word, the port, where its third word, the
/// status, is 4 or 5, or its sixth word, the socket, is 0, whatever its other words are.
pub proof fn lemma_status_line(line: Seq<char>)
    ensures
        ({
            let heading = contains_text(line, "hub"@) || contains_text(line, "port"@) || contains_text(line, "sta"@);
            let w = tokens(line);
            &&& heading ==> line_free_port(line) is None
            &&& !heading && w.len() < 7 ==> line_free_port(line) is None
            &&& !heading && w.len() >= 7 && parse_u32(w[1]) is Some && parse_u32(w[2]) is Some && parse_u32(w[5]) is Some
                ==> line_free_port(line) == if parse_u32(w[2])->0 == 4 || parse_u32(w[2])->0 == 5 || parse_u32(w[5])->0 == 0 {
                    Some(parse_u32(w[1])->0)
                } else {
                    None
                }
            &&& !heading && w.len() >= 7 && (parse_u32(w[1]) is None || parse_u32(w[2]) is None || parse_u32(w[5]) is None)
                ==> line_free_port(line) is None
        }),
{
}

/// The first free port that the lines announce.
pub open spec fn first_free_port(lines: Seq<Seq<char>>) -> Option<u32>
    decreases lines.len(),
{
    if lines.len() == 0 {
        None
    } else {
        match line_free_port(lines[0]) {
            Some(p) => Some(p),
            None => first_free_port(lines.drop_first()),
        }
    }
}

/// The first free port that a status file announces.
pub open spec fn status_free_port(content: Seq<char>) -> Option<u32> {
    first_free_port(split_lines(content))
}

/// The first free port that the status files announce, in the order given.
pub open spec fn files_free_port(files: Seq<Seq<char>>) -> Option<u32>
    decreases files.len(),
{
    if files.len() == 0 {
        None
    } else {
        match status_free_port(files[0]) {
            Some(p) => Some(p),
            None => files_free_port(files.drop_first()),
        }
    }
}

fn copy_range(s: &Vec<char>, lo: usize, hi: usize) -> (r: Vec<char>)
    requires
        lo <= hi <= s@.len(),
    ensures
        r@ == s@.subrange(lo as int, hi as int),
{
    let mut r: Vec<char> = Vec::new();
    let mut i = lo;
    while i < hi
        invariant
            lo <= i <= hi <= s@.len(),
            r@ == s@.subrange(lo as int, i as int),
        decreases hi - i,
    {
        r.push(s[i]);
        i = i + 1;
        assert(s@.subrange(lo as int, i as int) =~= s@.subrange(lo as int, i - 1).push(s@[i - 1]));
    }
    r
}

/// The boundaries of the whitespace-separated words of `s`.
fn token_bounds(s: &Vec<char>) -> (v: Vec<(usize, usize)>)
    ensures
        v@.len() == tokens(s@).len(),
        forall|i: int| 0 <= i < v@.len() ==> {
            &&& (#[trigger] v@[i]).0 <= v@[i].1 <= s@.len()
            &&& s@.subrange(v@[i].0 as int, v@[i].1 as int) == tokens(s@)[i]
        },
{
    let n = s.len();
    let mut v: Vec<(usize, usize)> = Vec::new();
    let ghost done: Seq<Seq<char>> = Seq::empty();
    let mut p: usize = 0;
    assert(s@.skip(0) =~= s@);
    while p < n
        invariant
            n == s@.len(),
            p <= n,
            tokens(s@) == done + tokens(s@.skip(p as int)),
            v@.len() == done.len(),
            forall|i: int| 0 <= i < v@.len() ==> {
                &&& (#[trigger] v@[i]).0 <= v@[i].1 <= s@.len()
                &&& s@.subrange(v@[i].0 as int, v@[i].1 as int) == done[i]
            },
        decreases n - p,
    {
        let ghost rest = s@.skip(p as int);
        if is_space_exec(s[p]) {
            assert(rest.drop_first() =~= s@.skip(p + 1));
            p = p + 1;
        } else {
            let start = p;
            let mut q = p;
            proof {
                lemma_token_len_bound(rest);
            }
            while q < n && !is_space_exec(s[q])
                invariant
                    n == s@.len(),
                    start <= q <= n,
                    rest == s@.skip(start as int),
                    token_len(rest) == (q - start) + token_len(s@.skip(q as int)),
                decreases n - q,
            {
                assert(s@.skip(q as int).drop_first() =~= s@.skip(q + 1));
                q = q + 1;
            }
            assert(token_len(s@.skip(q as int)) == 0);
            let ghost tok = rest.take(token_len(rest) as int);
            assert(tok =~= s@.subrange(start as int, q as int));
            assert(rest.skip(token_len(rest) as int) =~= s@.skip(q as int));
            assert(tokens(rest) == seq![tok] + tokens(s@.skip(q as int)));
            v.push((start, q));
            proof {
                done = done.push(tok);
            }
            assert(tokens(s@) =~= done + tokens(s@.skip(q as int)));
            p = q;
        }
    }
    assert(tokens(s@.skip(p as int)) =~= Seq::<Seq<char>>::empty());
    assert(done =~= tokens(s@));
    v
}

/// The free port that one line of a status file announces.
pub fn free_port_of_line(line: &Vec<char>) -> (r: Option<u32>)
    ensures
        r == line_free_port(line@),
        ({
            let heading = contains_text(line@, "hub"@) || contains_text(line@, "port"@) || contains_text(line@, "sta"@);
            let w = tokens(line@);
            &&& heading ==> r is None
            &&& !heading && w.len() < 7 ==> r is None
            &&& !heading && w.len() >= 7 && parse_u32(w[1]) is Some && parse_u32(w[2]) is Some && parse_u32(w[5]) is Some
                ==> r == if parse_u32(w[2])->0 == 4 || parse_u32(w[2])->0 == 5 || parse_u32(w[5])->0 == 0 {
                    Some(parse_u32(w[1])->0)
                } else {
                    None
                }
            &&& !heading && w.len() >= 7 && (parse_u32(w[1]) is None || parse_u32(w[2]) is None || parse_u32(w[5]) is None)
                ==> r is None
        }),
{
    if contains_chars(line, &chars_of("hub")) || contains_chars(line, &chars_of("port"))
        || contains_chars(line, &chars_of("sta")) {
        return None;
    }
    let parts = token_bounds(line);
    if parts.len() < 7 {
        return None;
    }
    let (a1, b1) = parts[1];
    let (a2, b2) = parts[2];
    let (a5, b5) = parts[5];
    let port = parse_u32_at(line, a1, b1);
    let status = parse_u32_at(line, a2, b2);
    let sockfd = parse_u32_at(line, a5, b5);
    match (port, status, sockfd) {
        (Some(port), Some(status), Some(sockfd)) => {
            if status == 4 || status == 5 || sockfd == 0 {
                Some(port)
            } else {
                None
            }
        },
        _ => None,
    }
}

/// The first free port that the status file `content` announces.
pub fn free_port_in_status(content: &str) -> (r: Option<u32>)
    ensures
        r == status_free_port(content@),
{
    let cs = chars_of(content);
    let n = cs.len();
    let mut start: usize = 0;
    assert(cs@.skip(0) =~= cs@);
    while start < n
        invariant
            n == cs@.len(),
            start <= n,
            cs@ == content@,
            status_free_port(content@) == first_free_port(split_lines(cs@.skip(start as int))),
        decreases n - start,
    {
        let ghost rest = cs@.skip(start as int);
        proof {
            lemma_newline_index_bound(rest);
        }
        let mut k = start;
        while k < n && cs[k] != '\n'
            invariant
                n == cs@.len(),
                start <= k <= n,
                rest == cs@.skip(start as int),
                forall|i: int| start <= i < k ==> cs@[i] != '\n',
            decreases n - k,
        {
            k = k + 1;
        }
        assert(newline_index(rest) == k - start) by {
            lemma_newline_index_bound(rest);
            if newline_index(rest) < k - start {
                assert(rest[newline_index(rest) as int] == cs@[start + newline_index(rest)]);
            }
            if newline_index(rest) > k - start {
                assert(rest[k - start] == cs@[k as int]);
            }
        }
        let mut end = k;
        if k < n && end > start && cs[end - 1] == '\r' {
            end = end - 1;
        }
        let line = copy_range(&cs, start, end);
        let ghost raw = rest.take((k - start) as int);
        assert(line@ =~= if k < n {
            if raw.len() > 0 && raw.last() == '\r' { raw.drop_last() } else { raw }
        } else {
            rest
        });
        let found = free_port_of_line(&line);
        if k >= n {
            assert(split_lines(rest) =~= seq![rest]);
            assert(first_free_port(seq![rest].drop_first()) == None::<u32>);
            return found;
        }
        assert(rest.skip(newline_index(rest) + 1 as int) =~= cs@.skip(k + 1));
        assert(split_lines(rest)[0] == line@);
        assert(split_lines(rest).drop_first() =~= split_lines(cs@.skip(k + 1)));
        if found.is_some() {
            return found;
        }
        start = k + 1;
    }
    assert(cs@.skip(start as int) =~= Seq::<char>::empty());
    None
}

/// The Linux kernel's virtual host controller (vhci-hcd), at a sysfs directory.
#[derive(Debug, Clone)]
pub struct VhciController {
    sysfs_path: String,
}

/// The sysfs directories where the virtual host controller may be found, in the order in which
/// they are tried.
pub open spec fn vhci_dir_candidate(i: int) -> Seq<char> {
    if i == 0 {
        "/sys/devices/platform/vhci_hcd.0"@
    } else if i == 1 {
        "/sys/devices/platform/vhci-hcd.0"@
    } else if i == 2 {
        "/sys/devices/platform/vhci_hcd"@
    } else {
        "/sys/devices/platform/vhci-hcd"@
    }
}

pub fn vhci_dir_candidates() -> (v: Vec<String>)
    ensures
        v@.len() == 4,
        forall|i: int| 0 <= i < 4 ==> (#[trigger] v@[i])@ == vhci_dir_candidate(i),
{
    vec![
        String::from_str("/sys/devices/platform/vhci_hcd.0"),
        String::from_str("/sys/devices/platform/vhci-hcd.0"),
        String::from_str("/sys/devices/platform/vhci_hcd"),
        String::from_str("/sys/devices/platform/vhci-hcd"),
    ]
}

/// The first candidate directory that exists; `present[i]` tells whether candidate `i` does.
pub fn find_vhci_dir(present: &[bool]) -> (r: Option<String>)
    requires
        present@.len() == 4,
    ensures
        match r {
            Some(p) => exists|i: int| 0 <= i < 4 && present@[i] && p@ == vhci_dir_candidate(i)
                && forall|j: int| 0 <= j < i ==> !present@[j],
            None => forall|j: int| 0 <= j < 4 ==> !present@[j],
        },
{
    let candidates = vhci_dir_candidates();
    let mut i: usize = 0;
    while i < 4
        invariant
            present@.len() == 4,
            candidates@.len() == 4,
            forall|k: int| 0 <= k < 4 ==> (#[trigger] candidates@[k])@ == vhci_dir_candidate(k),
            i <= 4,
            forall|j: int| 0 <= j < i ==> !present@[j],
        decreases 4 - i,
    {
        if present[i] {
            let p = candidates[i].clone();
            assert(p@ == vhci_dir_candidate(i as int));
            return Some(p);
        }
        i = i + 1;
    }
    None
}

/// The text written to the `attach` file to attach a socket: port, socket, device id and speed
/// code, separated by spaces, ending in a line feed.
pub open spec fn attach_command_text(port: u32, sockfd: i32, devid: u32, speed: UsbSpeed) -> Seq<char> {
    decimal(port as nat) + " "@ + signed_decimal(sockfd as int) + " "@ + decimal(devid as nat) + " "@
        + decimal(speed_code(speed) as nat) + "\n"@
}

/// The text written to the `detach` file to detach a port.
pub open spec fn detach_command_text(port: u32) -> Seq<char> {
    decimal(port as nat) + "\n"@
}

impl VhciController {
    pub closed spec fn path(&self) -> Seq<char> {
        self.sysfs_path@
    }

    /// A controller at the directory that was found, or at the usual directory where none was.
    pub fn new(found: Option<String>) -> (c: Self)
        ensures
            c.path() == match found {
                Some(p) => p@,
                None => vhci_dir_candidate(0),
            },
    {
        match found {
            Some(p) => VhciController { sysfs_path: p },
            None => VhciController { sysfs_path: String::from_str("/sys/devices/platform/vhci_hcd.0") },
        }
    }

    /// A controller at the directory `path`.
    pub fn with_path(path: String) -> (c: Self)
        ensures
            c.path() == path@,
    {
        VhciController { sysfs_path: path }
    }

    pub fn sysfs_path(&self) -> (p: &str)
        ensures
            p@ == self.path(),
    {
        self.sysfs_path.as_str()
    }

    /// The first free port that the status files announce, read in the order given.
    pub fn find_free_port(&self, status_files: &Vec<String>) -> (r: Result<u32, VhciError>)
        ensures
            match files_free_port(status_files@.map_values(|f: String| f@)) {
                Some(p) => r == Ok::<u32, VhciError>(p),
                None => r == Err::<u32, VhciError>(VhciError::NoFreePort),
            },
    {
        let ghost files = status_files@.map_values(|f: String| f@);
        let mut i: usize = 0;
        assert(files.skip(0) =~= files);
        while i < status_files.len()
            invariant
                i <= status_files@.len(),
                files == status_files@.map_values(|f: String| f@),
                files_free_port(files) == files_free_port(files.skip(i as int)),
            decreases status_files@.len() - i,
        {
            let found = free_port_in_status(status_files[i].as_str());
            assert(files.skip(i as int)[0] == status_files@[i as int]@);
            if let Some(p) = found {
                return Ok(p);
            }
            assert(files.skip(i as int).drop_first() =~= files.skip(i + 1));
            i = i + 1;
        }
        Err(VhciError::NoFreePort)
    }

    /// The text to write to the `attach` file.
    pub fn attach_command(port: u32, sockfd: i32, devid: u32, speed: UsbSpeed) -> (s: String)
        ensures
            s@ == attach_command_text(port, sockfd, devid, speed),
    {
        let mut s = String::new();
        push_decimal(&mut s, port);
        push_str(&mut s, " ");
        push_signed_decimal(&mut s, sockfd);
        push_str(&mut s, " ");
        push_decimal(&mut s, devid);
        push_str(&mut s, " ");
        push_decimal(&mut s, map_speed(speed));
        push_str(&mut s, "\n");
        s
    }

    /// The text to write to the `detach` file.
    pub fn detach_command(port: u32) -> (s: String)
        ensures
            s@ == detach_command_text(port),
    {
        let mut s = String::new();
        push_decimal(&mut s, port);
        push_str(&mut s, "\n");
        s
    }
}

} // verus!
