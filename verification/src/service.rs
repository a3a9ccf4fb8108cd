//! Login registration for the daemon on each platform: the launchd agent
//! (macOS), the systemd user unit (Linux) and the per-user `Run` registry
//! value (Windows) — what each says, and which program an existing one
//! starts — and where the local API listens. Writing the files, calling
//! `launchctl`, `systemctl` or `reg`, and reading the environment are the
//! caller's.

use vstd::prelude::*;
use crate::text::{split_on, split_char, starts_with, str_starts_with, chars_of, path_join, join_path,
    first_occurrence, find_from};
use crate::conflict::views;

verus! {

/// Reverse-DNS identifier of the service.
pub const SERVICE_ID: &'static str = "io.gitsurveil.daemon";

/// Whether the daemon is registered to start at login, and where.
#[derive(Debug, Clone, PartialEq, Eq)]
pub struct ServiceStatus {
    /// True when the registration exists.
    pub registered: bool,
    /// The file or value backing it.
    pub location: String,
    /// The binary it points at, when registered.
    pub program: Option<String>,
}

/// The systemd user unit that starts `exe` in the foreground at login and
/// restarts it on failure.
pub open spec fn unit_text_spec(exe: Seq<char>) -> Seq<char> {
    "[Unit]\nDescription=gitsurveil GitHub action-item monitor\nAfter=network-online.target\n\n[Service]\nType=simple\nExecStart="@
        + exe + " --foreground\nRestart=on-failure\nRestartSec=5\n\n[Install]\nWantedBy=default.target\n"@
}

/// The systemd user unit for the daemon binary at `exe`.
pub fn unit_text(exe: &str) -> (s: String)
    ensures
        s@ == unit_text_spec(exe@),
{
    let mut s = String::from_str(
        "[Unit]\nDescription=gitsurveil GitHub action-item monitor\nAfter=network-online.target\n\n[Service]\nType=simple\nExecStart=",
    );
    s.append(exe);
    s.append(" --foreground\nRestart=on-failure\nRestartSec=5\n\n[Install]\nWantedBy=default.target\n");
    s
}

/// `s` with every trailing ` --foreground` removed.
pub open spec fn strip_foreground(s: Seq<char>) -> Seq<char>
    decreases s.len(),
{
    let suffix = " --foreground"@;
    if suffix.len() <= s.len() && s.subrange(s.len() - suffix.len(), s.len() as int) == suffix && suffix.len() > 0 {
        strip_foreground(s.subrange(0, s.len() - suffix.len()))
    } else {
        s
    }
}

/// A line without its trailing `\r`, as `str::lines` yields it.
pub open spec fn line_of(piece: Seq<char>) -> Seq<char> {
    if piece.len() > 0 && piece.last() == '\r' {
        piece.drop_last()
    } else {
        piece
    }
}

/// The program of the first `ExecStart=` line of a unit, with any trailing
/// ` --foreground` removed.
pub open spec fn unit_program_spec(text: Seq<char>) -> Option<Seq<char>> {
    let lines = split_on(text, '\n');
    if exists|k: int| 0 <= k < lines.len() && starts_with(line_of(#[trigger] lines[k]), "ExecStart="@) {
        let k = choose|k: int| {
            &&& 0 <= k < lines.len()
            &&& starts_with(line_of(#[trigger] lines[k]), "ExecStart="@)
            &&& forall|j: int| 0 <= j < k ==> !starts_with(line_of(#[trigger] lines[j]), "ExecStart="@)
        };
        Some(strip_foreground(line_of(lines[k]).skip(10)))
    } else {
        None
    }
}

/// The program an existing unit starts: from its first `ExecStart=` line,
/// without the ` --foreground` flag.
pub fn unit_program(text: &str) -> (r: Option<String>)
    ensures
        crate::conflict::opt_view(r) == unit_program_spec(text@),
{
    let pieces = split_char(text, '\n');
    let ghost ls = views(pieces@);
    let mut k: usize = 0;
    while k < pieces.len()
        invariant
            ls == views(pieces@),
            ls == split_on(text@, '\n'),
            k <= pieces@.len(),
            forall|j: int| 0 <= j < k ==> !starts_with(line_of(#[trigger] ls[j]), "ExecStart="@),
        decreases pieces.len() - k,
    {
        assert(ls[k as int] == pieces@[k as int]@);
        let cs = chars_of(pieces[k].as_str());
        let end: usize = if cs.len() > 0 && cs[cs.len() - 1] == '\r' { cs.len() - 1 } else { cs.len() };
        let line = crate::lines::string_of(&cs, 0, end);
        assert(line@ =~= line_of(ls[k as int]));
        if str_starts_with(line.as_str(), "ExecStart=") {
            proof {
                reveal_strlit("ExecStart=");
                let kk = choose|q: int| {
                    &&& 0 <= q < ls.len()
                    &&& starts_with(line_of(#[trigger] ls[q]), "ExecStart="@)
                    &&& forall|j: int| 0 <= j < q ==> !starts_with(line_of(#[trigger] ls[j]), "ExecStart="@)
                };
                assert(kk == k as int) by {
                    if kk < k as int {
                    } else if kk > k as int {
                    }
                }
            }
            let lc = chars_of(line.as_str());
            let mut hi: usize = lc.len();
            let suffix = chars_of(" --foreground");
            let ghost body = line@.skip(10);
            assert(body =~= lc@.subrange(10, lc@.len() as int));
            while hi >= 10 + 13 && ends_with_at(&lc, hi, &suffix)
                invariant
                    lc@ == line@,
                    10 <= hi <= lc@.len(),
                    suffix@ == " --foreground"@,
                    strip_foreground(body) == strip_foreground(lc@.subrange(10, hi as int)),
                decreases hi,
            {
                proof {
                    reveal_strlit(" --foreground");
                    let t = lc@.subrange(10, hi as int);
                    assert(t.subrange(t.len() - 13, t.len() as int) =~= lc@.subrange(hi - 13, hi as int));
                    assert(t.subrange(0, t.len() - 13) =~= lc@.subrange(10, hi - 13));
                }
                hi = hi - 13;
            }
            proof {
                reveal_strlit(" --foreground");
                let t = lc@.subrange(10, hi as int);
                if t.len() >= 13 {
                    assert(t.subrange(t.len() - 13, t.len() as int) =~= lc@.subrange(hi - 13, hi as int));
                }
            }
            return Some(crate::lines::string_of(&lc, 10, hi));
        }
        k += 1;
    }
    None
}

/// Whether `cs[..hi]` ends with `suffix`.
fn ends_with_at(cs: &Vec<char>, hi: usize, suffix: &Vec<char>) -> (b: bool)
    requires
        hi <= cs@.len(),
    ensures
        b == (suffix@.len() <= hi && cs@.subrange(hi - suffix@.len(), hi as int) == suffix@),
{
    if suffix.len() > hi {
        return false;
    }
    let start = hi - suffix.len();
    let mut k: usize = 0;
    while k < suffix.len()
        invariant
            start + suffix@.len() == hi,
            hi <= cs@.len(),
            k <= suffix@.len(),
            forall|j: int| 0 <= j < k ==> cs@[start + j] == suffix@[j],
        decreases suffix.len() - k,
    {
        if cs[start + k] != suffix[k] {
            assert(cs@.subrange(start as int, hi as int)[k as int] != suffix@[k as int]);
            return false;
        }
        k += 1;
    }
    assert(cs@.subrange(start as int, hi as int) =~= suffix@);
    true
}

/// Where the local API listens on unix: `gitsurveil.sock` in the runtime
/// directory when one is set (Linux's `XDG_RUNTIME_DIR`), else
/// `daemon.sock` in the data directory.
pub open spec fn socket_address_spec(runtime_dir: Option<Seq<char>>, data_dir: Seq<char>) -> Seq<char> {
    match runtime_dir {
        Some(r) => path_join(r, "gitsurveil.sock"@),
        None => path_join(data_dir, "daemon.sock"@),
    }
}

/// The local API's socket path, from the runtime directory (if the platform
/// has one set) and the data directory.
pub fn socket_address(runtime_dir: Option<&str>, data_dir: &str) -> (s: String)
    ensures
        s@ == socket_address_spec(
            match runtime_dir {
                Some(r) => Some(r@),
                None => None,
            },
            data_dir@,
        ),
{
    match runtime_dir {
        Some(r) => join_path(r, "gitsurveil.sock"),
        None => join_path(data_dir, "daemon.sock"),
    }
}

/// `yes` or `no`.
pub open spec fn yes_no(b: bool) -> Seq<char> {
    if b { "yes"@ } else { "no"@ }
}

/// What `status` prints: the login registration (and a warning when the
/// registered binary is gone), then whether the daemon answers on its
/// socket (and a note when a dead daemon left the socket file behind).
pub open spec fn status_report_spec(
    st: ServiceStatus,
    program_exists: bool,
    socket: Seq<char>,
    running: bool,
    socket_file_exists: bool,
) -> Seq<char> {
    "Start at login: "@ + yes_no(st.registered) + "\n"@ + "  registration: "@ + st.location@ + "\n"@
        + (match st.program {
            Some(p) => "  binary:       "@ + p@ + "\n"@ + (if program_exists {
                Seq::<char>::empty()
            } else {
                "  WARNING: that binary no longer exists — re-run `install`.\n"@
            }),
            None => Seq::<char>::empty(),
        }) + "\nRunning now:    "@ + yes_no(running) + "\n"@ + "  socket:       "@ + socket + "\n"@
        + (if !running && socket_file_exists {
            "  (socket file is stale; it is cleaned up on next start)\n"@
        } else {
            Seq::<char>::empty()
        })
}

fn yes_no_text(b: bool) -> (s: &'static str)
    ensures
        s@ == yes_no(b),
{
    if b { "yes" } else { "no" }
}

/// The text of the `status` subcommand. `program_exists` says whether the
/// registered binary is on disk, `running` whether something accepts on
/// `socket`, `socket_file_exists` whether the socket file is present.
pub fn status_report(
    st: &ServiceStatus,
    program_exists: bool,
    socket: &str,
    running: bool,
    socket_file_exists: bool,
) -> (s: String)
    ensures
        s@ == status_report_spec(*st, program_exists, socket@, running, socket_file_exists),
{
    let mut s = String::from_str("Start at login: ");
    s.append(yes_no_text(st.registered));
    s.append("\n");
    s.append("  registration: ");
    s.append(st.location.as_str());
    s.append("\n");
    match &st.program {
        Some(p) => {
            s.append("  binary:       ");
            s.append(p.as_str());
            s.append("\n");
            if !program_exists {
                s.append("  WARNING: that binary no longer exists — re-run `install`.\n");
            }
        },
        None => {},
    }
    s.append("\nRunning now:    ");
    s.append(yes_no_text(running));
    s.append("\n");
    s.append("  socket:       ");
    s.append(socket);
    s.append("\n");
    if !running && socket_file_exists {
        s.append("  (socket file is stale; it is cleaned up on next start)\n");
    }
    proof {
        assert(s@ =~= status_report_spec(*st, program_exists, socket@, running, socket_file_exists));
    }
    s
}

/// The platform the daemon runs on, as far as registration and the local
/// API's address differ.
#[derive(Debug, Clone, Copy, PartialEq, Eq, Structural)]
pub enum Platform {
    /// A launchd user agent; a socket in the data directory.
    MacOs,
    /// A systemd user unit; a socket in `XDG_RUNTIME_DIR` when set.
    Linux,
    /// The per-user `Run` registry value; a named pipe.
    Windows,
}

/// The named pipe the local API listens on under Windows.
pub const PIPE_NAME: &'static str = "\\\\.\\pipe\\gitsurveil";

/// Where the local API listens: the named pipe on Windows; on Linux the
/// runtime directory's socket when one is set, else the data directory's;
/// on macOS always the data directory's.
pub open spec fn local_api_address_spec(
    platform: Platform,
    runtime_dir: Option<Seq<char>>,
    data_dir: Seq<char>,
) -> Seq<char> {
    match platform {
        Platform::Windows => PIPE_NAME@,
        Platform::Linux => socket_address_spec(runtime_dir, data_dir),
        Platform::MacOs => socket_address_spec(None, data_dir),
    }
}

/// The local API's address on `platform`, from the runtime directory (read
/// only on Linux) and the data directory.
pub fn local_api_address(platform: Platform, runtime_dir: Option<&str>, data_dir: &str) -> (s: String)
    ensures
        s@ == local_api_address_spec(
            platform,
            match runtime_dir {
                Some(r) => Some(r@),
                None => None,
            },
            data_dir@,
        ),
{
    match platform {
        Platform::Windows => String::from_str(PIPE_NAME),
        Platform::Linux => socket_address(runtime_dir, data_dir),
        Platform::MacOs => socket_address(None, data_dir),
    }
}

/// The launchd user agent that starts `exe` in the foreground at login,
/// keeps it alive, and sends its output to `log`.
pub open spec fn plist_text_spec(exe: Seq<char>, log: Seq<char>) -> Seq<char> {
    "<?xml version=\"1.0\" encoding=\"UTF-8\"?>\n<!DOCTYPE plist PUBLIC \"-//Apple//DTD PLIST 1.0//EN\" \"http://www.apple.com/DTDs/PropertyList-1.0.dtd\">\n<plist version=\"1.0\">\n<dict>\n    <key>Label</key>\n    <string>"@
        + SERVICE_ID@ + "</string>\n    <key>ProgramArguments</key>\n    <array>\n        <string>"@
        + exe + "</string>\n        <string>--foreground</string>\n    </array>\n    <key>RunAtLoad</key>\n    <true/>\n    <key>KeepAlive</key>\n    <true/>\n    <key>StandardOutPath</key>\n    <string>"@
        + log + "</string>\n    <key>StandardErrorPath</key>\n    <string>"@
        + log + "</string>\n</dict>\n</plist>\n"@
}

/// The launchd agent for the daemon binary at `exe`, logging to `log`.
pub fn plist_text(exe: &str, log: &str) -> (s: String)
    ensures
        s@ == plist_text_spec(exe@, log@),
{
    let mut s = String::from_str(
        "<?xml version=\"1.0\" encoding=\"UTF-8\"?>\n<!DOCTYPE plist PUBLIC \"-//Apple//DTD PLIST 1.0//EN\" \"http://www.apple.com/DTDs/PropertyList-1.0.dtd\">\n<plist version=\"1.0\">\n<dict>\n    <key>Label</key>\n    <string>",
    );
    s.append(SERVICE_ID);
    s.append("</string>\n    <key>ProgramArguments</key>\n    <array>\n        <string>");
    s.append(exe);
    s.append("</string>\n        <string>--foreground</string>\n    </array>\n    <key>RunAtLoad</key>\n    <true/>\n    <key>KeepAlive</key>\n    <true/>\n    <key>StandardOutPath</key>\n    <string>");
    s.append(log);
    s.append("</string>\n    <key>StandardErrorPath</key>\n    <string>");
    s.append(log);
    s.append("</string>\n</dict>\n</plist>\n");
    s
}

/// The program an existing launchd agent starts: the first `<string>`
/// after its `ProgramArguments` key.
pub open spec fn plist_program_spec(text: Seq<char>) -> Option<Seq<char>> {
    match first_occurrence(text, "<key>ProgramArguments</key>"@, 0) {
        None => None,
        Some(a) => match first_occurrence(text, "<string>"@, a) {
            None => None,
            Some(o) => match first_occurrence(text, "</string>"@, o + "<string>"@.len()) {
                None => None,
                Some(c) => Some(text.subrange(o + "<string>"@.len(), c)),
            },
        },
    }
}

/// Reads the program out of a launchd agent's text.
#[verifier::spinoff_prover]
pub fn plist_program(text: &str) -> (r: Option<String>)
    ensures
        crate::conflict::opt_view(r) == plist_program_spec(text@),
{
    let cs = chars_of(text);
    let key = chars_of("<key>ProgramArguments</key>");
    let open = chars_of("<string>");
    let close = chars_of("</string>");
    let ghost t = text@;
    assert(cs@ == t);
    let a = match find_from(&cs, &key, 0) {
        None => {
            assert(first_occurrence(t, "<key>ProgramArguments</key>"@, 0) is None);
            return None;
        },
        Some(a) => a,
    };
    assert(first_occurrence(t, "<key>ProgramArguments</key>"@, 0) == Some(a as int));
    let o = match find_from(&cs, &open, a) {
        None => {
            assert(first_occurrence(t, "<string>"@, a as int) is None);
            return None;
        },
        Some(o) => o,
    };
    assert(first_occurrence(t, "<string>"@, a as int) == Some(o as int));
    assert(cs@.len() == cs.len());
    let start = o + open.len();
    assert(start == o + "<string>"@.len());
    let c = match find_from(&cs, &close, start) {
        None => {
            assert(first_occurrence(t, "</string>"@, start as int) is None);
            return None;
        },
        Some(c) => c,
    };
    assert(first_occurrence(t, "</string>"@, start as int) == Some(c as int));
    Some(crate::lines::string_of(&cs, start, c))
}

/// The registry key, under `HKCU`, whose values Windows runs at login.
pub const RUN_KEY: &'static str = "Software\\Microsoft\\Windows\\CurrentVersion\\Run";

/// The name of the daemon's value under [`RUN_KEY`].
pub const RUN_VALUE: &'static str = "gitsurveil";

/// Where the Windows registration lives: `HKCU\<RUN_KEY>\<RUN_VALUE>`.
pub open spec fn run_key_location_spec() -> Seq<char> {
    "HKCU\\"@ + RUN_KEY@ + "\\"@ + RUN_VALUE@
}

/// The full name of the Windows registration.
pub fn run_key_location() -> (s: String)
    ensures
        s@ == run_key_location_spec(),
{
    let mut s = String::from_str("HKCU\\");
    s.append(RUN_KEY);
    s.append("\\");
    s.append(RUN_VALUE);
    s
}

/// The data of the `Run` value: the quoted binary, then `--foreground`.
pub open spec fn run_key_data_spec(exe: Seq<char>) -> Seq<char> {
    "\""@ + exe + "\" --foreground"@
}

/// The `Run` value's data for the daemon binary at `exe`.
pub fn run_key_data(exe: &str) -> (s: String)
    ensures
        s@ == run_key_data_spec(exe@),
{
    let mut s = String::from_str("\"");
    s.append(exe);
    s.append("\" --foreground");
    s
}

/// The binary a `reg query` of the `Run` value reports: on the first line
/// that names [`RUN_VALUE`], the text between its first two `"` — the quoted
/// path [`run_key_data`] wrote. `None` when no line names the value or that
/// line holds no quoted path.
pub open spec fn run_key_program_spec(output: Seq<char>) -> Option<Seq<char>> {
    let lines = split_on(output, '\n');
    if exists|k: int| 0 <= k < lines.len() && crate::text::contains_text(#[trigger] lines[k], RUN_VALUE@) {
        let k = choose|k: int| {
            &&& 0 <= k < lines.len()
            &&& crate::text::contains_text(#[trigger] lines[k], RUN_VALUE@)
            &&& forall|j: int| 0 <= j < k ==> !crate::text::contains_text(#[trigger] lines[j], RUN_VALUE@)
        };
        let line = lines[k];
        match first_occurrence(line, "\""@, 0) {
            None => None,
            Some(q) => match first_occurrence(line, "\""@, q + 1) {
                None => None,
                Some(e) => Some(line.subrange(q + 1, e)),
            },
        }
    } else {
        None
    }
}

/// Reads the registered binary out of `reg query` output.
pub fn run_key_program(output: &str) -> (r: Option<String>)
    ensures
        crate::conflict::opt_view(r) == run_key_program_spec(output@),
{
    let pieces = split_char(output, '\n');
    let ghost ls = views(pieces@);
    let mut k: usize = 0;
    while k < pieces.len()
        invariant
            ls == views(pieces@),
            ls == split_on(output@, '\n'),
            k <= pieces@.len(),
            forall|j: int| 0 <= j < k ==> !crate::text::contains_text(#[trigger] ls[j], RUN_VALUE@),
        decreases pieces.len() - k,
    {
        assert(ls[k as int] == pieces@[k as int]@);
        if crate::text::contains_str(pieces[k].as_str(), RUN_VALUE) {
            proof {
                let kk = choose|q: int| {
                    &&& 0 <= q < ls.len()
                    &&& crate::text::contains_text(#[trigger] ls[q], RUN_VALUE@)
                    &&& forall|j: int| 0 <= j < q ==> !crate::text::contains_text(#[trigger] ls[j], RUN_VALUE@)
                };
                assert(kk == k as int) by {
                    if kk < k as int {
                    } else if kk > k as int {
                    }
                }
            }
            let cs = chars_of(pieces[k].as_str());
            let quote = chars_of("\"");
            let q = match find_from(&cs, &quote, 0) {
                None => return None,
                Some(q) => q,
            };
            assert(cs@.len() == cs.len());
            proof {
                reveal_strlit("\"");
            }
            let e = match find_from(&cs, &quote, q + 1) {
                None => return None,
                Some(e) => e,
            };
            return Some(crate::lines::string_of(&cs, q + 1, e));
        }
        k += 1;
    }
    None
}

} // verus!
