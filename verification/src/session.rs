//! The decisions of a conflict-resolution session: the daemon-owned
//! worktree's name, which files are editable, what a file holds, the commit
//! gate against leftover markers, and scrubbing the token out of git's
//! errors. The git and file work is the caller's.

use vstd::prelude::*;
use crate::api::{ApiError, invalid, debug_quoted};
use crate::conflict::{ConflictFile, ConflictFileSummary, ConflictSegment, segment_views, views};
use crate::parse::{parse_conflicts, conflict_count, parse_spec, count_conflicts, trim};
use crate::text::{chars_of, split_on, split_char, starts_with, str_starts_with, trim_text, str_eq, contains_text};

verus! {

/// Every worktree the daemon creates is named with this prefix.
pub const WORKTREE_PREFIX: &'static str = "gitsurveil-";

/// Files above this many bytes get whole-file pick only.
pub const MAX_EDITABLE_BYTES: u64 = 5242880;

/// Everything a session's preparation needs.
#[derive(Debug, Clone, PartialEq, Eq)]
pub struct PrepareInputs {
    /// `"owner/name"`.
    pub repo: String,
    /// Base branch name.
    pub base: String,
    /// Head branch name.
    pub head: String,
    /// The user's local clone.
    pub clone_path: String,
    /// Parent directory for temp worktrees: the data dir, never the clone.
    pub worktree_root: String,
    /// Account login, for credentials.
    pub login: String,
    /// Account token, for fetch and push.
    pub token: String,
}

/// One live conflict-resolution session.
#[derive(Debug, Clone, PartialEq, Eq)]
pub struct Session {
    /// The repo slug, which is also the session id (one session per repo).
    pub id: String,
    /// Base branch.
    pub base: String,
    /// Head branch.
    pub head: String,
    /// The user's clone.
    pub clone_path: String,
    /// The daemon-owned worktree.
    pub worktree_path: String,
    /// Name of the worktree and of its branch.
    pub worktree_name: String,
    /// Account login.
    pub login: String,
    /// Account token.
    pub token: String,
    /// The files this session must resolve; the commit checks and stages
    /// exactly these.
    pub conflicted_paths: Vec<String>,
}

/// `s` with every `from` replaced by `to`.
pub open spec fn replace_char(s: Seq<char>, from: char, to: char) -> Seq<char> {
    s.map_values(|c: char| if c == from { to } else { c })
}

/// The worktree name for a slug: `gitsurveil-` then the slug with `/` as `-`.
pub open spec fn worktree_name_spec(repo: Seq<char>) -> Seq<char> {
    "gitsurveil-"@ + replace_char(repo, '/', '-')
}

/// The worktree name for a repo slug, e.g. `acme/api` →
/// `gitsurveil-acme-api`: the worktree's name, directory and branch.
pub fn worktree_name_for(repo: &str) -> (s: String)
    ensures
        s@ == worktree_name_spec(repo@),
{
    let cs = chars_of(repo);
    let mut s = String::from_str(WORKTREE_PREFIX);
    let ghost start = s@;
    let mut k: usize = 0;
    while k < cs.len()
        invariant
            cs@ == repo@,
            k <= cs@.len(),
            start == "gitsurveil-"@,
            s@ == start + replace_char(repo@.subrange(0, k as int), '/', '-'),
        decreases cs.len() - k,
    {
        let c = if cs[k] == '/' { '-' } else { cs[k] };
        s.push(c);
        assert(replace_char(repo@.subrange(0, k + 1), '/', '-') =~= replace_char(repo@.subrange(0, k as int), '/', '-').push(c));
        k += 1;
    }
    assert(repo@.subrange(0, repo@.len() as int) =~= repo@);
    s
}

/// Some line of `content` starts a conflict (`<<<<<<<`) or ends one
/// (`>>>>>>>`). Lines are split at `\n`; a trailing `\r` never changes
/// whether a line starts with a marker.
pub open spec fn has_marker_line(content: Seq<char>) -> bool {
    exists|k: int|
        0 <= k < split_on(content, '\n').len() && (starts_with(#[trigger] split_on(content, '\n')[k], "<<<<<<<"@)
            || starts_with(split_on(content, '\n')[k], ">>>>>>>"@))
}

/// Whether text still contains unresolved conflict marker lines. The commit
/// gate checks this directly rather than trusting the parser, so a malformed
/// block the parser degrades to context still blocks the commit.
pub fn contains_markers(content: &str) -> (b: bool)
    ensures
        b == has_marker_line(content@),
{
    let lines = split_char(content, '\n');
    let ghost ls = views(lines@);
    let mut k: usize = 0;
    while k < lines.len()
        invariant
            ls == views(lines@),
            ls == split_on(content@, '\n'),
            k <= lines@.len(),
            forall|j: int| 0 <= j < k ==> !(starts_with(#[trigger] ls[j], "<<<<<<<"@) || starts_with(ls[j], ">>>>>>>"@)),
        decreases lines.len() - k,
    {
        assert(ls[k as int] == lines@[k as int]@);
        if str_starts_with(lines[k].as_str(), "<<<<<<<") || str_starts_with(lines[k].as_str(), ">>>>>>>") {
            return true;
        }
        k += 1;
    }
    false
}

/// A path names a `..` component.
pub open spec fn escapes(path: Seq<char>) -> bool {
    split_on(path, '/').contains(".."@)
}

/// Resolves a path inside the session's worktree (joined as `Path::join`
/// does on unix), rejecting anything that names `..`
/// (a session address can't legitimately leave the worktree).
pub fn worktree_file_path(session: &Session, path: &str) -> (r: Result<String, ApiError>)
    ensures
        escapes(path@) ==> (r matches Err(e) && invalid(e, debug_quoted(path@) + " escapes the worktree"@)),
        !escapes(path@) ==> (r matches Ok(p) && p@ == crate::text::path_join(session.worktree_path@, path@)),
{
    let parts = split_char(path, '/');
    let ghost ps = views(parts@);
    let mut k: usize = 0;
    while k < parts.len()
        invariant
            ps == views(parts@),
            ps == split_on(path@, '/'),
            k <= parts@.len(),
            forall|j: int| 0 <= j < k ==> ps[j] != ".."@,
        decreases parts.len() - k,
    {
        assert(ps[k as int] == parts@[k as int]@);
        if str_eq(parts[k].as_str(), "..") {
            assert(ps[k as int] == ".."@);
            let mut s = crate::api::debug_text(path);
            s.append(" escapes the worktree");
            return Err(ApiError::InvalidParams(s));
        }
        k += 1;
    }
    Ok(crate::text::join_path(session.worktree_path.as_str(), path))
}

/// The bytes git's binary heuristic looks at: the first 8000.
pub open spec fn sniff_window(bytes: Seq<u8>) -> Seq<u8> {
    if bytes.len() <= 8000 {
        bytes
    } else {
        bytes.subrange(0, 8000)
    }
}

/// Git's binary heuristic: a NUL byte in the first 8000 bytes.
pub fn is_binary(bytes: &[u8]) -> (b: bool)
    ensures
        b == sniff_window(bytes@).contains(0u8),
{
    let n: usize = if bytes.len() < 8000 { bytes.len() } else { 8000 };
    let mut k: usize = 0;
    while k < n
        invariant
            n <= bytes@.len(),
            n == sniff_window(bytes@).len(),
            k <= n,
            forall|j: int| 0 <= j < k ==> bytes@[j] != 0u8,
        decreases n - k,
    {
        if bytes[k] == 0 {
            assert(sniff_window(bytes@)[k as int] == 0u8);
            return true;
        }
        k += 1;
    }
    assert forall|j: int| 0 <= j < sniff_window(bytes@).len() implies sniff_window(bytes@)[j] != 0u8 by {
        assert(sniff_window(bytes@)[j] == bytes@[j]);
    }
    false
}

/// `s` with every non-overlapping occurrence of `pat`, leftmost first,
/// replaced by `***` (what `str::replace` does).
pub open spec fn replace_all(s: Seq<char>, pat: Seq<char>) -> Seq<char>
    decreases s.len(),
{
    if s.len() == 0 {
        Seq::empty()
    } else if pat.len() > 0 && starts_with(s, pat) {
        "***"@ + replace_all(s.skip(pat.len() as int), pat)
    } else {
        seq![s[0]] + replace_all(s.skip(1), pat)
    }
}

/// The message with the token masked; an empty token masks nothing.
pub open spec fn scrub_spec(message: Seq<char>, token: Seq<char>) -> Seq<char> {
    if token.len() == 0 {
        message
    } else {
        replace_all(message, token)
    }
}

/// Whether `cs[i..]` begins with `pat`.
fn starts_at(cs: &Vec<char>, i: usize, pat: &Vec<char>) -> (b: bool)
    requires
        i <= cs@.len(),
    ensures
        b == starts_with(cs@.skip(i as int), pat@),
{
    if pat.len() > cs.len() - i {
        return false;
    }
    let n = cs.len();
    let mut k: usize = 0;
    while k < pat.len()
        invariant
            n == cs@.len(),
            i <= cs@.len(),
            i + pat@.len() <= cs@.len(),
            k <= pat@.len(),
            forall|j: int| 0 <= j < k ==> cs@[i + j] == pat@[j],
        decreases pat.len() - k,
    {
        if cs[i + k] != pat[k] {
            assert(cs@.skip(i as int).subrange(0, pat@.len() as int)[k as int] != pat@[k as int]);
            return false;
        }
        k += 1;
    }
    assert(cs@.skip(i as int).subrange(0, pat@.len() as int) =~= pat@);
    true
}

/// Removes `token` from `message`, replacing each occurrence with `***`.
pub fn scrub_token(message: &str, token: &str) -> (s: String)
    ensures
        s@ == scrub_spec(message@, token@),
{
    if token.is_empty() {
        return String::from_str(message);
    }
    let cs = chars_of(message);
    let tk = chars_of(token);
    let mut out = String::new();
    let mut i: usize = 0;
    assert(cs@.skip(0) =~= cs@);
    assert(out@ + replace_all(cs@.skip(0), tk@) =~= replace_all(message@, token@));
    while i < cs.len()
        invariant
            cs@ == message@,
            tk@ == token@,
            tk@.len() > 0,
            i <= cs@.len(),
            out@ + replace_all(cs@.skip(i as int), tk@) == replace_all(message@, token@),
        decreases cs.len() - i,
    {
        let ghost rest = cs@.skip(i as int);
        if starts_at(&cs, i, &tk) {
            assert(rest.skip(tk@.len() as int) =~= cs@.skip(i + tk@.len()));
            let ghost o0 = out@;
            out.append("***");
            assert(replace_all(rest, tk@) == "***"@ + replace_all(cs@.skip(i + tk@.len()), tk@));
            assert((o0 + "***"@) + replace_all(cs@.skip(i + tk@.len()), tk@)
                =~= o0 + ("***"@ + replace_all(cs@.skip(i + tk@.len()), tk@)));
            i = i + tk.len();
        } else {
            assert(rest.skip(1) =~= cs@.skip(i + 1));
            assert(rest[0] == cs@[i as int]);
            let ghost o0 = out@;
            out.push(cs[i]);
            assert(replace_all(rest, tk@) == seq![rest[0]] + replace_all(cs@.skip(i + 1), tk@));
            assert((o0.push(cs@[i as int])) + replace_all(cs@.skip(i + 1), tk@)
                =~= o0 + (seq![rest[0]] + replace_all(cs@.skip(i + 1), tk@)));
            i = i + 1;
        }
    }
    assert(cs@.skip(cs@.len() as int) =~= Seq::<char>::empty());
    assert(out@ + Seq::<char>::empty() =~= out@);
    out
}

/// The UTF-8 decoding of bytes, invalid sequences replaced by U+FFFD.
pub uninterp spec fn utf8_lossy(bytes: Seq<u8>) -> Seq<char>;

/// Calls `String::from_utf8_lossy`. What it gives for invalid input (one
/// U+FFFD per maximal invalid sequence) is not restated: the result is tied
/// to the bytes through [`utf8_lossy`] only.
#[verifier::external_body]
fn decode_lossy(bytes: &[u8]) -> (s: String)
    ensures
        s@ == utf8_lossy(bytes@),
{
    String::from_utf8_lossy(bytes).into_owned()
}

/// The file is too large to edit as text.
pub open spec fn is_large(bytes: Seq<u8>) -> bool {
    bytes.len() > MAX_EDITABLE_BYTES
}

/// One row of the conflicted-file list for the file at `path` with content
/// `bytes`: binary and large files count as one whole-file conflict.
pub fn summarize_file(path: String, bytes: &[u8]) -> (f: ConflictFileSummary)
    ensures
        f.path == path,
        f.binary == sniff_window(bytes@).contains(0u8),
        f.large == is_large(bytes@),
        f.conflicts as int == if f.binary || f.large { 1 } else { count_conflicts(parse_spec(utf8_lossy(bytes@))) as int },
{
    let binary = is_binary(bytes);
    let large = bytes.len() as u64 > MAX_EDITABLE_BYTES;
    let conflicts = if binary || large {
        1
    } else {
        let text = decode_lossy(bytes);
        conflict_count(text.as_str())
    };
    ConflictFileSummary { path, conflicts, binary, large }
}

/// A conflicted file as served to the editor; binary and large files carry
/// no segments.
pub fn conflict_file(path: &str, bytes: &[u8]) -> (f: ConflictFile)
    ensures
        f.path@ == path@,
        f.binary == sniff_window(bytes@).contains(0u8),
        f.large == is_large(bytes@),
        f.binary || f.large ==> f.segments@.len() == 0,
        !(f.binary || f.large) ==> segment_views(f.segments@) == parse_spec(utf8_lossy(bytes@)),
{
    let binary = is_binary(bytes);
    let large = bytes.len() as u64 > MAX_EDITABLE_BYTES;
    let segments = if binary || large {
        Vec::new()
    } else {
        let text = decode_lossy(bytes);
        parse_conflicts(text.as_str())
    };
    ConflictFile { path: String::from_str(path), binary, large, segments }
}

/// The commit gate: a non-blank message, and no conflicted file (in
/// session order) still holding marker lines.
pub open spec fn commit_gate_ok(r: Result<(), ApiError>, message: Seq<char>, files: Seq<(String, String)>) -> bool {
    if trim(message).len() == 0 {
        r matches Err(e) && invalid(e, "a commit message is required"@)
    } else if exists|k: int| 0 <= k < files.len() && has_marker_line(#[trigger] files[k].1@) {
        r matches Err(ApiError::Config(s)) && exists|k: int| {
            &&& 0 <= k < files.len()
            &&& has_marker_line(#[trigger] files[k].1@)
            &&& forall|j: int| 0 <= j < k ==> !has_marker_line(#[trigger] files[j].1@)
            &&& s@ == files[k].0@ + " still contains conflict markers — resolve it before committing"@
        }
    } else {
        r is Ok
    }
}

/// Refuses a commit with a blank message, or while any conflicted file
/// (path, current content) still contains marker lines.
pub fn commit_gate(message: &str, files: &[(String, String)]) -> (r: Result<(), ApiError>)
    ensures
        commit_gate_ok(r, message@, files@),
{
    let m = trim_text(message);
    if m.as_str().is_empty() {
        return Err(ApiError::InvalidParams(String::from_str("a commit message is required")));
    }
    let mut k: usize = 0;
    while k < files.len()
        invariant
            trim(message@).len() > 0,
            k <= files@.len(),
            forall|j: int| 0 <= j < k ==> !has_marker_line(#[trigger] files@[j].1@),
        decreases files.len() - k,
    {
        if contains_markers(files[k].1.as_str()) {
            let mut s = files[k].0.clone();
            s.append(" still contains conflict markers — resolve it before committing");
            return Err(ApiError::Config(s));
        }
        k += 1;
    }
    Ok(())
}

/// `refs/remotes/origin/<branch>`.
pub fn remote_ref(branch: &str) -> (s: String)
    ensures
        s@ == "refs/remotes/origin/"@ + branch@,
{
    let mut s = String::from_str("refs/remotes/origin/");
    s.append(branch);
    s
}

/// `refs/heads/<name>`.
pub fn local_ref(name: &str) -> (s: String)
    ensures
        s@ == "refs/heads/"@ + name@,
{
    let mut s = String::from_str("refs/heads/");
    s.append(name);
    s
}

/// The session a prepared worktree yields, or the error when the PR merges
/// cleanly and there is nothing to resolve. Its conflicted paths are the
/// summaries' paths, in order.
pub fn session_from_setup(
    inputs: &PrepareInputs,
    worktree_name: &str,
    worktree_path: &str,
    files: Vec<ConflictFileSummary>,
) -> (r: Result<(Session, Vec<ConflictFileSummary>), ApiError>)
    ensures
        files@.len() == 0 ==> (r matches Err(ApiError::Config(s))
            && s@ == "the PR merges cleanly — there are no conflicts to resolve"@),
        files@.len() > 0 ==> (r matches Ok((session, out)) && {
            &&& out@ == files@
            &&& session.id == inputs.repo
            &&& session.base == inputs.base
            &&& session.head == inputs.head
            &&& session.clone_path == inputs.clone_path
            &&& session.worktree_path@ == worktree_path@
            &&& session.worktree_name@ == worktree_name@
            &&& session.login == inputs.login
            &&& session.token == inputs.token
            &&& session.conflicted_paths@.len() == files@.len()
            &&& forall|k: int| 0 <= k < files@.len() ==> #[trigger] session.conflicted_paths@[k] == files@[k].path
        }),
{
    if files.len() == 0 {
        return Err(ApiError::Config(String::from_str("the PR merges cleanly — there are no conflicts to resolve")));
    }
    let mut paths: Vec<String> = Vec::new();
    let mut k: usize = 0;
    while k < files.len()
        invariant
            k <= files@.len(),
            paths@.len() == k,
            forall|j: int| 0 <= j < k ==> #[trigger] paths@[j] == files@[j].path,
        decreases files.len() - k,
    {
        paths.push(files[k].path.clone());
        k += 1;
    }
    let session = Session {
        id: inputs.repo.clone(),
        base: inputs.base.clone(),
        head: inputs.head.clone(),
        clone_path: inputs.clone_path.clone(),
        worktree_path: String::from_str(worktree_path),
        worktree_name: String::from_str(worktree_name),
        login: inputs.login.clone(),
        token: inputs.token.clone(),
        conflicted_paths: paths,
    };
    Ok((session, files))
}

/// A masked text that begins with characters other than `*` begins with
/// the same characters as the text it was made from.
proof fn lemma_replace_all_prefix(s: Seq<char>, pat: Seq<char>, k: int)
    requires
        pat.len() > 0,
        0 <= k <= replace_all(s, pat).len(),
        forall|j: int| 0 <= j < k ==> replace_all(s, pat)[j] != '*',
    ensures
        k <= s.len(),
        replace_all(s, pat).subrange(0, k) == s.subrange(0, k),
    decreases s.len(),
{
    reveal_strlit("***");
    let r = replace_all(s, pat);
    if k > 0 {
        if starts_with(s, pat) {
            assert(r[0] == '*');
        } else {
            let s1 = s.skip(1);
            let r1 = replace_all(s1, pat);
            assert(r == seq![s[0]] + r1);
            assert forall|j: int| 0 <= j < k - 1 implies r1[j] != '*' by {
                assert(r[j + 1] == r1[j]);
            }
            lemma_replace_all_prefix(s1, pat, k - 1);
            assert(r.subrange(0, k) =~= seq![s[0]] + r1.subrange(0, k - 1));
            assert(s.subrange(0, k) =~= seq![s[0]] + s1.subrange(0, k - 1));
        }
    }
}

proof fn lemma_replace_all_clean(s: Seq<char>, pat: Seq<char>)
    requires
        pat.len() > 0,
        !pat.contains('*'),
    ensures
        !contains_text(replace_all(s, pat), pat),
    decreases s.len(),
{
    reveal_strlit("***");
    let r = replace_all(s, pat);
    let n = pat.len() as int;
    if s.len() > 0 {
        if starts_with(s, pat) {
            let rest = s.skip(n);
            lemma_replace_all_clean(rest, pat);
            let rr = replace_all(rest, pat);
            assert(r == "***"@ + rr);
            assert forall|i: int| 0 <= i && i + n <= r.len() implies #[trigger] r.subrange(i, i + n) != pat by {
                if i < 3 {
                    assert(r.subrange(i, i + n)[0] == '*');
                    assert(pat[0] == '*' ==> pat.contains('*'));
                } else {
                    assert(r.subrange(i, i + n) =~= rr.subrange(i - 3, i - 3 + n));
                }
            }
        } else {
            let s1 = s.skip(1);
            lemma_replace_all_clean(s1, pat);
            let r1 = replace_all(s1, pat);
            assert(r == seq![s[0]] + r1);
            assert forall|i: int| 0 <= i && i + n <= r.len() implies #[trigger] r.subrange(i, i + n) != pat by {
                if i >= 1 {
                    assert(r.subrange(i, i + n) =~= r1.subrange(i - 1, i - 1 + n));
                } else if r.subrange(0, n) == pat {
                    assert forall|j: int| 0 <= j < n implies r[j] != '*' by {
                        assert(r[j] == pat[j]);
                    }
                    lemma_replace_all_prefix(s, pat, n);
                    assert(s.subrange(0, n) == pat);
                }
            }
        }
    }
}

/// A scrubbed message never shows the token: for a non-empty token
/// without `*` (the mask's own character), no occurrence of it is left.
pub proof fn lemma_scrub_removes_token(message: Seq<char>, token: Seq<char>)
    requires
        token.len() > 0,
        !token.contains('*'),
    ensures
        !contains_text(scrub_spec(message, token), token),
{
    lemma_replace_all_clean(message, token);
}

} // verus!
