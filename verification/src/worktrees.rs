//! The decisions behind a repository's user worktrees: which registered
//! worktrees belong to the user, which branches a new one may start from,
//! where a branch is already checked out, and how a worktree is described.
//! Conflict-session worktrees (named with the session prefix) are never
//! listed, offered or removed here.

use vstd::prelude::*;
use crate::api::ApiError;
use crate::conflict::views;
use crate::ordered::{insert_sorted_str, ordered_strs, sorted_strs, lemma_ordered_strs_of};
use crate::repo::WorktreeInfo;
use crate::session::WORKTREE_PREFIX;
use crate::text::{chars_of, starts_with, str_eq, str_starts_with};

verus! {

/// Whether a worktree name belongs to a conflict session.
pub open spec fn is_session_name(name: Seq<char>) -> bool {
    starts_with(name, WORKTREE_PREFIX@)
}

/// The names that are not conflict-session worktrees, in order.
pub open spec fn user_names(names: Seq<Seq<char>>) -> Seq<Seq<char>>
    decreases names.len(),
{
    if names.len() == 0 {
        Seq::empty()
    } else {
        let rest = user_names(names.drop_last());
        if is_session_name(names.last()) {
            rest
        } else {
            rest.push(names.last())
        }
    }
}

/// The registered worktree names a listing shows: all but the conflict
/// sessions, in registration order.
pub fn user_worktrees(names: &[String]) -> (out: Vec<String>)
    ensures
        views(out@) == user_names(views(names@)),
{
    let ghost ns = views(names@);
    let mut out: Vec<String> = Vec::new();
    let mut k: usize = 0;
    while k < names.len()
        invariant
            ns == views(names@),
            k <= names@.len(),
            views(out@) == user_names(ns.subrange(0, k as int)),
        decreases names.len() - k,
    {
        assert(ns.subrange(0, k + 1).drop_last() =~= ns.subrange(0, k as int));
        assert(ns[k as int] == names@[k as int]@);
        if !str_starts_with(names[k].as_str(), WORKTREE_PREFIX) {
            let ghost before = views(out@);
            out.push(names[k].clone());
            assert(views(out@) =~= before.push(names@[k as int]@));
        }
        k += 1;
    }
    assert(ns.subrange(0, ns.len() as int) =~= ns);
    out
}

/// A remote-tracking branch name as offered: `origin/x` becomes `x`; other
/// remotes keep their prefix.
pub open spec fn strip_origin(name: Seq<char>) -> Seq<char> {
    if starts_with(name, "origin/"@) {
        name.subrange("origin/"@.len() as int, name.len() as int)
    } else {
        name
    }
}

/// `name` without a leading `origin/`.
pub fn strip_origin_prefix(name: &str) -> (s: String)
    ensures
        s@ == strip_origin(name@),
{
    if str_starts_with(name, "origin/") {
        let cs = chars_of(name);
        proof {
            reveal_strlit("origin/");
        }
        crate::lines::string_of(&cs, 7, cs.len())
    } else {
        String::from_str(name)
    }
}

/// The branch names a new worktree can start from: every local branch and
/// every remote-tracking branch (with `origin/` dropped), each name once,
/// in increasing order.
pub open spec fn branch_choices_spec(local: Seq<Seq<char>>, remote: Seq<Seq<char>>) -> Seq<Seq<char>> {
    ordered_strs(local.to_set().union(remote.map_values(|r: Seq<char>| strip_origin(r)).to_set()))
}

proof fn lemma_push_to_set(s: Seq<Seq<char>>, x: Seq<char>)
    ensures
        s.push(x).to_set() == s.to_set().insert(x),
{
    assert forall|a: Seq<char>| #[trigger] s.push(x).to_set().contains(a) <==> s.to_set().insert(x).contains(a) by {
        if s.push(x).contains(a) {
            let i = choose|i: int| 0 <= i < s.push(x).len() && s.push(x)[i] == a;
            if i < s.len() {
                assert(s.contains(a));
            }
        }
        if s.contains(a) {
            let i = choose|i: int| 0 <= i < s.len() && s[i] == a;
            assert(s.push(x)[i] == a);
        }
        if a == x {
            assert(s.push(x)[s.len() as int] == a);
        }
    }
    assert(s.push(x).to_set() =~= s.to_set().insert(x));
}

/// The branches offered for a new worktree, from the clone's local branch
/// names and its remote-tracking branch names.
pub fn branch_choices(local: &[String], remote: &[String]) -> (out: Vec<String>)
    ensures
        views(out@) == branch_choices_spec(views(local@), views(remote@)),
{
    let ghost ls = views(local@);
    let ghost rs = views(remote@).map_values(|r: Seq<char>| strip_origin(r));
    let mut out: Vec<String> = Vec::new();
    assert(views(out@).to_set() =~= Set::<Seq<char>>::empty());
    assert(ls.subrange(0, 0).to_set() =~= Set::<Seq<char>>::empty());
    let mut k: usize = 0;
    while k < local.len()
        invariant
            ls == views(local@),
            k <= local@.len(),
            sorted_strs(views(out@)),
            views(out@).to_set() == ls.subrange(0, k as int).to_set(),
        decreases local.len() - k,
    {
        insert_sorted_str(&mut out, local[k].as_str());
        proof {
            assert(ls.subrange(0, k + 1) =~= ls.subrange(0, k as int).push(ls[k as int]));
            lemma_push_to_set(ls.subrange(0, k as int), ls[k as int]);
        }
        k += 1;
    }
    assert(ls.subrange(0, ls.len() as int) =~= ls);
    assert(rs.subrange(0, 0).to_set() =~= Set::<Seq<char>>::empty());
    let mut j: usize = 0;
    while j < remote.len()
        invariant
            ls == views(local@),
            rs == views(remote@).map_values(|r: Seq<char>| strip_origin(r)),
            j <= remote@.len(),
            sorted_strs(views(out@)),
            views(out@).to_set() == ls.to_set().union(rs.subrange(0, j as int).to_set()),
        decreases remote.len() - j,
    {
        let short = strip_origin_prefix(remote[j].as_str());
        insert_sorted_str(&mut out, short.as_str());
        proof {
            assert(rs[j as int] == short@);
            assert(rs.subrange(0, j + 1) =~= rs.subrange(0, j as int).push(rs[j as int]));
            lemma_push_to_set(rs.subrange(0, j as int), rs[j as int]);
            assert(views(out@).to_set() =~= ls.to_set().union(rs.subrange(0, j + 1).to_set()));
        }
        j += 1;
    }
    assert(rs.subrange(0, rs.len() as int) =~= rs);
    proof {
        lemma_ordered_strs_of(views(out@));
    }
    out
}

/// The first user worktree, in registration order, whose checked-out branch
/// is `branch`.
pub open spec fn first_holder(wts: Seq<(String, Option<String>)>, branch: Seq<char>) -> Option<Seq<char>>
    decreases wts.len(),
{
    if wts.len() == 0 {
        None
    } else if !is_session_name(wts[0].0@) && wts[0].1 is Some && wts[0].1->0@ == branch {
        Some(wts[0].0@)
    } else {
        first_holder(wts.drop_first(), branch)
    }
}

/// Where `branch` is checked out, given the main checkout's branch and each
/// registered worktree's name and branch: the main checkout first, then
/// the first user worktree holding it.
pub open spec fn checkout_place(main: Option<Seq<char>>, wts: Seq<(String, Option<String>)>, branch: Seq<char>) -> Option<Seq<char>> {
    if main == Some(branch) {
        Some("the main checkout"@)
    } else {
        match first_holder(wts, branch) {
            Some(name) => Some("worktree `"@ + name + "`"@),
            None => None,
        }
    }
}

/// Where `branch` is already checked out, if anywhere, since git refuses
/// to check one branch out twice. `main_branch` is the main checkout's
/// branch (`None` when detached); `worktrees` pairs each registered
/// worktree's name with its branch (`None` when detached or unreadable).
pub fn checked_out_elsewhere(main_branch: Option<&str>, worktrees: &[(String, Option<String>)], branch: &str) -> (r: Option<String>)
    ensures
        (match r {
            Some(s) => Some(s@),
            None => None,
        }) == checkout_place(
            match main_branch {
                Some(m) => Some(m@),
                None => None,
            },
            worktrees@,
            branch@,
        ),
{
    if let Some(m) = main_branch {
        if str_eq(m, branch) {
            return Some(String::from_str("the main checkout"));
        }
    }
    let n = worktrees.len();
    let mut k: usize = 0;
    assert(worktrees@.subrange(0, n as int) =~= worktrees@);
    while k < n
        invariant
            n == worktrees@.len(),
            k <= n,
            main_branch matches Some(m) ==> m@ != branch@,
            first_holder(worktrees@, branch@) == first_holder(worktrees@.subrange(k as int, n as int), branch@),
        decreases n - k,
    {
        let ghost rest = worktrees@.subrange(k as int, n as int);
        assert(rest.drop_first() =~= worktrees@.subrange(k + 1, n as int));
        assert(rest[0] == worktrees@[k as int]);
        let (name, current) = &worktrees[k];
        if !str_starts_with(name.as_str(), WORKTREE_PREFIX) {
            if let Some(c) = current {
                if str_eq(c.as_str(), branch) {
                    let mut s = String::from_str("worktree `");
                    s.append(name.as_str());
                    s.append("`");
                    proof {
                        assert(first_holder(rest, branch@) == Some(name@));
                        assert(s@ =~= "worktree `"@ + name@ + "`"@);
                    }
                    return Some(s);
                }
            }
        }
        k += 1;
    }
    assert(worktrees@.subrange(n as int, n as int).len() == 0);
    None
}

/// Refuses a branch that is checked out at `place`.
pub fn check_branch_free(short_name: &str, place: Option<String>) -> (r: Result<(), ApiError>)
    ensures
        place is None ==> r is Ok,
        place matches Some(p) ==> (r matches Err(ApiError::Config(s))
            && s@ == "branch `"@ + short_name@ + "` is already checked out in "@ + p@ + " — pick another branch"@),
{
    match place {
        None => Ok(()),
        Some(p) => {
            let mut s = String::from_str("branch `");
            s.append(short_name);
            s.append("` is already checked out in ");
            s.append(p.as_str());
            s.append(" — pick another branch");
            Err(ApiError::Config(s))
        },
    }
}

/// Refuses to remove a conflict-session worktree through the user's
/// worktree view.
pub fn check_removable(name: &str) -> (r: Result<(), ApiError>)
    ensures
        !is_session_name(name@) ==> r is Ok,
        is_session_name(name@) ==> (r matches Err(ApiError::Config(s))
            && s@ == name@ + " is a gitsurveil conflict-session worktree and can't be removed here"@),
{
    if str_starts_with(name, WORKTREE_PREFIX) {
        let mut s = String::from_str(name);
        s.append(" is a gitsurveil conflict-session worktree and can't be removed here");
        return Err(ApiError::Config(s));
    }
    Ok(())
}

/// The first seven characters of a commit id (all of it when shorter).
pub open spec fn short_id_spec(oid: Seq<char>) -> Seq<char> {
    if oid.len() <= 7 {
        oid
    } else {
        oid.subrange(0, 7)
    }
}

/// A worktree as the UI shows it: `shorthand` is its HEAD's branch
/// shorthand (`None` when detached), `head_id` the hex id of the commit it
/// points at (`None` when unborn).
pub fn worktree_info_of(name: String, path: String, shorthand: Option<String>, head_id: Option<String>) -> (w: WorktreeInfo)
    ensures
        w.name == name,
        w.path == path,
        w.branch@ == (match shorthand {
            Some(b) => b@,
            None => "(detached)"@,
        }),
        w.head@ == (match head_id {
            Some(id) => short_id_spec(id@),
            None => Seq::<char>::empty(),
        }),
{
    let branch = match shorthand {
        Some(b) => b,
        None => String::from_str("(detached)"),
    };
    let head = match head_id {
        Some(id) => {
            let cs = chars_of(id.as_str());
            let end: usize = if cs.len() <= 7 { cs.len() } else { 7 };
            let s = crate::lines::string_of(&cs, 0, end);
            assert(cs@.len() <= 7 ==> cs@.subrange(0, end as int) =~= cs@);
            s
        },
        None => String::new(),
    };
    WorktreeInfo { name, path, branch, head }
}

/// `p` without its trailing `/`s.
pub open spec fn trim_end_slashes(p: Seq<char>) -> Seq<char>
    decreases p.len(),
{
    if p.len() > 0 && p.last() == '/' {
        trim_end_slashes(p.drop_last())
    } else {
        p
    }
}

/// Index of the last `/` in `t`, or -1.
pub open spec fn last_slash(t: Seq<char>) -> int
    decreases t.len(),
{
    if t.len() == 0 {
        -1
    } else if t.last() == '/' {
        t.len() - 1
    } else {
        last_slash(t.drop_last())
    }
}

/// `Path::parent` on a unix path without `.` or `..` components: `None`
/// for the root or an empty path; the empty path for a single relative
/// component; otherwise everything before the last component, without
/// trailing `/`s (the root stays `/`).
pub open spec fn path_parent(p: Seq<char>) -> Option<Seq<char>> {
    let t = trim_end_slashes(p);
    if t.len() == 0 {
        None
    } else if last_slash(t) < 0 {
        Some(Seq::empty())
    } else {
        let h = trim_end_slashes(t.subrange(0, last_slash(t)));
        if h.len() == 0 {
            Some("/"@)
        } else {
            Some(h)
        }
    }
}

/// Where a new worktree for the clone at `clone_path` goes: an absolute
/// `path` as given, a relative one under the clone's parent directory (`.`
/// when the clone path has none), matching the sibling default the UI
/// pre-fills.
pub open spec fn worktree_target_spec(clone_path: Seq<char>, path: Seq<char>) -> Seq<char> {
    crate::text::path_join(
        match path_parent(clone_path) {
            Some(d) => d,
            None => "."@,
        },
        path,
    )
}

/// Length of `cs[..n]` once its trailing `/`s are dropped.
fn trimmed_end(cs: &Vec<char>, n: usize) -> (m: usize)
    requires
        n <= cs@.len(),
    ensures
        m <= n,
        cs@.subrange(0, m as int) == trim_end_slashes(cs@.subrange(0, n as int)),
{
    let mut m = n;
    while m > 0 && cs[m - 1] == '/'
        invariant
            m <= n <= cs@.len(),
            trim_end_slashes(cs@.subrange(0, n as int)) == trim_end_slashes(cs@.subrange(0, m as int)),
        decreases m,
    {
        assert(cs@.subrange(0, m as int).drop_last() =~= cs@.subrange(0, m - 1));
        m -= 1;
    }
    m
}

/// Index of the last `/` in `cs[..n]`, if any.
fn last_slash_in(cs: &Vec<char>, n: usize) -> (r: Option<usize>)
    requires
        n <= cs@.len(),
    ensures
        match r {
            Some(i) => i < n && last_slash(cs@.subrange(0, n as int)) == i,
            None => last_slash(cs@.subrange(0, n as int)) == -1,
        },
{
    let mut k = n;
    while k > 0 && cs[k - 1] != '/'
        invariant
            k <= n <= cs@.len(),
            last_slash(cs@.subrange(0, n as int)) == last_slash(cs@.subrange(0, k as int)),
        decreases k,
    {
        assert(cs@.subrange(0, k as int).drop_last() =~= cs@.subrange(0, k - 1));
        k -= 1;
    }
    if k == 0 {
        None
    } else {
        Some(k - 1)
    }
}

/// The parent directory of `p`, as [`path_parent`] gives it.
pub fn parent_dir(p: &str) -> (r: Option<String>)
    ensures
        match r {
            Some(d) => path_parent(p@) == Some(d@),
            None => path_parent(p@) is None,
        },
{
    let cs = chars_of(p);
    assert(cs@.subrange(0, cs@.len() as int) =~= p@);
    let m = trimmed_end(&cs, cs.len());
    if m == 0 {
        return None;
    }
    match last_slash_in(&cs, m) {
        None => Some(String::new()),
        Some(i) => {
            assert(cs@.subrange(0, m as int).subrange(0, i as int) =~= cs@.subrange(0, i as int));
            let h = trimmed_end(&cs, i);
            if h == 0 {
                Some(String::from_str("/"))
            } else {
                Some(crate::lines::string_of(&cs, 0, h))
            }
        },
    }
}

/// The pieces of a path that `Path` compares as normal components: empty
/// pieces (from repeated or trailing `/`) and `.` pieces are dropped.
pub open spec fn normal_parts(ps: Seq<Seq<char>>) -> Seq<Seq<char>>
    decreases ps.len(),
{
    if ps.len() == 0 {
        Seq::empty()
    } else {
        let rest = normal_parts(ps.drop_last());
        let q = ps.last();
        if q.len() == 0 || q == "."@ {
            rest
        } else {
            rest.push(q)
        }
    }
}

/// What `Path`'s equality compares for a unix path: whether it starts at
/// the root, whether a relative path opens with a `.` component, and its
/// normal components.
pub open spec fn path_components(p: Seq<char>) -> (bool, bool, Seq<Seq<char>>) {
    let ps = crate::text::split_on(p, '/');
    let rooted = p.len() > 0 && p[0] == '/';
    (rooted, !rooted && ps.len() > 0 && ps[0] == "."@, normal_parts(ps))
}

/// The normal components of `p`, as [`normal_parts`] of its `/` pieces.
fn normal_components(p: &str) -> (r: Vec<String>)
    ensures
        views(r@) == normal_parts(crate::text::split_on(p@, '/')),
{
    let parts = crate::text::split_char(p, '/');
    let ghost ps = views(parts@);
    let mut out: Vec<String> = Vec::new();
    let mut k: usize = 0;
    while k < parts.len()
        invariant
            ps == views(parts@),
            ps == crate::text::split_on(p@, '/'),
            k <= parts@.len(),
            views(out@) == normal_parts(ps.subrange(0, k as int)),
        decreases parts.len() - k,
    {
        assert(ps.subrange(0, k + 1).drop_last() =~= ps.subrange(0, k as int));
        assert(ps.subrange(0, k + 1).last() == parts@[k as int]@);
        let q = parts[k].as_str();
        if !(q.is_empty() || str_eq(q, ".")) {
            out.push(parts[k].clone());
            assert(views(out@) =~= normal_parts(ps.subrange(0, k as int)).push(parts@[k as int]@));
        }
        k += 1;
    }
    assert(ps.subrange(0, ps.len() as int) =~= ps);
    out
}

/// Whether two unix paths name the same place as `Path`'s `==` sees it:
/// component by component, so repeated `/`, a trailing `/` and `.`
/// components inside the path do not count.
pub fn same_path(a: &str, b: &str) -> (r: bool)
    ensures
        r == (path_components(a@) == path_components(b@)),
{
    let ac = chars_of(a);
    let bc = chars_of(b);
    let ar = ac.len() > 0 && ac[0] == '/';
    let br = bc.len() > 0 && bc[0] == '/';
    let ap = crate::text::split_char(a, '/');
    let bp = crate::text::split_char(b, '/');
    proof {
        crate::text::lemma_split_on_nonempty(a@, '/');
        crate::text::lemma_split_on_nonempty(b@, '/');
    }
    assert(views(ap@)[0] == ap@[0]@);
    assert(views(bp@)[0] == bp@[0]@);
    let ad = !ar && str_eq(ap[0].as_str(), ".");
    let bd = !br && str_eq(bp[0].as_str(), ".");
    if ar != br || ad != bd {
        return false;
    }
    let an = normal_components(a);
    let bn = normal_components(b);
    if an.len() != bn.len() {
        assert(views(an@).len() != views(bn@).len());
        return false;
    }
    let mut k: usize = 0;
    while k < an.len()
        invariant
            an@.len() == bn@.len(),
            views(an@) == path_components(a@).2,
            views(bn@) == path_components(b@).2,
            k <= an@.len(),
            forall|j: int| 0 <= j < k ==> an@[j]@ == bn@[j]@,
        decreases an.len() - k,
    {
        if !str_eq(an[k].as_str(), bn[k].as_str()) {
            assert(views(an@)[k as int] != views(bn@)[k as int]);
            return false;
        }
        k += 1;
    }
    assert(views(an@) =~= views(bn@));
    true
}

/// Resolves where a new worktree goes ([`worktree_target_spec`]) and
/// refuses the clone's own directory, compared as `Path`s are
/// ([`path_components`]).
pub fn worktree_target(clone_path: &str, path: &str) -> (r: Result<String, ApiError>)
    ensures
        ({
            let t = worktree_target_spec(clone_path@, path@);
            if path_components(t) == path_components(clone_path@) {
                r matches Err(ApiError::Config(s)) && s@ == "the worktree path must differ from the clone itself"@
            } else {
                r matches Ok(p) && p@ == t
            }
        }),
{
    let base = match parent_dir(clone_path) {
        Some(d) => d,
        None => String::from_str("."),
    };
    let target = crate::text::join_path(base.as_str(), path);
    if same_path(target.as_str(), clone_path) {
        return Err(ApiError::Config(String::from_str("the worktree path must differ from the clone itself")));
    }
    Ok(target)
}

} // verus!
