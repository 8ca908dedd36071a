//! Unix path components and the working-directory containment check applied to
//! every path a tool call names.
use vstd::prelude::*;

use crate::error::{rejected, AppError};
use crate::text::{chars_of, concat2, concat3, string_from_chars};

verus! {

// ── Component model ───────────────────────────────────────────────────────────

/// The pieces of `s` between `/` separators, empty pieces included.
pub open spec fn segments(s: Seq<char>) -> Seq<Seq<char>>
    decreases s.len(),
{
    if s.len() == 0 {
        seq![Seq::<char>::empty()]
    } else {
        let p = segments(s.drop_last());
        if s.last() == '/' {
            p.push(Seq::<char>::empty())
        } else {
            p.update(p.len() - 1, p.last().push(s.last()))
        }
    }
}

pub open spec fn dot() -> Seq<char> {
    seq!['.']
}

pub open spec fn dotdot() -> Seq<char> {
    seq!['.', '.']
}

/// A piece that names a component: neither empty (repeated or trailing separator)
/// nor `.` (which `Path::components` normalizes away).
pub open spec fn keep(g: Seq<char>) -> bool {
    g.len() > 0 && g != dot()
}

/// The kept pieces of `gs`, in order.
pub open spec fn kept(gs: Seq<Seq<char>>) -> Seq<Seq<char>>
    decreases gs.len(),
{
    if gs.len() == 0 {
        Seq::empty()
    } else {
        let p = kept(gs.drop_last());
        if keep(gs.last()) {
            p.push(gs.last())
        } else {
            p
        }
    }
}

/// `s` starts with a root separator.
pub open spec fn is_absolute(s: Seq<char>) -> bool {
    s.len() > 0 && s[0] == '/'
}

/// `s` starts with a `.` component that `Path::components` keeps as `CurDir`.
pub open spec fn leading_cur_dir(s: Seq<char>) -> bool {
    !is_absolute(s) && s.len() > 0 && s[0] == '.' && (s.len() == 1 || s[1] == '/')
}

/// `Path::components` on Unix: the root (written `/`), a leading `CurDir` (written `.`),
/// then every kept piece; `..` pieces stand for `ParentDir`.
pub open spec fn components(s: Seq<char>) -> Seq<Seq<char>> {
    let head = if is_absolute(s) {
        seq![seq!['/']]
    } else if leading_cur_dir(s) {
        seq![dot()]
    } else {
        Seq::<Seq<char>>::empty()
    };
    head + kept(segments(s))
}

/// `s` has a `ParentDir` component.
pub open spec fn has_parent_component(s: Seq<char>) -> bool {
    components(s).contains(dotdot())
}

/// `Path::starts_with`: the components of `base` are a prefix of those of `s`.
pub open spec fn path_starts_with(s: Seq<char>, base: Seq<char>) -> bool {
    let cs = components(s);
    let cb = components(base);
    cb.len() <= cs.len() && cs.subrange(0, cb.len() as int) == cb
}

/// `Path::join` on Unix: an absolute `t` replaces `base`; otherwise `t` is appended,
/// with a separator unless `base` is empty or already ends with one.
pub open spec fn join_path(base: Seq<char>, t: Seq<char>) -> Seq<char> {
    if is_absolute(t) {
        t
    } else if base.len() > 0 && base.last() != '/' {
        base + seq!['/'] + t
    } else {
        base + t
    }
}

pub open spec fn view_all(v: Seq<Vec<char>>) -> Seq<Seq<char>> {
    v.map_values(|x: Vec<char>| x@)
}

proof fn lemma_segments_nonempty(s: Seq<char>)
    ensures
        segments(s).len() >= 1,
    decreases s.len(),
{
    if s.len() > 0 {
        lemma_segments_nonempty(s.drop_last());
    }
}

/// The kept pieces of `v`, computed in one pass.
fn kept_pieces(v: &Vec<char>) -> (r: Vec<Vec<char>>)
    ensures
        view_all(r@) == kept(segments(v@)),
{
    let mut done: Vec<Vec<char>> = Vec::new();
    let mut cur: Vec<char> = Vec::new();
    let ghost mut completed: Seq<Seq<char>> = Seq::empty();
    let mut i: usize = 0;
    assert(v@.take(0) =~= Seq::<char>::empty());
    assert(segments(v@.take(0)) == completed.push(cur@));
    while i < v.len()
        invariant
            0 <= i <= v.len(),
            segments(v@.take(i as int)) == completed.push(cur@),
            view_all(done@) == kept(completed),
        decreases v.len() - i,
    {
        let c = v[i];
        let ghost pre = v@.take(i as int);
        assert(v@.take(i + 1).drop_last() == pre);
        assert(v@.take(i + 1).last() == c);
        proof {
            lemma_segments_nonempty(pre);
        }
        if c == '/' {
            proof {
                let nc = completed.push(cur@);
                assert(nc.drop_last() == completed);
                assert(kept(nc) == if keep(cur@) { kept(completed).push(cur@) } else { kept(completed) });
                completed = nc;
            }
            if cur.len() > 0 && !(cur.len() == 1 && cur[0] == '.') {
                assert(keep(cur@)) by {
                    if cur@ == dot() {
                        assert(cur@[0] == '.');
                    }
                }
                let piece = cur;
                done.push(piece);
                assert(view_all(done@) == view_all(done@.drop_last()).push(piece@));
            } else {
                assert(!keep(cur@)) by {
                    if cur.len() == 1 && cur@[0] == '.' {
                        assert(cur@ =~= dot());
                    }
                }
            }
            cur = Vec::new();
            assert(segments(v@.take(i + 1)) == completed.push(cur@));
        } else {
            let ghost old_cur = cur@;
            cur.push(c);
            assert(completed.push(old_cur).update(completed.len() as int, cur@) == completed.push(cur@));
        }
        i += 1;
    }
    assert(v@.take(v.len() as int) == v@);
    let ghost fin = completed.push(cur@);
    assert(fin.drop_last() == completed);
    if cur.len() > 0 && !(cur.len() == 1 && cur[0] == '.') {
        assert(keep(cur@)) by {
            if cur@ == dot() {
                assert(cur@[0] == '.');
            }
        }
        let piece = cur;
        done.push(piece);
        assert(view_all(done@) == view_all(done@.drop_last()).push(piece@));
    } else {
        assert(!keep(cur@)) by {
            if cur.len() == 1 && cur@[0] == '.' {
                assert(cur@ =~= dot());
            }
        }
    }
    done
}

/// `Path::components` of `v`, each component as its characters.
pub fn components_of(v: &Vec<char>) -> (r: Vec<Vec<char>>)
    ensures
        view_all(r@) == components(v@),
{
    let rest = kept_pieces(v);
    let mut r: Vec<Vec<char>> = Vec::new();
    let ghost head: Seq<Seq<char>>;
    if v.len() > 0 && v[0] == '/' {
        let mut root: Vec<char> = Vec::new();
        root.push('/');
        assert(root@ =~= seq!['/']);
        r.push(root);
        proof {
            head = seq![seq!['/']];
            assert(view_all(r@) =~= head);
        }
    } else if v.len() > 0 && v[0] == '.' && (v.len() == 1 || v[1] == '/') {
        let mut cur: Vec<char> = Vec::new();
        cur.push('.');
        assert(cur@ =~= dot());
        r.push(cur);
        proof {
            head = seq![dot()];
            assert(view_all(r@) =~= head);
        }
    } else {
        proof {
            head = Seq::<Seq<char>>::empty();
            assert(view_all(r@) =~= head);
        }
    }
    assert(head == if is_absolute(v@) {
        seq![seq!['/']]
    } else if leading_cur_dir(v@) {
        seq![dot()]
    } else {
        Seq::<Seq<char>>::empty()
    });
    let mut i: usize = 0;
    while i < rest.len()
        invariant
            0 <= i <= rest.len(),
            view_all(rest@) == kept(segments(v@)),
            view_all(r@) == head + view_all(rest@).take(i as int),
        decreases rest.len() - i,
    {
        let piece = copy_chars(&rest[i]);
        let ghost old_r = r@;
        r.push(piece);
        assert(view_all(rest@).take(i + 1) =~= view_all(rest@).take(i as int).push(rest@[i as int]@));
        assert(view_all(r@) =~= view_all(old_r).push(piece@));
        i += 1;
    }
    assert(view_all(rest@).take(rest.len() as int) == view_all(rest@));
    r
}

pub fn copy_chars(v: &Vec<char>) -> (r: Vec<char>)
    ensures
        r@ == v@,
{
    let mut r: Vec<char> = Vec::new();
    let mut i: usize = 0;
    while i < v.len()
        invariant
            0 <= i <= v.len(),
            r@ == v@.take(i as int),
        decreases v.len() - i,
    {
        r.push(v[i]);
        assert(v@.take(i + 1) == v@.take(i as int).push(v@[i as int]));
        i += 1;
    }
    assert(v@.take(v.len() as int) == v@);
    r
}

/// Whether the path `path` has a `..` component.
pub fn path_has_parent_component(path: &str) -> (r: bool)
    ensures
        r == has_parent_component(path@),
{
    let v = chars_of(path);
    let comps = components_of(&v);
    let mut i: usize = 0;
    while i < comps.len()
        invariant
            0 <= i <= comps.len(),
            view_all(comps@) == components(path@),
            forall|k: int| 0 <= k < i ==> components(path@)[k] != dotdot(),
        decreases comps.len() - i,
    {
        assert(comps@[i as int]@ == components(path@)[i as int]);
        if comps[i].len() == 2 && comps[i][0] == '.' && comps[i][1] == '.' {
            assert(comps@[i as int]@ =~= dotdot());
            return true;
        }
        assert(comps@[i as int]@ != dotdot()) by {
            if comps@[i as int]@ == dotdot() {
                assert(comps@[i as int]@[0] == '.');
            }
        }
        i += 1;
    }
    false
}

/// Whether the components of `s` start with those of `base`.
pub fn starts_with_path(s: &str, base: &str) -> (r: bool)
    ensures
        r == path_starts_with(s@, base@),
{
    let vs = chars_of(s);
    let vb = chars_of(base);
    let cs = components_of(&vs);
    let cb = components_of(&vb);
    if cb.len() > cs.len() {
        return false;
    }
    let mut i: usize = 0;
    while i < cb.len()
        invariant
            cb.len() <= cs.len(),
            0 <= i <= cb.len(),
            view_all(cs@) == components(s@),
            view_all(cb@) == components(base@),
            forall|k: int| 0 <= k < i ==> components(s@)[k] == components(base@)[k],
        decreases cb.len() - i,
    {
        assert(cs@[i as int]@ == components(s@)[i as int]);
        assert(cb@[i as int]@ == components(base@)[i as int]);
        if !crate::text::seq_eq(&cs[i], &cb[i]) {
            assert(components(s@).subrange(0, cb.len() as int)[i as int] != components(base@)[i as int]);
            return false;
        }
        i += 1;
    }
    assert(components(s@).subrange(0, cb.len() as int) =~= components(base@));
    true
}

/// `Path::join`.
pub fn join(base: &str, t: &str) -> (r: String)
    ensures
        r@ == join_path(base@, t@),
{
    let vt = chars_of(t);
    if vt.len() > 0 && vt[0] == '/' {
        return string_from_chars(&vt);
    }
    let vb = chars_of(base);
    proof {
        reveal_strlit("/");
    }
    if vb.len() > 0 && vb[vb.len() - 1] != '/' {
        concat3(base, "/", t)
    } else {
        concat2(base, t)
    }
}

// ── Filesystem probes ─────────────────────────────────────────────────────────

/// `Path::canonicalize`: the absolute form of `p` with every symbolic link resolved and
/// every `.` and `..` component normalized, or the operating system's error message.
/// The result depends on the filesystem, so only its shape is stated.
#[verifier::external_body]
fn canonicalize(p: &str) -> (r: Result<String, String>)
    ensures
        r matches Ok(c) ==> is_absolute(c@) && !has_parent_component(c@),
{
    std::path::Path::new(p).canonicalize().map(|c| c.to_string_lossy().into_owned()).map_err(
        |e| e.to_string(),
    )
}

/// `Path::exists`: whether something is found at `p`. Depends on the filesystem.
#[verifier::external_body]
fn path_exists(p: &str) -> (r: bool) {
    std::path::Path::new(p).exists()
}

// ── Containment ───────────────────────────────────────────────────────────────

pub open spec fn parent_component_message(path: Seq<char>) -> Seq<char> {
    "Path '"@ + path + "' contains '..' components which are not allowed"@
}

pub open spec fn outside_message(path: Seq<char>) -> Seq<char> {
    "Path '"@ + path + "' is outside the working directory"@
}

/// A path in the form `Path::canonicalize` gives: absolute, without `..` components.
pub open spec fn canonical_shape(p: Seq<char>) -> bool {
    is_absolute(p) && !has_parent_component(p)
}

/// What the containment check accepts for `path` under the canonical working directory
/// `cb`: `path` has no `..` component, and the result lies under `cb` and is either
/// `path` resolved against `cb` (nothing is there yet) or the canonical form of what is
/// there.
pub open spec fn accepted(cb: Seq<char>, path: Seq<char>, p: Seq<char>) -> bool {
    &&& !has_parent_component(path)
    &&& path_starts_with(p, cb)
    &&& (p == join_path(cb, path) || canonical_shape(p))
}

/// The final step of the containment check, given the canonical working directory and
/// the path that was checked: accept it when it lies under the base.
pub fn check_within(path: &str, canonical_base: &str, check_path: String) -> (r: Result<
    String,
    AppError,
>)
    ensures
        path_starts_with(check_path@, canonical_base@) ==> (r matches Ok(p) && p@ == check_path@),
        !path_starts_with(check_path@, canonical_base@) ==> rejected(r, outside_message(path@)),
{
    if starts_with_path(check_path.as_str(), canonical_base) {
        Ok(check_path)
    } else {
        Err(AppError::ToolValidation(concat3("Path '", path, "' is outside the working directory")))
    }
}

pub open spec fn base_unreachable_message() -> Seq<char> {
    "Working directory not accessible"@
}

/// The working directory `base_path` in canonical form (`Path::canonicalize`), which the
/// containment checks are relative to. Which directory that is depends on the
/// filesystem; when it cannot be resolved the working directory is not accessible.
pub fn canonical_base(base_path: &str) -> (r: Result<String, AppError>)
    ensures
        r matches Ok(c) ==> canonical_shape(c@),
        r is Err ==> rejected(r, base_unreachable_message()),
{
    match canonicalize(base_path) {
        Ok(c) => Ok(c),
        Err(_) => Err(AppError::ToolValidation("Working directory not accessible".to_owned())),
    }
}

/// What the filesystem said about the path being checked, resolved against the base.
pub enum Probe {
    /// Nothing is there (`Path::exists` is false).
    Absent,
    /// Something is there, and this is its canonical form.
    Canonical(String),
    /// Something is there, but `Path::canonicalize` failed with this message.
    Failed(String),
}

pub enum ProbeAnswer {
    Absent,
    Canonical(Seq<char>),
    Failed(Seq<char>),
}

impl View for Probe {
    type V = ProbeAnswer;

    open spec fn view(&self) -> ProbeAnswer {
        match self {
            Probe::Absent => ProbeAnswer::Absent,
            Probe::Canonical(c) => ProbeAnswer::Canonical(c@),
            Probe::Failed(m) => ProbeAnswer::Failed(m@),
        }
    }
}

/// An answer `Path::canonicalize` can give: a canonical form is absolute, without `..`.
pub open spec fn possible_answer(a: ProbeAnswer) -> bool {
    match a {
        ProbeAnswer::Canonical(c) => canonical_shape(c),
        _ => true,
    }
}

/// The containment decision for `path` under the canonical base `cb`, once the
/// filesystem has answered `a`: the path checked is the canonical form of what is there,
/// or `path` resolved against `cb` when nothing is; it is accepted exactly when it lies
/// under `cb`.
pub open spec fn decided(path: Seq<char>, cb: Seq<char>, a: ProbeAnswer, r: Result<String, AppError>) -> bool {
    match a {
        ProbeAnswer::Failed(m) => r matches Err(AppError::Fs(e)) && e@ == m,
        ProbeAnswer::Canonical(c) => if path_starts_with(c, cb) {
            r matches Ok(p) && p@ == c
        } else {
            rejected(r, outside_message(path))
        },
        ProbeAnswer::Absent => if path_starts_with(join_path(cb, path), cb) {
            r matches Ok(p) && p@ == join_path(cb, path)
        } else {
            rejected(r, outside_message(path))
        },
    }
}

/// The containment decision once the filesystem has answered `probe` for `path`
/// resolved against the canonical working directory `canonical_base`.
pub fn decide_containment(path: &str, canonical_base: &str, probe: Probe) -> (r: Result<String, AppError>)
    ensures
        decided(path@, canonical_base@, probe@, r),
{
    match probe {
        Probe::Failed(m) => Err(AppError::Fs(m)),
        Probe::Canonical(c) => check_within(path, canonical_base, c),
        Probe::Absent => {
            let resolved = join(canonical_base, path);
            check_within(path, canonical_base, resolved)
        },
    }
}

/// The containment rules under the canonical working directory `canonical_base`:
/// rejects `..`, resolves a relative `path` against the base, asks the filesystem
/// whether something is there and for its canonical form, and decides with
/// [`decide_containment`]. What the filesystem answers is not known here; the decision
/// for each answer is.
pub fn contain_path(path: &str, canonical_base: &str) -> (r: Result<String, AppError>)
    ensures
        has_parent_component(path@) ==> rejected(r, parent_component_message(path@)),
        !has_parent_component(path@) ==> exists|a: ProbeAnswer|
            #![trigger decided(path@, canonical_base@, a, r)]
            possible_answer(a) && decided(path@, canonical_base@, a, r),
        r matches Ok(p) ==> accepted(canonical_base@, path@, p@),
        r matches Err(e) ==> refuses(e, path@),
{
    if path_has_parent_component(path) {
        return Err(
            AppError::ToolValidation(
                concat3("Path '", path, "' contains '..' components which are not allowed"),
            ),
        );
    }
    let resolved = join(canonical_base, path);
    let probe = if path_exists(resolved.as_str()) {
        match canonicalize(resolved.as_str()) {
            Ok(c) => Probe::Canonical(c),
            Err(msg) => Probe::Failed(msg),
        }
    } else {
        Probe::Absent
    };
    let ghost a = probe@;
    let r = decide_containment(path, canonical_base, probe);
    assert(possible_answer(a) && decided(path@, canonical_base@, a, r));
    r
}

/// `Path::canonicalize` of the working directory followed by the containment rules
/// ([`canonical_base`], then [`contain_path`]). The base the path is checked against is
/// the canonical form of `base_path`; which directory that is depends on the disk and
/// is not named here, so the contract relates the result to some canonical directory
/// `cb` and states, for every answer of the filesystem, the decision under `cb`. The
/// decision under a given canonical base is exact in [`contain_path`] and
/// [`decide_containment`].
pub fn validate_path_containment(path: &str, base_path: &str) -> (r: Result<String, AppError>)
    ensures
        has_parent_component(path@) ==> rejected(r, parent_component_message(path@)),
        !has_parent_component(path@) ==> rejected(r, base_unreachable_message()) || exists|
            cb: Seq<char>,
            a: ProbeAnswer,
        |
            #![trigger decided(path@, cb, a, r)]
            canonical_shape(cb) && possible_answer(a) && decided(path@, cb, a, r),
        r matches Ok(p) ==> exists|cb: Seq<char>|
            #![trigger accepted(cb, path@, p@)]
            canonical_shape(cb) && accepted(cb, path@, p@),
        r is Err && !has_parent_component(path@) ==> (rejected(r, outside_message(path@))
            || rejected(r, base_unreachable_message()) || r matches Err(AppError::Fs(_))),
{
    if path_has_parent_component(path) {
        return Err(
            AppError::ToolValidation(
                concat3("Path '", path, "' contains '..' components which are not allowed"),
            ),
        );
    }
    let cb = canonical_base(base_path)?;
    let r = contain_path(path, cb.as_str());
    proof {
        if r is Ok {
            assert(accepted(cb@, path@, r->Ok_0@));
        }
        let a = choose|a: ProbeAnswer| possible_answer(a) && decided(path@, cb@, a, r);
        assert(decided(path@, cb@, a, r));
    }
    r
}

/// `r` is the refusal of the path `q` by the containment check: its `..`, its lying
/// outside the working directory, or a filesystem failure.
pub open spec fn path_refused<T>(r: Result<T, AppError>, q: Seq<char>) -> bool {
    match r {
        Err(e) => refuses(e, q),
        Ok(_) => false,
    }
}

/// `e` is a refusal of the path `q` by the containment check.
pub open spec fn refuses(e: AppError, q: Seq<char>) -> bool {
    e.is_validation(parent_component_message(q)) || e.is_validation(outside_message(q)) || e is Fs
}

/// Every path of `paths` passed through the containment check under the canonical
/// working directory `canonical_base`, in order; the first rejection is returned. An
/// empty list is rejected.
pub fn resolve_paths(paths: Vec<String>, canonical_base: &str) -> (r: Result<Vec<String>, AppError>)
    ensures
        paths.len() == 0 ==> rejected(r, "No paths were provided"@),
        paths.len() > 0 && has_parent_component(paths@[0]@) ==> rejected(
            r,
            parent_component_message(paths@[0]@),
        ),
        (exists|i: int| 0 <= i < paths.len() && has_parent_component(#[trigger] paths@[i]@))
            ==> r is Err,
        r matches Ok(v) ==> v.len() == paths.len() && forall|i: int|
            0 <= i < v.len() ==> accepted(canonical_base@, #[trigger] paths@[i]@, v@[i]@),
        r matches Err(e) ==> (paths.len() > 0 ==> exists|k: int|
            #![trigger refuses(e, paths@[k]@)]
            0 <= k < paths.len() && refuses(e, paths@[k]@)),
{
    if paths.len() == 0 {
        return Err(AppError::ToolValidation("No paths were provided".to_owned()));
    }
    let mut out: Vec<String> = Vec::new();
    let mut i: usize = 0;
    while i < paths.len()
        invariant
            0 <= i <= paths.len(),
            out.len() == i,
            forall|k: int| 0 <= k < i ==> !has_parent_component(#[trigger] paths@[k]@),
            forall|k: int| 0 <= k < i ==> accepted(canonical_base@, #[trigger] paths@[k]@, out@[k]@),
        decreases paths.len() - i,
    {
        let p = match contain_path(paths[i].as_str(), canonical_base) {
            Ok(p) => p,
            Err(e) => {
                let r: Result<Vec<String>, AppError> = Err(e);
                assert(path_refused(r, paths@[i as int]@));
                return r;
            },
        };
        out.push(p);
        i += 1;
    }
    Ok(out)
}

/// Both sides of every rename passed through the containment check under the canonical
/// working directory `canonical_base`, in order (old before new); the first rejection is
/// returned.
pub fn resolve_rename_operations(operations: Vec<(String, String)>, canonical_base: &str) -> (r: Result<
    Vec<(String, String)>,
    AppError,
>)
    ensures
        operations.len() > 0 && has_parent_component(operations@[0].0@) ==> rejected(
            r,
            parent_component_message(operations@[0].0@),
        ),
        (exists|i: int|
            0 <= i < operations.len() && (has_parent_component(#[trigger] operations@[i].0@)
                || has_parent_component(operations@[i].1@))) ==> r is Err,
        r matches Ok(v) ==> v.len() == operations.len() && forall|i: int|
            0 <= i < v.len() ==> accepted(canonical_base@, #[trigger] operations@[i].0@, v@[i].0@)
                && accepted(canonical_base@, operations@[i].1@, v@[i].1@),
        operations.len() == 0 ==> (r matches Ok(v) && v.len() == 0),
        r matches Err(e) ==> exists|k: int|
            0 <= k < operations.len() && (refuses(e, #[trigger] operations@[k].0@)
                || refuses(e, operations@[k].1@)),
{
    let mut out: Vec<(String, String)> = Vec::new();
    let mut i: usize = 0;
    while i < operations.len()
        invariant
            0 <= i <= operations.len(),
            out.len() == i,
            forall|k: int|
                0 <= k < i ==> !has_parent_component(#[trigger] operations@[k].0@)
                    && !has_parent_component(operations@[k].1@),
            forall|k: int|
                0 <= k < i ==> accepted(canonical_base@, #[trigger] operations@[k].0@, out@[k].0@)
                    && accepted(canonical_base@, operations@[k].1@, out@[k].1@),
        decreases operations.len() - i,
    {
        let old_resolved = match contain_path(operations[i].0.as_str(), canonical_base) {
            Ok(p) => p,
            Err(e) => {
                let r: Result<Vec<(String, String)>, AppError> = Err(e);
                assert(path_refused(r, operations@[i as int].0@));
                return r;
            },
        };
        let new_resolved = match contain_path(operations[i].1.as_str(), canonical_base) {
            Ok(p) => p,
            Err(e) => {
                let r: Result<Vec<(String, String)>, AppError> = Err(e);
                assert(path_refused(r, operations@[i as int].1@));
                return r;
            },
        };
        assert(!has_parent_component(operations@[i as int].0@));
        assert(!has_parent_component(operations@[i as int].1@));
        assert forall|k: int| 0 <= k < i + 1 implies !has_parent_component(
            #[trigger] operations@[k].0@,
        ) && !has_parent_component(operations@[k].1@) by {}
        let ghost before = out@;
        out.push((old_resolved, new_resolved));
        assert forall|k: int| 0 <= k < i + 1 implies accepted(
            canonical_base@,
            #[trigger] operations@[k].0@,
            out@[k].0@,
        ) && accepted(canonical_base@, operations@[k].1@, out@[k].1@) by {
            if k < i {
                assert(out@[k] == before[k]);
            }
        }
        i += 1;
    }
    assert(!exists|k: int|
        0 <= k < operations.len() && (has_parent_component(#[trigger] operations@[k].0@)
            || has_parent_component(operations@[k].1@)));
    Ok(out)
}

/// The `Debug` rendering of a string: quoted, with special characters escaped.
pub uninterp spec fn debug_quoted(s: Seq<char>) -> Seq<char>;

/// `<str as Debug>::fmt`, rendered to a `String`.
#[verifier::external_body]
pub(crate) fn debug_str(s: &str) -> (r: String)
    ensures
        r@ == debug_quoted(s@),
{
    format!("{:?}", s)
}

/// A file name produced by a bulk rename must be a single, real path component.
pub open spec fn valid_generated_filename(name: Seq<char>) -> bool {
    &&& name.len() > 0
    &&& name != dot()
    &&& name != dotdot()
    &&& !name.contains('/')
    &&& !name.contains('\\')
}

pub open spec fn invalid_filename_message(name: Seq<char>) -> Seq<char> {
    "Bulk rename generated an invalid filename: "@ + debug_quoted(name)
}

/// Rejects a generated file name that is empty, `.`, `..`, or holds a separator.
pub fn validate_generated_filename(name: &str) -> (r: Result<(), AppError>)
    ensures
        r is Ok <==> valid_generated_filename(name@),
        r is Err ==> rejected(r, invalid_filename_message(name@)),
{
    let v = chars_of(name);
    let mut has_sep = false;
    let mut i: usize = 0;
    while i < v.len()
        invariant
            0 <= i <= v.len(),
            v@ == name@,
            has_sep == (exists|k: int| 0 <= k < i && (v@[k] == '/' || v@[k] == '\\')),
        decreases v.len() - i,
    {
        if v[i] == '/' || v[i] == '\\' {
            has_sep = true;
        }
        i += 1;
    }
    let bad = v.len() == 0 || (v.len() == 1 && v[0] == '.') || (v.len() == 2 && v[0] == '.'
        && v[1] == '.') || has_sep;
    proof {
        if v@ == dot() {
            assert(v@[0] == '.');
        }
        if v@ == dotdot() {
            assert(v@[0] == '.' && v@[1] == '.');
        }
        if v.len() == 1 && v@[0] == '.' {
            assert(v@ =~= dot());
        }
        if v.len() == 2 && v@[0] == '.' && v@[1] == '.' {
            assert(v@ =~= dotdot());
        }
        if name@.contains('/') {
            let k = choose|k: int| 0 <= k < name@.len() && name@[k] == '/';
            assert(v@[k] == '/');
        }
        if name@.contains('\\') {
            let k = choose|k: int| 0 <= k < name@.len() && name@[k] == '\\';
            assert(v@[k] == '\\');
        }
    }
    if bad {
        let quoted = debug_str(name);
        Err(AppError::ToolValidation(concat2("Bulk rename generated an invalid filename: ", quoted.as_str())))
    } else {
        Ok(())
    }
}

/// Flattens an absolute path into a single directory name by replacing each
/// `/` and `\` with `-`.
pub open spec fn sanitized(p: Seq<char>) -> Seq<char> {
    p.map_values(|c: char| if c == '/' || c == '\\' { '-' } else { c })
}

/// `/home/nas/myproject` becomes `-home-nas-myproject`.
pub fn sanitize_path(path: &str) -> (r: String)
    ensures
        r@ == sanitized(path@),
{
    let v = chars_of(path);
    let mut r = String::new();
    let mut i: usize = 0;
    while i < v.len()
        invariant
            0 <= i <= v.len(),
            v@ == path@,
            r@ == sanitized(v@.take(i as int)),
        decreases v.len() - i,
    {
        let c = v[i];
        r.push(if c == '/' || c == '\\' { '-' } else { c });
        assert(sanitized(v@.take(i + 1)) == sanitized(v@.take(i as int)).push(
            if c == '/' || c == '\\' { '-' } else { c },
        ));
        i += 1;
    }
    assert(v@.take(v.len() as int) == v@);
    r
}

} // verus!
