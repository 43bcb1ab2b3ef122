//! The Content Fingerprint Provider: the fingerprint of an ordered path list
//! at one commit is the text `<object-id> <path>`, one line per path, in
//! input order, with no normalization beyond that. The version-control object
//! store is read through trusted declarations of the `git2` crate; everything
//! built on what the store answers is verified.

use vstd::prelude::*;
use vstd::string::StringExecFns;

verus! {

#[verifier::external_type_specification]
#[verifier::external_body]
pub struct ExRepository(git2::Repository);

#[verifier::external_type_specification]
#[verifier::external_body]
pub struct ExOid(git2::Oid);

#[verifier::external_type_specification]
#[verifier::external_body]
pub struct ExGit2Error(git2::Error);

#[verifier::external_type_specification]
#[verifier::external_body]
pub struct ExCommit<'repo>(git2::Commit<'repo>);

#[verifier::external_type_specification]
#[verifier::external_body]
pub struct ExTree<'repo>(git2::Tree<'repo>);

#[verifier::external_type_specification]
#[verifier::external_body]
pub struct ExTreeEntry<'tree>(git2::TreeEntry<'tree>);

/// Relies on git2::Oid::from_str: parses a hex object id; errors on an empty,
/// overlong or non-hex text.
#[verifier::external_body]
fn oid_from_str(hash: &str) -> (r: Result<git2::Oid, git2::Error>) {
    git2::Oid::from_str(hash)
}

/// Relies on git2::Repository::refname_to_id: resolves a reference name to
/// the object id it points to.
#[verifier::external_body]
pub fn refname_to_id(repo: &git2::Repository, name: &str) -> (r: Result<git2::Oid, git2::Error>) {
    repo.refname_to_id(name)
}

/// Relies on git2::Repository::find_commit: looks a commit up in the object
/// store.
#[verifier::external_body]
fn find_commit<'r>(repo: &'r git2::Repository, oid: &git2::Oid) -> (r: Result<
    git2::Commit<'r>,
    git2::Error,
>) {
    repo.find_commit(*oid)
}

/// Relies on git2::Commit::tree: the file tree the commit records.
#[verifier::external_body]
fn commit_tree<'r>(commit: &git2::Commit<'r>) -> (r: Result<git2::Tree<'r>, git2::Error>) {
    commit.tree()
}

/// Relies on git2::Tree::get_path: the entry a relative path points to inside
/// the tree; errors when the path is not in the tree.
#[verifier::external_body]
fn tree_get_path<'t>(tree: &git2::Tree<'t>, path: &str) -> (r: Result<
    git2::TreeEntry<'static>,
    git2::Error,
>) {
    tree.get_path(std::path::Path::new(path))
}

/// Relies on git2::TreeEntry::id: the entry's content-object id.
#[verifier::external_body]
fn tree_entry_id<'t>(entry: &git2::TreeEntry<'t>) -> (r: git2::Oid) {
    entry.id()
}

/// Relies on git2::Oid's hex rendering (its Display implementation): exactly
/// forty lowercase hex digits.
#[verifier::external_body]
pub fn oid_hex(oid: &git2::Oid) -> (r: String)
    ensures
        r@.len() == 40,
        forall|i: int| 0 <= i < r@.len() ==> is_hex_char(r@[i]),
{
    format!("{}", oid)
}

/// Relies on git2::Error's Display implementation: the message followed by
/// the error's class and code.
#[verifier::external_body]
pub fn git_error_text(e: &git2::Error) -> (r: String) {
    format!("{}", e)
}

/// A lowercase hex digit; in particular never a space and never a line end.
pub open spec fn is_hex_char(c: char) -> bool {
    ('0' <= c && c <= '9') || ('a' <= c && c <= 'f')
}

/// Text that can stand as a rendered content-object id: nonempty, hex only.
pub open spec fn valid_oid_text(s: Seq<char>) -> bool {
    s.len() > 0 && forall|i: int| 0 <= i < s.len() ==> is_hex_char(s[i])
}

/// A failure while resolving a fingerprint against the object store.
#[derive(Debug)]
pub enum GitError {
    /// The configured dependency path list is empty; an empty fingerprint
    /// would vacuously equal another and corrupt the matching.
    PathsEmpty,
    /// The commit hash did not parse as an object id.
    CommitHashError { detail: String },
    /// The commit is not in the object store.
    CommitNotFound { commit_hash: String, detail: String },
    /// The commit's tree, or a configured path inside it, cannot be resolved.
    TreeNotFound { commit_hash: String, detail: String },
}

/// The error's text: its context and, where one exists, the store's own
/// message after it.
pub open spec fn git_error_message(e: &GitError) -> Seq<char> {
    match e {
        GitError::PathsEmpty => "paths is empty"@,
        GitError::CommitHashError { detail } => "commit hash error: "@ + detail@,
        GitError::CommitNotFound { commit_hash, detail } => "commit "@ + commit_hash@
            + " not found error:: "@ + detail@,
        GitError::TreeNotFound { commit_hash, detail } => "tree of commit "@ + commit_hash@
            + " not found error: "@ + detail@,
    }
}

impl GitError {
    /// Renders the error (see [`git_error_message`]).
    pub fn message(&self) -> (r: String)
        ensures
            r@ == git_error_message(self),
    {
        match self {
            GitError::PathsEmpty => "paths is empty".to_owned(),
            GitError::CommitHashError { detail } => {
                let mut r: String = "commit hash error: ".to_owned();
                r.append(detail.as_str());
                r
            },
            GitError::CommitNotFound { commit_hash, detail } => {
                let mut r: String = "commit ".to_owned();
                r.append(commit_hash.as_str());
                r.append(" not found error:: ");
                r.append(detail.as_str());
                proof {
                    assert(r@ =~= git_error_message(self));
                }
                r
            },
            GitError::TreeNotFound { commit_hash, detail } => {
                let mut r: String = "tree of commit ".to_owned();
                r.append(commit_hash.as_str());
                r.append(" not found error: ");
                r.append(detail.as_str());
                proof {
                    assert(r@ =~= git_error_message(self));
                }
                r
            },
        }
    }
}

/// One fingerprint line: the object id, a space, the path, a line end.
pub open spec fn fingerprint_line(oid: Seq<char>, path: Seq<char>) -> Seq<char> {
    oid + seq![' '] + path + seq!['\n']
}

/// The fingerprint text for a path list and the object ids found for it, in
/// input order.
pub open spec fn fingerprint_text(oids: Seq<Seq<char>>, paths: Seq<Seq<char>>) -> Seq<char>
    decreases oids.len(),
{
    if oids.len() == 0 {
        Seq::<char>::empty()
    } else {
        fingerprint_line(oids[0], paths[0]) + fingerprint_text(oids.skip(1), paths.skip(1))
    }
}

/// Appending one more path extends the fingerprint text by one line.
proof fn lemma_fingerprint_text_push(
    oids: Seq<Seq<char>>,
    paths: Seq<Seq<char>>,
    oid: Seq<char>,
    path: Seq<char>,
)
    requires
        oids.len() == paths.len(),
    ensures
        fingerprint_text(oids.push(oid), paths.push(path)) == fingerprint_text(oids, paths)
            + fingerprint_line(oid, path),
    decreases oids.len(),
{
    if oids.len() == 0 {
        let a = oids.push(oid);
        let p = paths.push(path);
        assert(a[0] == oid && p[0] == path);
        assert(a.skip(1) =~~= Seq::<Seq<char>>::empty());
        assert(p.skip(1) =~~= Seq::<Seq<char>>::empty());
        assert(fingerprint_text(a.skip(1), p.skip(1)) =~= Seq::<char>::empty());
        assert(fingerprint_text(a, p) =~= fingerprint_line(oid, path));
        assert(fingerprint_text(oids, paths) + fingerprint_line(oid, path) =~= fingerprint_line(
            oid,
            path,
        ));
    } else {
        assert(oids.push(oid).skip(1) =~~= oids.skip(1).push(oid));
        assert(paths.push(path).skip(1) =~~= paths.skip(1).push(path));
        lemma_fingerprint_text_push(oids.skip(1), paths.skip(1), oid, path);
        assert(fingerprint_line(oids[0], paths[0]) + (fingerprint_text(
            oids.skip(1),
            paths.skip(1),
        ) + fingerprint_line(oid, path)) =~= (fingerprint_line(oids[0], paths[0])
            + fingerprint_text(oids.skip(1), paths.skip(1))) + fingerprint_line(oid, path));
    }
}

/// Two fingerprint texts that share their first path and are equal as text
/// carry the same first object id and the same tail.
proof fn lemma_line_prefix_eq(
    a0: Seq<char>,
    b0: Seq<char>,
    path: Seq<char>,
    ra: Seq<char>,
    rb: Seq<char>,
)
    requires
        valid_oid_text(a0),
        valid_oid_text(b0),
        fingerprint_line(a0, path) + ra == fingerprint_line(b0, path) + rb,
    ensures
        a0 == b0,
        ra == rb,
{
    let ta = fingerprint_line(a0, path) + ra;
    let tb = fingerprint_line(b0, path) + rb;
    assert(!is_hex_char(' '));
    if a0.len() < b0.len() {
        let i = a0.len() as int;
        assert(ta[i] == ' ');
        assert(tb[i] == b0[i]);
        assert(is_hex_char(b0[i]));
        assert(false);
    }
    if b0.len() < a0.len() {
        let i = b0.len() as int;
        assert(tb[i] == ' ');
        assert(ta[i] == a0[i]);
        assert(is_hex_char(a0[i]));
        assert(false);
    }
    assert forall|i: int| 0 <= i < a0.len() implies a0[i] == b0[i] by {
        assert(ta[i] == a0[i]);
        assert(tb[i] == b0[i]);
    }
    assert(a0 =~= b0);
    let ll = fingerprint_line(a0, path).len() as int;
    assert(ta.len() == ll + ra.len());
    assert(fingerprint_line(b0, path).len() == ll);
    assert(tb.len() == ll + rb.len());
    assert(ra.len() == rb.len());
    assert forall|i: int| 0 <= i < ra.len() implies ra[i] == rb[i] by {
        assert(ta[ll + i] == ra[i]);
        assert(tb[ll + i] == rb[i]);
    }
    assert(ra =~= rb);
}

/// Law: over one fixed path list, the fingerprints built from two commits'
/// object ids are equal exactly when every path's content-object id is
/// identical in both.
pub proof fn lemma_fingerprint_eq(a: Seq<Seq<char>>, b: Seq<Seq<char>>, paths: Seq<Seq<char>>)
    requires
        a.len() == paths.len(),
        b.len() == paths.len(),
        forall|i: int| 0 <= i < a.len() ==> valid_oid_text(#[trigger] a[i]),
        forall|i: int| 0 <= i < b.len() ==> valid_oid_text(#[trigger] b[i]),
    ensures
        fingerprint_text(a, paths) == fingerprint_text(b, paths) <==> a =~~= b,
    decreases paths.len(),
{
    if paths.len() == 0 {
        assert(a =~~= b);
    } else {
        lemma_fingerprint_eq(a.skip(1), b.skip(1), paths.skip(1));
        if fingerprint_text(a, paths) == fingerprint_text(b, paths) {
            lemma_line_prefix_eq(
                a[0],
                b[0],
                paths[0],
                fingerprint_text(a.skip(1), paths.skip(1)),
                fingerprint_text(b.skip(1), paths.skip(1)),
            );
            assert(a.skip(1) =~~= b.skip(1));
            assert forall|i: int| 0 <= i < a.len() implies a[i] == b[i] by {
                if i > 0 {
                    assert(a[i] == a.skip(1)[i - 1]);
                    assert(b[i] == b.skip(1)[i - 1]);
                }
            }
            assert(a =~~= b);
        }
        if a =~~= b {
            assert(a == b);
        }
    }
}

/// Computes the fingerprint of `paths` at the commit `commit_hash` names:
/// each path's content-object id is read from the commit's tree, and the
/// lines are concatenated in input order. An empty path list is exactly the
/// `PathsEmpty` error — never an empty successful fingerprint. Every other
/// outcome follows the object store: whatever ids the store answered, the
/// returned text is their fingerprint text (in particular it is never empty),
/// and a store failure is the matching error.
pub fn get_tree_of_paths(repo: &git2::Repository, commit_hash: &str, paths: &Vec<String>) -> (r:
    Result<String, GitError>)
    ensures
        paths@.len() == 0 <==> r == Err::<String, GitError>(GitError::PathsEmpty),
        match r {
            Ok(f) => {
                &&& paths@.len() > 0
                &&& f@.len() > 0
                &&& exists|oids: Seq<Seq<char>>|
                    {
                        &&& oids.len() == paths@.len()
                        &&& (forall|i: int| 0 <= i < oids.len() ==> valid_oid_text(#[trigger] oids[i]))
                        &&& f@ == fingerprint_text(oids, paths.deep_view())
                    }
            },
            Err(_) => true,
        },
{
    if paths.len() == 0 {
        return Err(GitError::PathsEmpty);
    }
    let oid = match oid_from_str(commit_hash) {
        Ok(o) => o,
        Err(e) => {
            return Err(GitError::CommitHashError { detail: git_error_text(&e) });
        },
    };
    let commit = match find_commit(repo, &oid) {
        Ok(c) => c,
        Err(e) => {
            return Err(
                GitError::CommitNotFound {
                    commit_hash: commit_hash.to_owned(),
                    detail: git_error_text(&e),
                },
            );
        },
    };
    let tree = match commit_tree(&commit) {
        Ok(t) => t,
        Err(e) => {
            return Err(
                GitError::TreeNotFound {
                    commit_hash: commit_hash.to_owned(),
                    detail: git_error_text(&e),
                },
            );
        },
    };
    let mut out = String::new();
    let ghost mut oids: Seq<Seq<char>> = Seq::<Seq<char>>::empty();
    let mut i: usize = 0;
    proof {
        assert(paths.deep_view().take(0) =~~= Seq::<Seq<char>>::empty());
    }
    while i < paths.len()
        invariant
            i <= paths@.len(),
            oids.len() == i,
            forall|t: int| 0 <= t < i ==> valid_oid_text(#[trigger] oids[t]),
            out@ == fingerprint_text(oids, paths.deep_view().take(i as int)),
        decreases paths@.len() - i,
    {
        let entry = match tree_get_path(&tree, paths[i].as_str()) {
            Ok(en) => en,
            Err(e) => {
                return Err(
                    GitError::TreeNotFound {
                        commit_hash: commit_hash.to_owned(),
                        detail: git_error_text(&e),
                    },
                );
            },
        };
        let id = tree_entry_id(&entry);
        let hex = oid_hex(&id);
        out.append(hex.as_str());
        out.append(" ");
        out.append(paths[i].as_str());
        out.append("\n");
        proof {
            reveal_strlit(" ");
            reveal_strlit("\n");
            let prefix = paths.deep_view().take(i as int);
            lemma_fingerprint_text_push(oids, prefix, hex@, paths@[i as int]@);
            assert(" "@ =~= seq![' ']);
            assert("\n"@ =~= seq!['\n']);
            assert(out@ =~= fingerprint_text(oids, prefix) + fingerprint_line(
                hex@,
                paths@[i as int]@,
            ));
            assert(prefix.push(paths@[i as int]@) =~~= paths.deep_view().take(i + 1));
            oids = oids.push(hex@);
        }
        i += 1;
    }
    proof {
        assert(paths.deep_view().take(paths@.len() as int) =~~= paths.deep_view());
        assert(out@ == fingerprint_text(oids, paths.deep_view()));
        assert(out@.len() >= fingerprint_line(oids[0], paths.deep_view()[0]).len());
    }
    Ok(out)
}

} // verus!
