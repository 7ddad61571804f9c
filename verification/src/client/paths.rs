//! Where the daemon listens and where it keeps its files. Server and client use
//! the same derivations, so that they agree.

use crate::native_path::{below, law_names_tell_paths_apart, lossy_text, NativePath};
use vstd::prelude::*;
use vstd::string::*;

verus! {

/// The part of a name that tells scopes apart.
pub open spec fn scope_suffix(scope_hash: Option<Seq<char>>) -> Seq<char> {
    match scope_hash {
        Some(hash) => "-"@ + hash,
        None => Seq::empty(),
    }
}

/// The text of an optional scope.
pub open spec fn scope_text(scope_hash: Option<&str>) -> Option<Seq<char>> {
    match scope_hash {
        Some(hash) => Some(hash@),
        None => None,
    }
}

fn scoped(stem: &str, scope_hash: Option<&str>, extension: &str) -> (s: String)
    ensures
        s@ == stem@ + scope_suffix(scope_text(scope_hash)) + extension@,
{
    let mut s: String = stem.to_owned();
    match scope_hash {
        Some(hash) => {
            s.append("-");
            s.append(hash);
            assert(s@ =~= stem@ + ("-"@ + hash@));
        },
        None => {
            assert(s@ =~= stem@ + Seq::<char>::empty());
        },
    }
    s.append(extension);
    s
}

/// The name that the daemon listens on, where sockets have names in the
/// filesystem.
pub open spec fn socket_file(runtime_dir: Seq<char>, scope_hash: Option<Seq<char>>) -> Seq<char> {
    runtime_dir + "/"@ + ("daemon"@ + scope_suffix(scope_hash) + ".sock"@)
}

/// The name that the daemon listens on, where sockets are named pipes.
pub open spec fn pipe_name(user: Option<Seq<char>>, scope_hash: Option<Seq<char>>) -> Seq<char> {
    "\\\\.\\pipe\\running-process-daemon-"@ + (match user {
        Some(name) => name,
        None => "unknown"@,
    }) + scope_suffix(scope_hash)
}

/// The name that the daemon listens on: a file in the runtime directory, as that
/// directory is shown, or a named pipe for the user.
pub fn socket_path_view(
    scope_hash: Option<&str>,
    filesystem_backed: bool,
    runtime_dir: &NativePath,
    user: Option<&str>,
) -> (s: String)
    ensures
        s@ == (if filesystem_backed {
            socket_file(lossy_text(runtime_dir@), scope_text(scope_hash))
        } else {
            pipe_name(scope_text(user), scope_text(scope_hash))
        }),
{
    if filesystem_backed {
        let mut s: String = runtime_dir.shown();
        s.append("/");
        let name = scoped("daemon", scope_hash, ".sock");
        s.append(name.as_str());
        s
    } else {
        let mut s: String = "\\\\.\\pipe\\running-process-daemon-".to_owned();
        match user {
            Some(name) => s.append(name),
            None => s.append("unknown"),
        }
        let ghost before = s@;
        match scope_hash {
            Some(hash) => {
                s.append("-");
                s.append(hash);
                assert(s@ =~= before + ("-"@ + hash@));
            },
            None => {
                assert(s@ =~= before + Seq::<char>::empty());
            },
        }
        s
    }
}

/// The file with the number of the daemon process.
pub fn pid_file_path_view(scope_hash: Option<&str>, runtime_dir: &NativePath) -> (p: NativePath)
    ensures
        p@ == below(runtime_dir@, "daemon"@ + scope_suffix(scope_text(scope_hash)) + ".pid"@),
{
    runtime_dir.join(scoped("daemon", scope_hash, ".pid").as_str())
}

/// The database of tracked processes.
pub fn db_path_view(scope_hash: Option<&str>, data_dir: &NativePath) -> (p: NativePath)
    ensures
        p@ == below(
            data_dir@,
            "tracked-pids"@ + scope_suffix(scope_text(scope_hash)) + ".sqlite3"@,
        ),
{
    data_dir.join(scoped("tracked-pids", scope_hash, ".sqlite3").as_str())
}

/// The directory for ephemeral run data.
pub fn shadow_dir_view(run_data_root: &NativePath) -> (p: NativePath)
    ensures
        p@ == below(run_data_root@, "run"@),
{
    run_data_root.join("run")
}

/// Different scopes have different files: no two daemons share one.
pub proof fn law_scopes_do_not_share_files(
    directory: Seq<u8>,
    a: Option<Seq<char>>,
    b: Option<Seq<char>>,
)
    requires
        a != b,
    ensures
        socket_file(lossy_text(directory), a) != socket_file(lossy_text(directory), b),
        below(directory, "daemon"@ + scope_suffix(a) + ".pid"@) != below(
            directory,
            "daemon"@ + scope_suffix(b) + ".pid"@,
        ),
        below(directory, "tracked-pids"@ + scope_suffix(a) + ".sqlite3"@) != below(
            directory,
            "tracked-pids"@ + scope_suffix(b) + ".sqlite3"@,
        ),
{
    let shown = lossy_text(directory);
    let none = Seq::<char>::empty();
    lemma_suffixes_differ(a, b);
    lemma_inside(shown + "/"@, "daemon"@, ".sock"@, scope_suffix(a), scope_suffix(b));
    assert(socket_file(shown, a) =~= shown + "/"@ + "daemon"@ + scope_suffix(a) + ".sock"@);
    assert(socket_file(shown, b) =~= shown + "/"@ + "daemon"@ + scope_suffix(b) + ".sock"@);
    lemma_inside(none, "daemon"@, ".pid"@, scope_suffix(a), scope_suffix(b));
    lemma_inside(none, "tracked-pids"@, ".sqlite3"@, scope_suffix(a), scope_suffix(b));
    assert(none + "daemon"@ =~= "daemon"@);
    assert(none + "tracked-pids"@ =~= "tracked-pids"@);
    law_names_tell_paths_apart(
        directory,
        "daemon"@ + scope_suffix(a) + ".pid"@,
        "daemon"@ + scope_suffix(b) + ".pid"@,
    );
    law_names_tell_paths_apart(
        directory,
        "tracked-pids"@ + scope_suffix(a) + ".sqlite3"@,
        "tracked-pids"@ + scope_suffix(b) + ".sqlite3"@,
    );
}

proof fn lemma_suffixes_differ(a: Option<Seq<char>>, b: Option<Seq<char>>)
    requires
        a != b,
    ensures
        scope_suffix(a) != scope_suffix(b),
{
    reveal_strlit("-");
    if scope_suffix(a) == scope_suffix(b) {
        match (a, b) {
            (Some(x), Some(y)) => {
                assert(("-"@ + x).skip(1) =~= x);
                assert(("-"@ + y).skip(1) =~= y);
            },
            (Some(x), None) => {
                assert(("-"@ + x).len() > 0);
            },
            (None, Some(y)) => {
                assert(("-"@ + y).len() > 0);
            },
            (None, None) => {},
        }
    }
}

proof fn lemma_inside(
    front: Seq<char>,
    stem: Seq<char>,
    back: Seq<char>,
    x: Seq<char>,
    y: Seq<char>,
)
    requires
        x != y,
    ensures
        front + stem + x + back != front + stem + y + back,
{
    let a = front + stem + x + back;
    let b = front + stem + y + back;
    if a == b {
        let n = (front + stem).len() as int;
        assert(a.len() == n + x.len() + back.len());
        assert(b.len() == n + y.len() + back.len());
        assert(a.subrange(n, n + x.len()) =~= x);
        assert(b.subrange(n, n + y.len()) =~= y);
    }
}

/// The socket of a daemon stands in its runtime directory, and its name tells the
/// scope; without a scope it is the plain name. The same holds of named pipes, which
/// tell the user, and a user who is not known is `unknown`.
pub proof fn law_names_tell_scope_and_user(
    runtime_dir: Seq<char>,
    user: Seq<char>,
    hash: Seq<char>,
)
    ensures
        socket_file(runtime_dir, None) == runtime_dir + "/daemon.sock"@,
        socket_file(runtime_dir, Some(hash)) == runtime_dir + "/daemon-"@ + hash + ".sock"@,
        pipe_name(Some(user), None) == "\\\\.\\pipe\\running-process-daemon-"@ + user,
        pipe_name(Some(user), Some(hash)) == "\\\\.\\pipe\\running-process-daemon-"@ + user + "-"@
            + hash,
        pipe_name(None, None) == "\\\\.\\pipe\\running-process-daemon-unknown"@,
        scope_suffix(None).len() == 0,
        scope_suffix(Some(hash)) == seq!['-'] + hash,
{
    reveal_strlit("/");
    reveal_strlit("-");
    reveal_strlit("daemon");
    reveal_strlit(".sock");
    reveal_strlit("/daemon.sock");
    reveal_strlit("/daemon-");
    reveal_strlit("unknown");
    reveal_strlit("\\\\.\\pipe\\running-process-daemon-");
    reveal_strlit("\\\\.\\pipe\\running-process-daemon-unknown");
    assert(socket_file(runtime_dir, None) =~= runtime_dir + "/daemon.sock"@);
    assert(socket_file(runtime_dir, Some(hash)) =~= runtime_dir + "/daemon-"@ + hash + ".sock"@);
    assert(pipe_name(Some(user), None) =~= "\\\\.\\pipe\\running-process-daemon-"@ + user);
    assert(pipe_name(Some(user), Some(hash)) =~= "\\\\.\\pipe\\running-process-daemon-"@ + user
        + "-"@ + hash);
    assert(pipe_name(None, None) =~= "\\\\.\\pipe\\running-process-daemon-unknown"@);
}

} // verus!
