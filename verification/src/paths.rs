//! On-disk layout for materialized scripts.
//!
//! Each execution gets its own directory, `{logs}tasks/{task id}/execs/
//! {execution id}`, holding exactly one file, `task.sh`, with the task's
//! payload. The path is fully determined by the pair of identifiers, so
//! re-materializing the same execution always lands on the same file, and
//! distinct executions (with slash-free identifiers, as the server issues
//! them) never share a directory. The `logs` prefix is concatenated as
//! given: by convention it ends in a path separator or is empty.

use vstd::prelude::*;

verus! {

/// A sequence of characters that contains no path separator.
pub open spec fn slash_free(s: Seq<char>) -> bool {
    forall|i: int| 0 <= i < s.len() ==> s[i] != '/'
}

/// The directory that holds one execution's artifacts.
pub open spec fn exec_dir_spec(logs: Seq<char>, task_id: Seq<char>, exec_id: Seq<char>) -> Seq<
    char,
> {
    logs + "tasks/"@ + task_id + "/execs/"@ + exec_id
}

/// The script file inside an execution directory.
pub open spec fn script_path_spec(dir: Seq<char>) -> Seq<char> {
    dir + "/task.sh"@
}

/// Build the execution directory path from the logs prefix and the two
/// identifiers.
pub fn exec_dir(logs: &str, task_id: &str, exec_id: &str) -> (r: String)
    ensures
        r@ == exec_dir_spec(logs@, task_id@, exec_id@),
{
    let mut r: String = logs.to_owned();
    r.append("tasks/");
    r.append(task_id);
    r.append("/execs/");
    r.append(exec_id);
    proof {
        assert(r@ =~= exec_dir_spec(logs@, task_id@, exec_id@));
    }
    r
}

/// Build the script path inside an execution directory.
pub fn script_path(dir: &str) -> (r: String)
    ensures
        r@ == script_path_spec(dir@),
{
    let mut r: String = dir.to_owned();
    r.append("/task.sh");
    r
}

/// The execution directory depends only on the two identifiers (and the
/// fixed logs prefix): dispatching an execution twice materializes to the
/// same path both times.
pub proof fn lemma_exec_dir_deterministic(
    logs: Seq<char>,
    t1: Seq<char>,
    e1: Seq<char>,
    t2: Seq<char>,
    e2: Seq<char>,
)
    requires
        t1 == t2,
        e1 == e2,
    ensures
        exec_dir_spec(logs, t1, e1) == exec_dir_spec(logs, t2, e2),
{
}

/// If two strings that each end in a slash are extended with slash-free
/// tails and the results coincide, the tails coincide and so do the
/// prefixes.
proof fn lemma_slash_suffix(a1: Seq<char>, e1: Seq<char>, a2: Seq<char>, e2: Seq<char>)
    requires
        a1.len() > 0,
        a1[a1.len() - 1] == '/',
        a2.len() > 0,
        a2[a2.len() - 1] == '/',
        slash_free(e1),
        slash_free(e2),
        a1 + e1 == a2 + e2,
    ensures
        e1 == e2,
        a1 == a2,
{
    let s = a1 + e1;
    assert(s.len() == a1.len() + e1.len());
    assert(s.len() == a2.len() + e2.len());
    if e1.len() < e2.len() {
        let k = a1.len() - 1;
        assert(s[k] == '/');
        assert(s[k] == e2[k - a2.len()]);
        assert(false);
    }
    if e2.len() < e1.len() {
        let k = a2.len() - 1;
        assert((a2 + e2)[k] == '/');
        assert((a2 + e2)[k] == e1[k - a1.len()]);
        assert(false);
    }
    assert(e1 =~= e2) by {
        assert(forall|i: int|
            0 <= i < e1.len() ==> e1[i] == s[a1.len() + i] && e2[i] == s[a2.len() + i]);
    }
    assert(a1 =~= a2) by {
        assert(forall|i: int| 0 <= i < a1.len() ==> a1[i] == s[i] && a2[i] == s[i]);
    }
}

/// Distinct executions get distinct directories: with slash-free
/// identifiers, the execution directory determines the task id and the
/// execution id. Concurrent lifecycles therefore never contend on a path.
pub proof fn lemma_exec_dir_injective(
    logs: Seq<char>,
    t1: Seq<char>,
    e1: Seq<char>,
    t2: Seq<char>,
    e2: Seq<char>,
)
    requires
        slash_free(t1),
        slash_free(e1),
        slash_free(t2),
        slash_free(e2),
        exec_dir_spec(logs, t1, e1) == exec_dir_spec(logs, t2, e2),
    ensures
        t1 == t2,
        e1 == e2,
{
    reveal_strlit("tasks/");
    reveal_strlit("/execs/");
    let a1 = logs + "tasks/"@ + t1 + "/execs/"@;
    let a2 = logs + "tasks/"@ + t2 + "/execs/"@;
    assert(a1[a1.len() - 1] == '/');
    assert(a2[a2.len() - 1] == '/');
    assert(a1 + e1 == a2 + e2) by {
        assert(a1 + e1 =~= logs + "tasks/"@ + t1 + "/execs/"@ + e1);
        assert(a2 + e2 =~= logs + "tasks/"@ + t2 + "/execs/"@ + e2);
    }
    lemma_slash_suffix(a1, e1, a2, e2);
    assert(t1.len() == t2.len());
    assert(t1 =~= t2) by {
        assert(forall|i: int|
            0 <= i < t1.len() ==> t1[i] == a1[logs.len() + 6 + i] && t2[i] == a2[logs.len() + 6
                + i]);
    }
}

} // verus!
