//! Paths as text, joined the way `std::path::Path::join` joins them on Unix.

use vstd::prelude::*;

use crate::text::chars_of;

verus! {

/// `name` seen from the directory `base`: an absolute name stands by itself,
/// any other is appended behind one `/`.
pub open spec fn joined(base: Seq<char>, name: Seq<char>) -> Seq<char> {
    if name.len() > 0 && name[0] == '/' {
        name
    } else if base.len() == 0 || base.last() == '/' {
        base + name
    } else {
        base + "/"@ + name
    }
}

/// `name` seen from the directory `base`.
pub fn join_path(base: &str, name: &str) -> (out: String)
    ensures
        out@ == joined(base@, name@),
{
    let b = chars_of(base);
    let n = chars_of(name);
    if n.len() > 0 && n[0] == '/' {
        return name.to_string();
    }
    let mut out = base.to_string();
    if b.len() > 0 && b[b.len() - 1] != '/' {
        out.append("/");
    }
    out.append(name);
    out
}

/// The value of an environment variable, or a default where it is not set.
pub fn value_or(value: Option<String>, default: &str) -> (out: String)
    ensures
        out@ == match value {
            Some(v) => v@,
            None => default@,
        },
{
    match value {
        Some(v) => v,
        None => default.to_string(),
    }
}

/// The directory that sockets and per-session files go into: the value of
/// `REDFOG_RUNTIME_DIR`, or `/tmp/redfog-runtime` where that is not set.
pub fn default_runtime_dir(redfog_runtime_dir: Option<String>) -> (out: String)
    ensures
        out@ == match redfog_runtime_dir {
            Some(v) => v@,
            None => "/tmp/redfog-runtime"@,
        },
{
    value_or(redfog_runtime_dir, "/tmp/redfog-runtime")
}

/// An absolute name stands for itself; any other lies below the directory, from
/// which a single `/` parts it.
pub proof fn law_joined_paths_lie_below_their_directory(base: Seq<char>, name: Seq<char>)
    ensures
        name.len() > 0 && name[0] == '/' ==> joined(base, name) == name,
        name.len() == 0 || name[0] != '/' ==> {
            let path = joined(base, name);
            &&& base.len() + name.len() <= path.len() <= base.len() + name.len() + 1
            &&& path.take(base.len() as int) == base
            &&& path.skip(path.len() - name.len()) == name
            &&& base.len() > 0 ==> path[path.len() - name.len() - 1] == '/'
            &&& base.len() > 0 && base.last() != '/' ==> path.len() == base.len() + 1 + name.len()
            &&& base.len() > 0 && base.last() == '/' ==> path.len() == base.len() + name.len()
        },
{
    reveal_strlit("/");
    if name.len() == 0 || name[0] != '/' {
        let path = joined(base, name);
        assert(path.take(base.len() as int) =~= base);
        assert(path.skip(path.len() - name.len()) =~= name);
    }
}

} // verus!
