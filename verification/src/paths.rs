use vstd::prelude::*;

verus! {

/// The sequence of characters obtained by appending `child` to `base` with a
/// single `/` separator, as a path join of a relative child does: an empty
/// base yields `child` alone, and a base that already ends in `/` gets no
/// second separator.
pub open spec fn spec_joined(base: Seq<char>, child: Seq<char>) -> Seq<char> {
    if base.len() == 0 {
        child
    } else if base.last() == '/' {
        base + child
    } else {
        base + seq!['/'] + child
    }
}

/// The destination file for a version artifact: `{dir}/{id}.jar`.
pub open spec fn spec_artifact_path(dir: Seq<char>, id: Seq<char>) -> Seq<char> {
    spec_joined(dir, id + ".jar"@)
}

/// Joins a relative path component onto a base path with a `/` separator.
pub fn join_path(base: &str, child: &str) -> (r: String)
    ensures
        r@ == spec_joined(base@, child@),
{
    let n = base.unicode_len();
    if n == 0 {
        child.to_owned()
    } else {
        let mut s = base.to_owned();
        if base.get_char(n - 1) != '/' {
            proof {
                reveal_strlit("/");
                assert("/"@ =~= seq!['/']);
            }
            s.append("/");
        }
        s.append(child);
        s
    }
}

/// The path of the downloaded artifact for version `id` inside `dir`:
/// `{dir}/{id}.jar`.
pub fn artifact_path(dir: &str, id: &str) -> (r: String)
    ensures
        r@ == spec_artifact_path(dir@, id@),
{
    let mut file = id.to_owned();
    file.append(".jar");
    join_path(dir, file.as_str())
}

/// The directory that receives the transformed output documents:
/// `{root}/transformed`.
pub fn get_output_path(root: &str) -> (r: String)
    ensures
        r@ == spec_joined(root@, "transformed"@),
{
    join_path(root, "transformed")
}

} // verus!
