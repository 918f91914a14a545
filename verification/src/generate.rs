use vstd::prelude::*;

verus! {

/// Builds the command line for the external data-generation tool: the java
/// binary under the given installation root, and its fixed flag set followed
/// by the caller's argument string.
pub fn build_java_command(java_home: &str, jar_path: &str, initial_args: &str) -> (r: (
    String,
    Vec<String>,
))
    ensures
        r.0@ == java_home@ + "/bin/java"@,
        r.1@.len() == 4,
        r.1@[0]@ == "-DbundlerMainClass=net.minecraft.data.Main"@,
        r.1@[1]@ == "-jar"@,
        r.1@[2]@ == jar_path@,
        r.1@[3]@ == initial_args@,
{
    let mut java_path = java_home.to_owned();
    java_path.append("/bin/java");
    let mut args: Vec<String> = Vec::new();
    args.push("-DbundlerMainClass=net.minecraft.data.Main".to_owned());
    args.push("-jar".to_owned());
    args.push(jar_path.to_owned());
    args.push(initial_args.to_owned());
    (java_path, args)
}

} // verus!
