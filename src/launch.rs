//! Where a launch target lies: the dev-mode marker in the working directory
//! when it is present, else the same name under the installed bundle's root.
use vstd::prelude::*;

verus! {

/// How many parent directories lie between the running executable and the
/// root of the installed bundle.
pub const BUNDLE_DEPTH: usize = 3;

/// Why a dependency could not be launched.
#[derive(Clone, Copy, Debug, PartialEq, Eq, Structural)]
pub enum LaunchError {
    /// The executable's path has too few parent directories to hold a bundle root.
    NoBundleRoot,
    /// The program could not be found, or the OS refused to create the process.
    SpawnFailed,
}

/// The bundle root: the executable's path without its last `BUNDLE_DEPTH`
/// components (the executable itself and the directories that hold it).
pub open spec fn bundle_root(exe: Seq<String>) -> Seq<String> {
    exe.subrange(0, exe.len() - BUNDLE_DEPTH)
}

/// The launch path, as path components. With the dev marker present it is the
/// marker itself, relative to the working directory, whatever the executable's
/// path; without it, the target under the bundle root, which must exist.
pub open spec fn resolve_spec(marker_present: bool, target: String, exe: Seq<String>) -> Result<
    Seq<String>,
    LaunchError,
> {
    if marker_present {
        Ok(seq![target])
    } else if exe.len() > BUNDLE_DEPTH {
        Ok(bundle_root(exe).push(target))
    } else {
        Err(LaunchError::NoBundleRoot)
    }
}

/// Resolves the path of the launch target `target`, given whether a file of
/// that name exists in the working directory and the running executable's path
/// split into components. Never falls back from one choice to the other.
pub fn resolve_launch_path(marker_present: bool, target: &String, exe: &Vec<String>) -> (r: Result<
    Vec<String>,
    LaunchError,
>)
    ensures
        r matches Ok(p) ==> resolve_spec(marker_present, *target, exe@) == Ok::<
            Seq<String>,
            LaunchError,
        >(p@),
        r matches Err(e) ==> resolve_spec(marker_present, *target, exe@) == Err::<
            Seq<String>,
            LaunchError,
        >(e),
{
    if marker_present {
        let mut p: Vec<String> = Vec::new();
        p.push(target.clone());
        assert(p@ =~= seq![*target]);
        return Ok(p);
    }
    let n: usize = exe.len();
    if n <= BUNDLE_DEPTH {
        return Err(LaunchError::NoBundleRoot);
    }
    let keep: usize = n - BUNDLE_DEPTH;
    let mut p: Vec<String> = Vec::new();
    let mut i: usize = 0;
    while i < keep
        invariant
            keep == exe@.len() - BUNDLE_DEPTH,
            i <= keep,
            p@ =~= exe@.subrange(0, i as int),
        decreases keep - i,
    {
        p.push(exe[i].clone());
        i = i + 1;
    }
    p.push(target.clone());
    assert(p@ =~= bundle_root(exe@).push(*target));
    Ok(p)
}

/// With the dev marker present the launch path is the marker itself, whatever
/// the executable's path, even where a bundle root would also exist.
pub proof fn lemma_marker_wins(target: String, exe: Seq<String>)
    ensures
        resolve_spec(true, target, exe) == Ok::<Seq<String>, LaunchError>(seq![target]),
{
}

} // verus!
