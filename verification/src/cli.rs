//! The command line: its commands, how a manifest is found when none is
//! named, and which fleet token a command uses.
use vstd::prelude::*;
use vstd::string::*;

verus! {

/// nanos: the AI-native WASM runtime.
pub struct Cli {
    pub command: Commands,
}

pub enum Commands {
    /// Run an AI agent from a nano manifest.
    Run { manifest: Option<String> },
    /// Serve an AI agent daemon over HTTP.
    Serve { port: u16, host: String },
    /// Run a latency benchmark against the model.
    Bench { manifest: Option<String> },
    /// Orchestrate a multi-agent fleet from a manifest.
    Orchestrate { manifest: Option<String>, network: bool, port: u16, token: Option<String> },
    /// Connect a remote agent node to a distributed orchestrator.
    Node { connect: String, name: String, token: Option<String> },
}

/// The paths probed for a manifest: the one named, or else each default
/// name in the current directory and then under `examples/`.
pub open spec fn manifest_candidates_of(explicit: Option<Seq<char>>, defaults: Seq<Seq<char>>) -> Seq<Seq<char>> {
    match explicit {
        Some(p) => seq![p],
        None => default_candidates(defaults),
    }
}

pub open spec fn default_candidates(defaults: Seq<Seq<char>>) -> Seq<Seq<char>>
    decreases defaults.len(),
{
    if defaults.len() == 0 {
        Seq::empty()
    } else {
        default_candidates(defaults.drop_last()) + seq![defaults.last(), "examples/"@ + defaults.last()]
    }
}

pub open spec fn str_views(ts: Seq<&str>) -> Seq<Seq<char>> {
    ts.map_values(|t: &str| t@)
}

pub open spec fn string_views(ts: Seq<String>) -> Seq<Seq<char>> {
    ts.map_values(|t: String| t@)
}

pub open spec fn opt_string_view(t: Option<String>) -> Option<Seq<char>> {
    match t {
        Some(s) => Some(s@),
        None => None,
    }
}

fn examples_path(name: &str) -> (r: String)
    ensures
        r@ == "examples/"@ + name@,
{
    let mut r = String::from_str("examples/");
    r.append(name);
    r
}

/// The paths to probe, in order.
pub fn manifest_candidates(explicit: &Option<String>, defaults: &[&str]) -> (r: Vec<String>)
    ensures
        string_views(r@) == manifest_candidates_of(opt_string_view(*explicit), str_views(defaults@)),
{
    match explicit {
        Some(p) => {
            let mut r: Vec<String> = Vec::new();
            r.push(p.clone());
            assert(string_views(r@) =~= seq![p@]);
            r
        },
        None => {
            let ghost dv = str_views(defaults@);
            let mut r: Vec<String> = Vec::new();
            let mut i: usize = 0;
            while i < defaults.len()
                invariant
                    i <= defaults@.len(),
                    dv == str_views(defaults@),
                    string_views(r@) == default_candidates(dv.take(i as int)),
                decreases defaults@.len() - i,
            {
                let ghost before = r@;
                r.push(String::from_str(defaults[i]));
                r.push(examples_path(defaults[i]));
                assert(dv.take(i + 1).drop_last() =~= dv.take(i as int));
                assert(string_views(r@) =~= string_views(before) + seq![
                    dv[i as int],
                    "examples/"@ + dv[i as int],
                ]);
                i = i + 1;
            }
            assert(dv.take(defaults@.len() as int) =~= dv);
            r
        },
    }
}

/// Why no manifest was found.
pub enum ManifestLookupError {
    /// The named manifest does not exist.
    NotFound(String),
    /// No default manifest exists; the first default name is given as an example.
    NoneDiscovered(String),
}

/// The index of the first candidate that exists.
pub open spec fn first_present(present: Seq<bool>) -> Option<int> {
    if exists|i: int| 0 <= i < present.len() && present[i] {
        Some(choose|i: int| 0 <= i < present.len() && present[i] && forall|j: int| 0 <= j < i ==> !present[j])
    } else {
        None
    }
}

proof fn lemma_first_present(present: Seq<bool>, k: int)
    requires
        0 <= k < present.len(),
        present[k],
        forall|j: int| 0 <= j < k ==> !present[j],
    ensures
        first_present(present) == Some(k),
{
    let w = choose|i: int| 0 <= i < present.len() && present[i] && forall|j: int| 0 <= j < i ==> !present[j];
    if w < k {
    } else if w > k {
    }
}

/// Finds the manifest to use: `present[i]` tells whether candidate `i` of
/// `manifest_candidates` exists. The first existing candidate is chosen;
/// a named manifest that does not exist, or no existing default, is an error.
pub fn resolve_manifest(explicit: &Option<String>, defaults: &[&str], present: &[bool]) -> (r: Result<String, ManifestLookupError>)
    requires
        present@.len() == manifest_candidates_of(opt_string_view(*explicit), str_views(defaults@)).len(),
    ensures
        ({
            let c = manifest_candidates_of(opt_string_view(*explicit), str_views(defaults@));
            match first_present(present@) {
                Some(i) => r matches Ok(p) && p@ == c[i],
                None => match explicit {
                    Some(p) => r matches Err(ManifestLookupError::NotFound(q)) && q@ == p@,
                    None => r matches Err(ManifestLookupError::NoneDiscovered(d)) && d@ == (if defaults@.len() > 0 {
                        defaults@[0]@
                    } else {
                        "agent.nano"@
                    }),
                },
            }
        }),
{
    let c = manifest_candidates(explicit, defaults);
    let mut i: usize = 0;
    while i < present.len()
        invariant
            i <= present@.len(),
            present@.len() == c@.len(),
            string_views(c@) == manifest_candidates_of(opt_string_view(*explicit), str_views(defaults@)),
            forall|j: int| 0 <= j < i ==> !present@[j],
        decreases present@.len() - i,
    {
        if present[i] {
            proof {
                lemma_first_present(present@, i as int);
            }
            assert(string_views(c@)[i as int] == c@[i as int]@);
            return Ok(c[i].clone());
        }
        i = i + 1;
    }
    assert(first_present(present@) is None);
    match explicit {
        Some(p) => Err(ManifestLookupError::NotFound(p.clone())),
        None => {
            if defaults.len() > 0 {
                Err(ManifestLookupError::NoneDiscovered(String::from_str(defaults[0])))
            } else {
                Err(ManifestLookupError::NoneDiscovered(String::from_str("agent.nano")))
            }
        },
    }
}

/// The explanation given when no default manifest exists.
pub open spec fn none_discovered_text(example: Seq<char>) -> Seq<char> {
    "No manifest file specified, and could not auto-discover any default manifests (e.g. '"@
        + example + "') in the current directory.\n\nTo resolve this, please do one of the following:\n1. Run the command from the nanos directory (which contains the 'examples/' folder).\n2. Specify the path to your manifest explicitly, e.g.:\n   nanos dashboard examples/fleet.nano\n   nanos run /path/to/agent.nano"@
}

pub fn none_discovered_message(example: &str) -> (r: String)
    ensures
        r@ == none_discovered_text(example@),
{
    let mut r = String::from_str(
        "No manifest file specified, and could not auto-discover any default manifests (e.g. '",
    );
    r.append(example);
    r.append(
        "') in the current directory.\n\nTo resolve this, please do one of the following:\n1. Run the command from the nanos directory (which contains the 'examples/' folder).\n2. Specify the path to your manifest explicitly, e.g.:\n   nanos dashboard examples/fleet.nano\n   nanos run /path/to/agent.nano",
    );
    r
}

/// The manifests the status endpoint reports: of the default names, those
/// that exist in the current directory or under `examples/`, in probe order.
pub open spec fn discovered_of(candidates: Seq<Seq<char>>, present: Seq<bool>) -> Seq<Seq<char>>
    decreases present.len(),
{
    if present.len() == 0 {
        Seq::empty()
    } else {
        discovered_of(candidates, present.drop_last()) + if present.last() {
            seq![candidates[present.len() - 1]]
        } else {
            Seq::empty()
        }
    }
}

/// The existing candidates, `present[i]` telling whether candidate `i` exists.
pub fn discovered_manifests(defaults: &[&str], present: &[bool]) -> (r: Vec<String>)
    requires
        present@.len() == default_candidates(str_views(defaults@)).len(),
    ensures
        string_views(r@) == discovered_of(default_candidates(str_views(defaults@)), present@),
{
    let c = manifest_candidates(&None, defaults);
    let ghost cv = string_views(c@);
    let mut r: Vec<String> = Vec::new();
    let mut i: usize = 0;
    while i < present.len()
        invariant
            i <= present@.len(),
            present@.len() == c@.len(),
            cv == string_views(c@),
            cv == default_candidates(str_views(defaults@)),
            string_views(r@) == discovered_of(cv, present@.take(i as int)),
        decreases present@.len() - i,
    {
        let ghost before = r@;
        assert(present@.take(i + 1).drop_last() =~= present@.take(i as int));
        if present[i] {
            r.push(c[i].clone());
            assert(string_views(r@) =~= string_views(before) + seq![cv[i as int]]);
        } else {
            assert(string_views(r@) =~= string_views(before) + Seq::<Seq<char>>::empty());
        }
        i = i + 1;
    }
    assert(present@.take(present@.len() as int) =~= present@);
    r
}

/// The fleet token a command uses: the one given on the command line, else
/// the manifest's, else the environment's.
pub fn choose_token(given: Option<String>, manifest: Option<String>, env: Option<String>) -> (r: Option<String>)
    ensures
        r == (if given is Some {
            given
        } else if manifest is Some {
            manifest
        } else {
            env
        }),
{
    match given {
        Some(t) => Some(t),
        None => match manifest {
            Some(t) => Some(t),
            None => env,
        },
    }
}

} // verus!
