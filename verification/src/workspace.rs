//! The workspace: the per-deployment directory of runtime state, and
//! the teardown decisions around it.
//!
//! Destroying a deployment wipes the workspace except the `bin/`
//! subtree, which caches digest-checked binaries.  Teardown is
//! best-effort: a missing or unreadable sidecar file is warned about
//! and skipped, never an error, so that a second destroy converges.

use vstd::prelude::*;
use vstd::string::*;

use crate::sidecar::{spec_parse_u64, parse_pid};

verus! {

/// The one workspace entry teardown preserves.
pub open spec fn preserved_entry() -> Seq<char> {
    "bin"@
}

/// Whether a workspace entry survives a clean.
pub fn should_keep_entry(name: &str) -> (r: bool)
    ensures
        r == (name@ == preserved_entry()),
{
    let b = "bin".to_owned();
    let n = name.to_owned();
    n.eq(&b)
}

/// The entries a clean removes, in order: everything but `bin`.
pub open spec fn spec_remove_list(entries: Seq<Seq<char>>) -> Seq<Seq<char>>
    decreases entries.len(),
{
    if entries.len() == 0 {
        Seq::empty()
    } else {
        spec_remove_list(entries.drop_last()) + (if entries.last() == preserved_entry() {
            Seq::empty()
        } else {
            seq![entries.last()]
        })
    }
}

/// Nothing a clean removes is the preserved entry, and what remains is
/// at most the preserved `bin` subtree.
pub proof fn lemma_clean_keeps_only_bin(entries: Seq<Seq<char>>)
    ensures
        forall|i: int|
            0 <= i < spec_remove_list(entries).len() ==> spec_remove_list(entries)[i]
                != preserved_entry(),
        forall|n: Seq<char>|
            entries.contains(n) && n != preserved_entry() ==> spec_remove_list(entries).contains(n),
    decreases entries.len(),
{
    if entries.len() > 0 {
        lemma_clean_keeps_only_bin(entries.drop_last());
        let pre = spec_remove_list(entries.drop_last());
        assert forall|n: Seq<char>|
            entries.contains(n) && n != preserved_entry() implies spec_remove_list(
            entries,
        ).contains(n) by {
            let i = choose|i: int| 0 <= i < entries.len() && entries[i] == n;
            if i < entries.len() - 1 {
                assert(entries.drop_last()[i] == n);
                assert(entries.drop_last().contains(n));
                let k = choose|k: int| 0 <= k < pre.len() && pre[k] == n;
                assert(spec_remove_list(entries)[k] == n);
            } else {
                assert(entries.last() == n);
                assert(spec_remove_list(entries)[pre.len() as int] == n);
            }
        }
    }
}

/// Compute which workspace entries a clean removes: all but `bin`, in
/// the order given.
pub fn clean_plan(entries: &Vec<String>) -> (r: Vec<String>)
    ensures
        r@.map_values(|s: String| s@) == spec_remove_list(entries@.map_values(|s: String| s@)),
{
    let mut r: Vec<String> = Vec::new();
    let mut i: usize = 0;
    proof {
        assert(entries@.map_values(|s: String| s@).take(0) =~= Seq::<Seq<char>>::empty());
    }
    while i < entries.len()
        invariant
            0 <= i <= entries@.len(),
            r@.map_values(|s: String| s@) == spec_remove_list(
                entries@.map_values(|s: String| s@).take(i as int),
            ),
        decreases entries@.len() - i,
    {
        let ghost evs = entries@.map_values(|s: String| s@);
        proof {
            assert(evs.take(i + 1).drop_last() =~= evs.take(i as int));
            assert(evs.take(i + 1).last() == evs[i as int]);
        }
        if !should_keep_entry(entries[i].as_str()) {
            r.push(entries[i].clone());
        }
        proof {
            assert(r@.map_values(|s: String| s@) =~~= spec_remove_list(evs.take(i + 1)));
        }
        i = i + 1;
    }
    proof {
        assert(entries@.map_values(|s: String| s@).take(entries@.len() as int) =~= entries@.map_values(
            |s: String| s@,
        ));
    }
    r
}

/// One step of tearing a node down.
#[derive(Debug, Clone)]
pub enum DestroyStep {
    /// Send SIGKILL to the hypervisor process.
    KillPid(i32),
    /// Ask `bhyvectl` to destroy the virtual machine.
    BhyvectlDestroy(String),
    /// A sidecar file was missing or unreadable: warn and move on.
    Warn(String),
}

/// Decide how to tear a node down from what its sidecar files held.
/// A missing or unparsable pid file yields a warning and nothing more,
/// as the hypervisor cannot be addressed; with a pid, the process is
/// killed and then, when the instance identifier is present, the
/// virtual machine is destroyed.  No case is an error: teardown
/// continues past every missing piece.
pub fn node_destroy_steps(pid_file: Option<&String>, uuid_file: Option<&String>) -> (r: Vec<
    DestroyStep,
>)
    ensures
        match pid_file {
            None => r@.len() == 1 && r@[0] is Warn,
            Some(p) => {
                match spec_parse_u64(p@) {
                    Some(v) => {
                        if v <= i32::MAX {
                            &&& r@[0] matches DestroyStep::KillPid(q) && q == v
                            &&& match uuid_file {
                                None => r@.len() == 2 && r@[1] is Warn,
                                Some(u) => r@.len() == 2 && (r@[1]
                                    matches DestroyStep::BhyvectlDestroy(w) && w@ == u@),
                            }
                        } else {
                            r@.len() == 1 && r@[0] is Warn
                        }
                    },
                    None => r@.len() == 1 && r@[0] is Warn,
                }
            },
        },
{
    let mut r: Vec<DestroyStep> = Vec::new();
    match pid_file {
        None => {
            r.push(DestroyStep::Warn("pid file is missing".to_owned()));
        },
        Some(p) => {
            match parse_pid(p.as_str()) {
                None => {
                    r.push(DestroyStep::Warn("pid file does not parse".to_owned()));
                },
                Some(pid) => {
                    r.push(DestroyStep::KillPid(pid));
                    match uuid_file {
                        None => {
                            r.push(DestroyStep::Warn("uuid file is missing".to_owned()));
                        },
                        Some(u) => {
                            r.push(DestroyStep::BhyvectlDestroy(u.clone()));
                        },
                    }
                },
            }
        },
    }
    r
}

} // verus!
