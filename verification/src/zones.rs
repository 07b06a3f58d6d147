//! Zone-test helpers: datasets, zones and file movement for tests that
//! run guests inside host zones.
//!
//! The types here record the names of host resources and compute the
//! exact commands and paths that manage them; the driver executes the
//! commands and performs the zone operations.

use vstd::prelude::*;
use vstd::string::*;

use crate::errors::Error;

verus! {

/// A dataset backing zone roots, mounted at `/{name}`.
#[derive(Debug, Clone)]
pub struct Zfs {
    /// The dataset name under the root pool.
    pub name: String,
}

impl Zfs {
    /// Record a dataset by name.  The driver creates it with
    /// [`Zfs::create_args`] before use.
    pub fn new(name: &str) -> (r: Zfs)
        ensures
            r.name@ == name@,
    {
        Zfs { name: name.to_owned() }
    }

    /// The `zfs` arguments that create this dataset mounted at
    /// `/{name}`.
    pub fn create_args(&self) -> (r: Vec<String>)
        ensures
            r@.len() == 5,
            r@[0]@ == "create"@,
            r@[1]@ == "-p"@,
            r@[2]@ == "-o"@,
            r@[3]@ == "mountpoint=/"@ + self.name@,
            r@[4]@ == "rpool/"@ + self.name@,
    {
        let mut mp = "mountpoint=/".to_owned();
        mp.append(self.name.as_str());
        let mut ds = "rpool/".to_owned();
        ds.append(self.name.as_str());
        let mut r: Vec<String> = Vec::new();
        r.push("create".to_owned());
        r.push("-p".to_owned());
        r.push("-o".to_owned());
        r.push(mp);
        r.push(ds);
        r
    }

    /// The `zfs` arguments that destroy this dataset tree.
    pub fn destroy_args(&self) -> (r: Vec<String>)
        ensures
            r@.len() == 3,
            r@[0]@ == "destroy"@,
            r@[1]@ == "-rf"@,
            r@[2]@ == "rpool/"@ + self.name@,
    {
        let mut ds = "rpool/".to_owned();
        ds.append(self.name.as_str());
        let mut r: Vec<String> = Vec::new();
        r.push("destroy".to_owned());
        r.push("-rf".to_owned());
        r.push(ds);
        r
    }

    /// The path of `name` under this dataset's mountpoint.
    pub fn path_for(&self, name: &str) -> (r: String)
        ensures
            r@ == "/"@ + self.name@ + "/"@ + name@,
    {
        let mut s = "/".to_owned();
        s.append(self.name.as_str());
        s.append("/");
        s.append(name);
        s
    }

    /// The root-relative path of `to` inside zone `name`.
    pub fn zone_root_path(&self, name: &str, to: &str) -> (r: String)
        ensures
            r@ == "/"@ + self.name@ + "/"@ + name@ + "/root/"@ + to@,
    {
        let mut s = self.path_for(name);
        s.append("/root/");
        s.append(to);
        s
    }

    /// The `cp` arguments that copy `from` out of zone `name` to `to`.
    pub fn copy_from_zone(&self, name: &str, from: &str, to: &str) -> (r: Vec<String>)
        ensures
            r@.len() == 2,
            r@[0]@ == "/"@ + self.name@ + "/"@ + name@ + "/root/"@ + from@,
            r@[1]@ == to@,
    {
        let mut r: Vec<String> = Vec::new();
        r.push(self.zone_root_path(name, from));
        r.push(to.to_owned());
        r
    }

    /// The `cp` arguments that copy `from` into zone `name` at `to`.
    pub fn copy_to_zone(&self, name: &str, from: &str, to: &str) -> (r: Vec<String>)
        ensures
            r@.len() == 2,
            r@[0]@ == from@,
            r@[1]@ == "/"@ + self.name@ + "/"@ + name@ + "/root/"@ + to@,
    {
        let mut r: Vec<String> = Vec::new();
        r.push(from.to_owned());
        r.push(self.zone_root_path(name, to));
        r
    }

    /// The `cp -r` arguments that copy `from` into zone `name` at `to`.
    pub fn copy_to_zone_recursive(&self, name: &str, from: &str, to: &str) -> (r: Vec<String>)
        ensures
            r@.len() == 3,
            r@[0]@ == "-r"@,
            r@[1]@ == from@,
            r@[2]@ == "/"@ + self.name@ + "/"@ + name@ + "/root/"@ + to@,
    {
        let mut r: Vec<String> = Vec::new();
        r.push("-r".to_owned());
        r.push(from.to_owned());
        r.push(self.zone_root_path(name, to));
        r
    }

    /// The `cp` arguments that copy a built binary into zone `name` at
    /// `opt/{bin}`.  The workspace directory and the build profile come
    /// from the caller's build environment.
    pub fn copy_bin_to_zone(&self, name: &str, bin: &str, workspace_dir: &str, debug: bool) -> (r:
        Vec<String>)
        ensures
            r@.len() == 2,
            r@[0]@ == workspace_dir@ + "target/"@ + (if debug {
                "debug"@
            } else {
                "release"@
            }) + "/"@ + bin@,
            r@[1]@ == "/"@ + self.name@ + "/"@ + name@ + "/root/opt/"@ + bin@,
    {
        let mut from = workspace_dir.to_owned();
        from.append("target/");
        if debug {
            from.append("debug");
        } else {
            from.append("release");
        }
        from.append("/");
        from.append(bin);
        proof {
            assert(from@ =~= workspace_dir@ + "target/"@ + (if debug {
                "debug"@
            } else {
                "release"@
            }) + "/"@ + bin@);
        }
        let mut to = "opt/".to_owned();
        to.append(bin);
        let r = self.copy_to_zone(name, from.as_str(), to.as_str());
        proof {
            reveal_strlit("/root/");
            reveal_strlit("opt/");
            reveal_strlit("/root/opt/");
            assert("/root/"@ + "opt/"@ =~= "/root/opt/"@);
            assert(r@[1]@ =~= "/"@ + self.name@ + "/"@ + name@ + "/root/opt/"@ + bin@);
        }
        r
    }

    /// The `cp` arguments that copy a workspace file into zone `name`.
    pub fn copy_workspace_to_zone(&self, name: &str, from: &str, to: &str, workspace_dir: &str) -> (r:
        Vec<String>)
        ensures
            r@.len() == 2,
            r@[0]@ == workspace_dir@ + from@,
            r@[1]@ == "/"@ + self.name@ + "/"@ + name@ + "/root/"@ + to@,
    {
        let mut f = workspace_dir.to_owned();
        f.append(from);
        self.copy_to_zone(name, f.as_str(), to)
    }

    /// The `cp -r` arguments that copy a workspace tree into zone
    /// `name`.
    pub fn copy_workspace_to_zone_recursive(
        &self,
        name: &str,
        from: &str,
        to: &str,
        workspace_dir: &str,
    ) -> (r: Vec<String>)
        ensures
            r@.len() == 3,
            r@[0]@ == "-r"@,
            r@[1]@ == workspace_dir@ + from@,
            r@[2]@ == "/"@ + self.name@ + "/"@ + name@ + "/root/"@ + to@,
    {
        let mut f = workspace_dir.to_owned();
        f.append(from);
        self.copy_to_zone_recursive(name, f.as_str(), to)
    }
}

/// A directory shared from the host into a zone by loopback mount.
#[derive(Debug, Clone)]
pub struct FsMount {
    /// The host directory.
    pub source: String,
    /// The zone directory it appears at.
    pub target: String,
}

impl FsMount {
    /// Record a loopback mount from `source` to `target`.
    pub fn new(source: &str, target: &str) -> (r: FsMount)
        ensures
            r.source@ == source@,
            r.target@ == target@,
    {
        FsMount { source: source.to_owned(), target: target.to_owned() }
    }
}

/// An etherstub: a host-internal switch for zone links.
#[derive(Debug, Clone)]
pub struct Etherstub {
    /// The etherstub's link name.
    pub name: String,
}

impl Etherstub {
    /// Record an etherstub by name.  The driver creates it with
    /// [`Etherstub::create_args`].
    pub fn new(name: &str) -> (r: Etherstub)
        ensures
            r.name@ == name@,
    {
        Etherstub { name: name.to_owned() }
    }

    /// The `dladm` arguments that create this etherstub temporarily.
    pub fn create_args(&self) -> (r: Vec<String>)
        ensures
            r@.len() == 3,
            r@[0]@ == "create-etherstub"@,
            r@[1]@ == "-t"@,
            r@[2]@ == self.name@,
    {
        let mut r: Vec<String> = Vec::new();
        r.push("create-etherstub".to_owned());
        r.push("-t".to_owned());
        r.push(self.name.clone());
        r
    }

    /// The `dladm` arguments that delete this etherstub.
    pub fn delete_args(&self) -> (r: Vec<String>)
        ensures
            r@.len() == 2,
            r@[0]@ == "delete-etherstub"@,
            r@[1]@ == self.name@,
    {
        let mut r: Vec<String> = Vec::new();
        r.push("delete-etherstub".to_owned());
        r.push(self.name.clone());
        r
    }
}

/// A zone that has been installed; dropping the driver-side handle
/// uninstalls it.
#[derive(Debug, Clone)]
pub struct ZoneInstall {
    /// The zone's name.
    pub name: String,
}

impl ZoneInstall {
    /// Record an installed zone by name.
    pub fn new(name: &str) -> (r: ZoneInstall)
        ensures
            r.name@ == name@,
    {
        ZoneInstall { name: name.to_owned() }
    }
}

/// A zone that has been booted; dropping the driver-side handle halts
/// it.
#[derive(Debug, Clone)]
pub struct ZoneBoot {
    /// The zone's name.
    pub name: String,
}

impl ZoneBoot {
    /// Record a booted zone by name.
    pub fn new(name: &str) -> (r: ZoneBoot)
        ensures
            r.name@ == name@,
    {
        ZoneBoot { name: name.to_owned() }
    }
}

/// Launch a guest inside a bhyve-branded zone.  No implementation
/// exists for this path.
pub fn launch_bhyve_zone(_name: &str, _path: &str, _links: &Vec<String>, _image: &String) -> (r:
    Result<(), Error>)
    ensures
        r matches Err(e) && e is NotImplemented,
{
    Err(Error::NotImplemented("bhyve-branded zones".to_owned()))
}

/// Whether a service status report says the milestone is online.
pub fn svc_online(report: &str) -> (r: bool)
    ensures
        r == exists|i: int| crate::serial::contains_at(report@, i, "online"@),
{
    let p = crate::serial::Pattern::Literal("online".to_owned());
    proof {
        reveal_strlit("online");
    }
    match crate::serial::find_match(report, &p) {
        Some(i) => {
            proof {
                assert(crate::serial::contains_at(report@, i as int, "online"@));
            }
            true
        },
        None => {
            proof {
                if exists|i: int| crate::serial::contains_at(report@, i, "online"@) {
                    let i = choose|i: int| crate::serial::contains_at(report@, i, "online"@);
                    assert(crate::serial::pat_match_at(p, report@, i));
                }
            }
            false
        },
    }
}

} // verus!
