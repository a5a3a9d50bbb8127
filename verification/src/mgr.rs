//! Manager records: the output of the manager listing command, which
//! interleaves one cluster-manager row with per-filesystem manager rows,
//! each type under its own header.

use crate::engine::lookup;
use crate::engine::spec_lookup;
use crate::error::Error;
use crate::error::ErrorSpec;
use crate::text::lines_of;
use crate::text::spec_lines;
use crate::text::spec_split;
use crate::text::split_char;
use crate::text::str_eq;
use vstd::prelude::*;

verus! {

/// Cluster manager.
#[derive(Debug)]
pub struct ClusterManager {
    name: String,
}

/// The mathematical shape of a [`ClusterManager`].
#[verifier::ext_equal]
pub struct ClusterManagerV {
    pub name: Seq<char>,
}

impl View for ClusterManager {
    type V = ClusterManagerV;

    closed spec fn view(&self) -> ClusterManagerV {
        ClusterManagerV { name: self.name@ }
    }
}

impl ClusterManager {
    /// Returns the name of the cluster manager.
    pub fn name(&self) -> (r: &str)
        ensures
            r@ == self@.name,
    {
        self.name.as_str()
    }
}

/// Filesystem manager.
#[derive(Debug)]
pub struct FSManager {
    fs_name: String,
    manager_name: String,
    manager_ip: String,
}

/// The mathematical shape of an [`FSManager`].
#[verifier::ext_equal]
pub struct FSManagerV {
    pub fs_name: Seq<char>,
    pub manager_name: Seq<char>,
    pub manager_ip: Seq<char>,
}

impl View for FSManager {
    type V = FSManagerV;

    closed spec fn view(&self) -> FSManagerV {
        FSManagerV {
            fs_name: self.fs_name@,
            manager_name: self.manager_name@,
            manager_ip: self.manager_ip@,
        }
    }
}

impl DeepView for FSManager {
    type V = FSManagerV;

    open spec fn deep_view(&self) -> FSManagerV {
        self@
    }
}

impl FSManager {
    /// Returns the filesystem name.
    pub fn fs_name(&self) -> (r: &str)
        ensures
            r@ == self@.fs_name,
    {
        self.fs_name.as_str()
    }

    /// Returns the name of the manager.
    pub fn manager_name(&self) -> (r: &str)
        ensures
            r@ == self@.manager_name,
    {
        self.manager_name.as_str()
    }

    /// Returns the IP address of the manager.
    pub fn manager_ip(&self) -> (r: &str)
        ensures
            r@ == self@.manager_ip,
    {
        self.manager_ip.as_str()
    }
}

/// The cluster manager and the filesystem managers.
#[derive(Debug)]
pub struct Manager {
    cluster: ClusterManager,
    fs: Vec<FSManager>,
}

/// The mathematical shape of a [`Manager`].
#[verifier::ext_equal]
pub struct ManagerV {
    pub cluster: ClusterManagerV,
    pub fs: Seq<FSManagerV>,
}

impl View for Manager {
    type V = ManagerV;

    closed spec fn view(&self) -> ManagerV {
        ManagerV { cluster: self.cluster@, fs: self.fs.deep_view() }
    }
}

/// The decode of one cluster-manager data row: the `manager` column.
pub open spec fn spec_cluster_from_tokens(t: Seq<Seq<char>>, hdr: Seq<Seq<char>>) -> Result<
    ClusterManagerV,
    ErrorSpec,
> {
    match spec_lookup(t, hdr, "manager"@) {
        Result::Err(e) => Result::Err(e),
        Result::Ok(name) => Result::Ok(ClusterManagerV { name }),
    }
}

/// The decode of one filesystem-manager data row: the `manager`,
/// `filesystem` and `managerIP` columns.
pub open spec fn spec_fsmgr_from_tokens(t: Seq<Seq<char>>, hdr: Seq<Seq<char>>) -> Result<
    FSManagerV,
    ErrorSpec,
> {
    match spec_lookup(t, hdr, "manager"@) {
        Result::Err(e) => Result::Err(e),
        Result::Ok(manager_name) => match spec_lookup(t, hdr, "filesystem"@) {
            Result::Err(e) => Result::Err(e),
            Result::Ok(fs_name) => match spec_lookup(t, hdr, "managerIP"@) {
                Result::Err(e) => Result::Err(e),
                Result::Ok(manager_ip) => Result::Ok(
                    FSManagerV { fs_name, manager_name, manager_ip },
                ),
            },
        },
    }
}

/// The decoder's state over a manager stream: one header per record
/// type, the cluster manager last decoded, the filesystem managers in
/// stream order.
#[verifier::ext_equal]
pub struct MgrState {
    pub chdr: Seq<Seq<char>>,
    pub fhdr: Seq<Seq<char>>,
    pub cluster: ClusterManagerV,
    pub fs: Seq<FSManagerV>,
}

/// The walk over a manager stream.  Rows tagged `clusterManager` keep
/// their own header and overwrite the cluster manager; rows tagged
/// `filesystemManager` keep theirs and append; other rows are skipped.
pub open spec fn spec_mgr_stream(lines: Seq<Seq<char>>, st: MgrState) -> Result<
    MgrState,
    ErrorSpec,
>
    decreases lines.len(),
{
    if lines.len() == 0 {
        Result::Ok(st)
    } else {
        let line = lines[0];
        let rest = lines.skip(1);
        let t = spec_split(line, ':');
        if t.len() < 2 {
            Result::Err(ErrorSpec::BadLine(line))
        } else if t[1] == "clusterManager"@ {
            if t.len() < 3 {
                Result::Err(ErrorSpec::BadLine(line))
            } else if t[2] == "HEADER"@ {
                spec_mgr_stream(rest, MgrState { chdr: t, ..st })
            } else {
                match spec_cluster_from_tokens(t, st.chdr) {
                    Result::Ok(c) => spec_mgr_stream(rest, MgrState { cluster: c, ..st }),
                    Result::Err(e) => Result::Err(e),
                }
            }
        } else if t[1] == "filesystemManager"@ {
            if t.len() < 3 {
                Result::Err(ErrorSpec::BadLine(line))
            } else if t[2] == "HEADER"@ {
                spec_mgr_stream(rest, MgrState { fhdr: t, ..st })
            } else {
                match spec_fsmgr_from_tokens(t, st.fhdr) {
                    Result::Ok(f) => spec_mgr_stream(rest, MgrState { fs: st.fs.push(f), ..st }),
                    Result::Err(e) => Result::Err(e),
                }
            }
        } else {
            spec_mgr_stream(rest, st)
        }
    }
}

/// The decoder's initial state: no headers, an unnamed cluster manager,
/// no filesystem managers.
pub open spec fn mgr_init() -> MgrState {
    MgrState {
        chdr: Seq::empty(),
        fhdr: Seq::empty(),
        cluster: ClusterManagerV { name: Seq::empty() },
        fs: Seq::empty(),
    }
}

/// The manager data decoded from a whole input text.
pub open spec fn spec_manager(input: Seq<char>) -> Result<ManagerV, ErrorSpec> {
    match spec_mgr_stream(spec_lines(input), mgr_init()) {
        Result::Ok(st) => Result::Ok(ManagerV { cluster: st.cluster, fs: st.fs }),
        Result::Err(e) => Result::Err(e),
    }
}

impl Manager {
    /// Returns the cluster manager.
    pub fn cluster(&self) -> (r: &ClusterManager)
        ensures
            r@ == self@.cluster,
    {
        &self.cluster
    }

    /// Returns the file system managers.
    pub fn fs(&self) -> (r: &Vec<FSManager>)
        ensures
            r.deep_view() == self@.fs,
    {
        &self.fs
    }

    /// Decodes the manager listing command's whole output.
    pub fn from_reader(input: &str) -> (r: Result<Manager, Error>)
        ensures
            match r {
                Result::Ok(m) => spec_manager(input@) == Result::Ok::<ManagerV, ErrorSpec>(m@),
                Result::Err(e) => spec_manager(input@) == Result::Err::<ManagerV, ErrorSpec>(e@),
            },
    {
        let lines = lines_of(input);
        let ghost lv = lines.deep_view();
        let mut chdr: Vec<String> = Vec::new();
        let mut fhdr: Vec<String> = Vec::new();
        let mut cluster = ClusterManager { name: String::new() };
        let mut fs: Vec<FSManager> = Vec::new();
        let ghost st0 = mgr_init();
        proof {
            assert(lv.skip(0) =~= lv);
            assert(chdr.deep_view() =~= Seq::<Seq<char>>::empty());
            assert(fhdr.deep_view() =~= Seq::<Seq<char>>::empty());
            assert(fs.deep_view() =~= Seq::<FSManagerV>::empty());
            assert(cluster@ =~= st0.cluster);
        }
        let mut i: usize = 0;
        while i < lines.len()
            invariant
                lv == lines.deep_view(),
                lv == spec_lines(input@),
                lines.len() == lv.len(),
                0 <= i <= lines.len(),
                spec_mgr_stream(lv, mgr_init()) == spec_mgr_stream(
                    lv.skip(i as int),
                    MgrState {
                        chdr: chdr.deep_view(),
                        fhdr: fhdr.deep_view(),
                        cluster: cluster@,
                        fs: fs.deep_view(),
                    },
                ),
            decreases lines.len() - i,
        {
            let ghost st = MgrState {
                chdr: chdr.deep_view(),
                fhdr: fhdr.deep_view(),
                cluster: cluster@,
                fs: fs.deep_view(),
            };
            proof {
                assert(lv.skip(i as int)[0] == lv[i as int]);
                assert(lv.skip(i as int).skip(1) =~= lv.skip(i as int + 1));
                assert(lines[i as int].deep_view() == lv[i as int]);
            }
            let t = split_char(lines[i].as_str(), ':');
            proof {
                assert(spec_split(lv[i as int], ':') == t.deep_view());
            }
            if t.len() < 2 {
                let e = Error::BadLine(lines[i].clone());
                proof {
                    assert(spec_mgr_stream(lv.skip(i as int), st) == Result::Err::<
                        MgrState,
                        ErrorSpec,
                    >(e@));
                }
                return Result::Err(e);
            }
            proof {
                assert(t.deep_view()[1] == t[1 as int]@);
            }
            if str_eq(t[1].as_str(), "clusterManager") {
                if t.len() < 3 {
                    let e = Error::BadLine(lines[i].clone());
                    proof {
                        assert(spec_mgr_stream(lv.skip(i as int), st) == Result::Err::<
                            MgrState,
                            ErrorSpec,
                        >(e@));
                    }
                    return Result::Err(e);
                }
                proof {
                    assert(t.deep_view()[2] == t[2 as int]@);
                }
                if str_eq(t[2].as_str(), "HEADER") {
                    chdr = t;
                    proof {
                        assert(MgrState {
                            chdr: chdr.deep_view(),
                            fhdr: fhdr.deep_view(),
                            cluster: cluster@,
                            fs: fs.deep_view(),
                        } =~= MgrState { chdr: chdr.deep_view(), ..st });
                    }
                } else {
                    match lookup(&t, &chdr, "manager") {
                        Result::Ok(s) => {
                            let name = s.clone();
                            cluster = ClusterManager { name };
                            proof {
                                assert(spec_cluster_from_tokens(t.deep_view(), st.chdr)
                                    == Result::Ok::<ClusterManagerV, ErrorSpec>(cluster@));
                                assert(MgrState {
                                    chdr: chdr.deep_view(),
                                    fhdr: fhdr.deep_view(),
                                    cluster: cluster@,
                                    fs: fs.deep_view(),
                                } =~= MgrState { cluster: cluster@, ..st });
                            }
                        },
                        Result::Err(e) => {
                            proof {
                                assert(spec_cluster_from_tokens(t.deep_view(), st.chdr)
                                    == Result::Err::<ClusterManagerV, ErrorSpec>(e@));
                                assert(spec_mgr_stream(lv.skip(i as int), st) == Result::Err::<
                                    MgrState,
                                    ErrorSpec,
                                >(e@));
                            }
                            return Result::Err(e)
                        },
                    }
                }
            } else if str_eq(t[1].as_str(), "filesystemManager") {
                if t.len() < 3 {
                    let e = Error::BadLine(lines[i].clone());
                    proof {
                        assert(spec_mgr_stream(lv.skip(i as int), st) == Result::Err::<
                            MgrState,
                            ErrorSpec,
                        >(e@));
                    }
                    return Result::Err(e);
                }
                proof {
                    assert(t.deep_view()[2] == t[2 as int]@);
                }
                if str_eq(t[2].as_str(), "HEADER") {
                    fhdr = t;
                    proof {
                        assert(MgrState {
                            chdr: chdr.deep_view(),
                            fhdr: fhdr.deep_view(),
                            cluster: cluster@,
                            fs: fs.deep_view(),
                        } =~= MgrState { fhdr: fhdr.deep_view(), ..st });
                    }
                } else {
                    match FSManager::from_tokens(&t, &fhdr) {
                        Result::Ok(f) => {
                            let ghost fv = f@;
                            let ghost old_fs = fs;
                            fs.push(f);
                            proof {
                                assert(fs.deep_view() =~= old_fs.deep_view().push(fv));
                                assert(MgrState {
                                    chdr: chdr.deep_view(),
                                    fhdr: fhdr.deep_view(),
                                    cluster: cluster@,
                                    fs: fs.deep_view(),
                                } =~= MgrState { fs: st.fs.push(fv), ..st });
                            }
                        },
                        Result::Err(e) => {
                            proof {
                                assert(spec_mgr_stream(lv.skip(i as int), st) == Result::Err::<
                                    MgrState,
                                    ErrorSpec,
                                >(e@));
                            }
                            return Result::Err(e)
                        },
                    }
                }
            }
            i += 1;
        }
        proof {
            assert(lv.skip(i as int) =~= Seq::<Seq<char>>::empty());
        }
        Result::Ok(Manager { cluster, fs })
    }
}

impl FSManager {
    /// Decodes one filesystem-manager data row.
    pub fn from_tokens(t: &Vec<String>, hdr: &Vec<String>) -> (r: Result<FSManager, Error>)
        ensures
            match r {
                Result::Ok(f) => spec_fsmgr_from_tokens(t.deep_view(), hdr.deep_view())
                    == Result::Ok::<FSManagerV, ErrorSpec>(f@),
                Result::Err(e) => spec_fsmgr_from_tokens(t.deep_view(), hdr.deep_view())
                    == Result::Err::<FSManagerV, ErrorSpec>(e@),
            },
    {
        let manager_name = match lookup(t, hdr, "manager") {
            Result::Ok(s) => s.clone(),
            Result::Err(e) => { return Result::Err(e) },
        };
        let fs_name = match lookup(t, hdr, "filesystem") {
            Result::Ok(s) => s.clone(),
            Result::Err(e) => { return Result::Err(e) },
        };
        let manager_ip = match lookup(t, hdr, "managerIP") {
            Result::Ok(s) => s.clone(),
            Result::Err(e) => { return Result::Err(e) },
        };
        Result::Ok(FSManager { fs_name, manager_name, manager_ip })
    }
}

} // verus!
