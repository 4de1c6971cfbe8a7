use std::collections::HashMap;
use vstd::prelude::*;

verus! {

broadcast use vstd::std_specs::hash::group_hash_axioms;

/// An application: a name and the processes, with their open ports, that
/// belong to it.
#[derive(Clone)]
pub struct App {
    pub name: String,
    pub processes: Vec<LocalProcess>,
}

/// A local port and the id of the process that holds it open.
#[derive(Debug, Clone, Copy, PartialEq, Eq, Structural)]
pub struct LocalProcess {
    pub local_port: u16,
    pub pid: u32,
}

/// The id that a process is counted under: its parent's where it has one,
/// its own otherwise; none for the idle and system processes (ids 0 and 4)
/// and for a process that `info` does not know.
pub open spec fn owner(p: LocalProcess, info: Map<u32, (String, Option<u32>)>) -> Option<u32> {
    if p.pid == 0 || p.pid == 4 || !info.contains_key(p.pid) {
        None
    } else {
        match info[p.pid].1 {
            Some(parent) => Some(parent),
            None => Some(p.pid),
        }
    }
}

/// The processes of `ps` counted under `k`, in their order in `ps`.
pub open spec fn owned_by(ps: Seq<LocalProcess>, info: Map<u32, (String, Option<u32>)>, k: u32) -> Seq<
    LocalProcess,
>
    decreases ps.len(),
{
    if ps.len() == 0 {
        Seq::empty()
    } else {
        let init = owned_by(ps.drop_last(), info, k);
        if owner(ps.last(), info) == Some(k) {
            init.push(ps.last())
        } else {
            init
        }
    }
}

/// `apps` has one entry for each id that some process of `ps` is counted
/// under, holding those processes in order and the name that `info` gives
/// the first of them.
pub open spec fn grouped(
    apps: Map<u32, App>,
    ps: Seq<LocalProcess>,
    info: Map<u32, (String, Option<u32>)>,
) -> bool {
    &&& forall|k: u32| #[trigger] apps.contains_key(k) <==> owned_by(ps, info, k).len() > 0
    &&& forall|k: u32|
        #[trigger] apps.contains_key(k) ==> {
            &&& apps[k].processes@ == owned_by(ps, info, k)
            &&& apps[k].name@ == info[owned_by(ps, info, k)[0].pid].0@
        }
}

impl App {
    /// Groups processes with open ports into applications, keyed by the
    /// parent process id (or the process's own id where it has no parent).
    /// `info` maps a process id to its name and parent id; processes it does
    /// not know, and the idle and system processes, are left out.
    pub fn group_by_parent(
        open_processes: &Vec<LocalProcess>,
        info: &HashMap<u32, (String, Option<u32>)>,
    ) -> (apps: HashMap<u32, App>)
        ensures
            grouped(apps@, open_processes@, info@),
    {
        let ghost ps = open_processes@;
        let ghost m = info@;
        let mut apps: HashMap<u32, App> = HashMap::new();
        let mut i: usize = 0;
        assert(ps.subrange(0, 0) =~= Seq::<LocalProcess>::empty());
        while i < open_processes.len()
            invariant
                i <= ps.len(),
                ps == open_processes@,
                m == info@,
                grouped(apps@, ps.subrange(0, i as int), m),
            decreases ps.len() - i,
        {
            let process = open_processes[i];
            let ghost before = ps.subrange(0, i as int);
            let ghost after = ps.subrange(0, i + 1);
            assert(after.drop_last() =~= before);
            assert(after.last() == process);
            if process.pid != 0 && process.pid != 4 {
                match info.get(&process.pid) {
                    Some(entry) => {
                        let key = match entry.1 {
                            Some(parent) => parent,
                            None => process.pid,
                        };
                        assert(owner(process, m) == Some(key));
                        match apps.remove(&key) {
                            Some(mut app) => {
                                app.processes.push(process);
                                apps.insert(key, app);
                            },
                            None => {
                                let mut processes = Vec::new();
                                processes.push(process);
                                apps.insert(key, App { name: entry.0.clone(), processes });
                            },
                        }
                    },
                    None => {},
                }
            }
            proof {
                assert forall|k: u32| #[trigger] apps@.contains_key(k) <==> owned_by(after, m, k).len() > 0 by {
                    assert(owned_by(after, m, k) == if owner(process, m) == Some(k) {
                        owned_by(before, m, k).push(process)
                    } else {
                        owned_by(before, m, k)
                    });
                }
                assert forall|k: u32| #[trigger] apps@.contains_key(k) implies {
                    &&& apps@[k].processes@ == owned_by(after, m, k)
                    &&& apps@[k].name@ == m[owned_by(after, m, k)[0].pid].0@
                } by {
                    assert(owned_by(after, m, k) == if owner(process, m) == Some(k) {
                        owned_by(before, m, k).push(process)
                    } else {
                        owned_by(before, m, k)
                    });
                }
            }
            i = i + 1;
        }
        assert(ps.subrange(0, ps.len() as int) =~= ps);
        apps
    }
}

} // verus!
