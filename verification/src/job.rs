//! The processes of a job, each known by the node it runs on and its pid,
//! together with what each of them is doing.

use vstd::prelude::*;

verus! {

/// Index of a node, in the order the node daemons were given.
pub type NodeID = usize;

/// Process id on a node.
pub type Pid = u32;

/// What a process of the job is doing.
#[derive(Debug, Clone, Copy, PartialEq, Eq, Structural)]
pub enum ProcessStatus {
    Calculating,
    Communicating,
    Waiting,
}

/// One registered process: its node, its pid and its status.
pub type Entry = (NodeID, Pid, ProcessStatus);

/// The key of the entry at `i`.
pub open spec fn key_at(s: Seq<Entry>, i: int) -> (NodeID, Pid) {
    (s[i].0, s[i].1)
}

/// No key occurs twice in `s`.
pub open spec fn distinct_keys(s: Seq<Entry>) -> bool {
    forall|i: int, j: int|
        0 <= i < s.len() && 0 <= j < s.len() && i != j ==> #[trigger] key_at(s, i) != #[trigger] key_at(
            s,
            j,
        )
}

/// The map from keys to statuses that a list of entries describes; a later
/// entry overrides an earlier one with the same key.
pub closed spec fn entries_map(s: Seq<Entry>) -> Map<(NodeID, Pid), ProcessStatus>
    decreases s.len(),
{
    if s.len() == 0 {
        Map::empty()
    } else {
        entries_map(s.drop_last()).insert(key_at(s, s.len() - 1), s.last().2)
    }
}

/// Whether the process under a key has status `status` in `m`.
pub open spec fn has_status(m: Map<(NodeID, Pid), ProcessStatus>, status: ProcessStatus) -> spec_fn(
    (NodeID, Pid),
) -> bool {
    |k: (NodeID, Pid)| m[k] == status
}

/// How many processes of `m` have status `status`.
pub open spec fn status_count(m: Map<(NodeID, Pid), ProcessStatus>, status: ProcessStatus) -> nat {
    m.dom().filter(has_status(m, status)).len()
}

/// How many entries of `s` have status `status`.
pub open spec fn seq_status_count(s: Seq<Entry>, status: ProcessStatus) -> nat
    decreases s.len(),
{
    if s.len() == 0 {
        0
    } else {
        seq_status_count(s.drop_last(), status) + if s.last().2 == status {
            1nat
        } else {
            0nat
        }
    }
}

/// The map's domain is finite and holds exactly the keys of `s`; with
/// distinct keys, each key maps to the status of its entry.
proof fn lemma_entries_map_contents(s: Seq<Entry>)
    ensures
        entries_map(s).dom().finite(),
        forall|k: (NodeID, Pid)|
            entries_map(s).dom().contains(k) <==> exists|i: int|
                0 <= i < s.len() && #[trigger] key_at(s, i) == k,
        distinct_keys(s) ==> forall|i: int|
            0 <= i < s.len() ==> #[trigger] entries_map(s)[key_at(s, i)] == s[i].2,
    decreases s.len(),
{
    if s.len() > 0 {
        let t = s.drop_last();
        lemma_entries_map_contents(t);
        let n = s.len() - 1;
        assert forall|k: (NodeID, Pid)|
            entries_map(s).dom().contains(k) implies exists|i: int|
                0 <= i < s.len() && #[trigger] key_at(s, i) == k by {
            if k != key_at(s, n) {
                let i = choose|i: int| 0 <= i < t.len() && #[trigger] key_at(t, i) == k;
                assert(key_at(s, i) == key_at(t, i));
            }
        }
        assert forall|k: (NodeID, Pid)|
            (exists|i: int| 0 <= i < s.len() && #[trigger] key_at(s, i) == k) implies entries_map(
            s,
        ).dom().contains(k) by {
            let i = choose|i: int| 0 <= i < s.len() && #[trigger] key_at(s, i) == k;
            if i < n {
                assert(key_at(t, i) == key_at(s, i));
            }
        }
        if distinct_keys(s) {
            assert(distinct_keys(t)) by {
                assert forall|i: int, j: int|
                    0 <= i < t.len() && 0 <= j < t.len() && i != j implies #[trigger] key_at(t, i)
                    != #[trigger] key_at(t, j) by {
                    assert(key_at(t, i) == key_at(s, i));
                    assert(key_at(t, j) == key_at(s, j));
                }
            }
            assert forall|i: int| 0 <= i < s.len() implies #[trigger] entries_map(s)[key_at(s, i)]
                == s[i].2 by {
                if i < n {
                    assert(key_at(t, i) == key_at(s, i));
                    assert(key_at(s, i) != key_at(s, n));
                }
            }
        }
    }
}

/// With distinct keys, the map has one key per entry.
proof fn lemma_entries_map_len(s: Seq<Entry>)
    requires
        distinct_keys(s),
    ensures
        entries_map(s).dom().len() == s.len(),
    decreases s.len(),
{
    if s.len() > 0 {
        let t = s.drop_last();
        let n = s.len() - 1;
        assert(distinct_keys(t)) by {
            assert forall|i: int, j: int|
                0 <= i < t.len() && 0 <= j < t.len() && i != j implies #[trigger] key_at(t, i)
                != #[trigger] key_at(t, j) by {
                assert(key_at(t, i) == key_at(s, i));
                assert(key_at(t, j) == key_at(s, j));
            }
        }
        lemma_entries_map_len(t);
        lemma_entries_map_contents(t);
        if entries_map(t).dom().contains(key_at(s, n)) {
            let i = choose|i: int| 0 <= i < t.len() && #[trigger] key_at(t, i) == key_at(s, n);
            assert(key_at(t, i) == key_at(s, i));
        }
    }
}

/// Dropping the last entry keeps distinct keys distinct.
proof fn lemma_distinct_drop_last(s: Seq<Entry>)
    requires
        distinct_keys(s),
        s.len() > 0,
    ensures
        distinct_keys(s.drop_last()),
{
    let t = s.drop_last();
    assert forall|i: int, j: int|
        0 <= i < t.len() && 0 <= j < t.len() && i != j implies #[trigger] key_at(t, i)
        != #[trigger] key_at(t, j) by {
        assert(key_at(t, i) == key_at(s, i));
        assert(key_at(t, j) == key_at(s, j));
    }
}

/// With distinct keys, counting a status in the map counts it in the entries.
proof fn lemma_entries_map_count(s: Seq<Entry>, status: ProcessStatus)
    requires
        distinct_keys(s),
    ensures
        status_count(entries_map(s), status) == seq_status_count(s, status),
    decreases s.len(),
{
    if s.len() == 0 {
        let m = entries_map(s);
        assert(m.dom().filter(has_status(m, status)) =~= Set::empty());
        assert(status_count(m, status) == 0);
    } else {
        let t = s.drop_last();
        let n = s.len() - 1;
        lemma_distinct_drop_last(s);
        lemma_entries_map_count(t, status);
        lemma_entries_map_contents(t);
        let k = key_at(s, n);
        let v = s.last().2;
        if entries_map(t).dom().contains(k) {
            let i = choose|i: int| 0 <= i < t.len() && #[trigger] key_at(t, i) == k;
            assert(key_at(t, i) == key_at(s, i));
        }
        let m = entries_map(t);
        let m2 = entries_map(s);
        assert(m2 == m.insert(k, v));
        let f1 = has_status(m, status);
        let f2 = has_status(m2, status);
        let b = m.dom().filter(f1);
        let a = m2.dom().filter(f2);
        m.dom().lemma_len_filter(f1);
        if v == status {
            assert(a =~= b.insert(k));
        } else {
            assert(a =~= b);
        }
        assert(status_count(m, status) == b.len());
        assert(status_count(m2, status) == a.len());
        assert(seq_status_count(s, status) == seq_status_count(t, status) + if v == status {
            1nat
        } else {
            0nat
        });
    }
}

/// Giving one entry a new status gives its key that status in the map.
proof fn lemma_entries_map_update(s: Seq<Entry>, i: int, status: ProcessStatus)
    requires
        distinct_keys(s),
        0 <= i < s.len(),
    ensures
        distinct_keys(s.update(i, (s[i].0, s[i].1, status))),
        entries_map(s.update(i, (s[i].0, s[i].1, status))) == entries_map(s).insert(
            key_at(s, i),
            status,
        ),
{
    let s2 = s.update(i, (s[i].0, s[i].1, status));
    assert forall|j: int| 0 <= j < s.len() implies #[trigger] key_at(s2, j) == key_at(s, j) by {}
    assert(distinct_keys(s2)) by {
        assert forall|a: int, b: int|
            0 <= a < s2.len() && 0 <= b < s2.len() && a != b implies #[trigger] key_at(s2, a)
            != #[trigger] key_at(s2, b) by {
            assert(key_at(s2, a) == key_at(s, a));
            assert(key_at(s2, b) == key_at(s, b));
        }
    }
    lemma_entries_map_contents(s);
    lemma_entries_map_contents(s2);
    let m = entries_map(s);
    let m2 = entries_map(s2);
    let target = m.insert(key_at(s, i), status);
    assert forall|k: (NodeID, Pid)| m2.dom().contains(k) <==> target.dom().contains(k) by {
        if m2.dom().contains(k) {
            let j = choose|j: int| 0 <= j < s2.len() && #[trigger] key_at(s2, j) == k;
            assert(key_at(s, j) == k);
        }
        if m.dom().contains(k) {
            let j = choose|j: int| 0 <= j < s.len() && #[trigger] key_at(s, j) == k;
            assert(key_at(s2, j) == k);
        }
        if k == key_at(s, i) {
            assert(key_at(s2, i) == k);
        }
    }
    assert forall|k: (NodeID, Pid)| m2.dom().contains(k) implies m2[k] == target[k] by {
        let j = choose|j: int| 0 <= j < s2.len() && #[trigger] key_at(s2, j) == k;
        assert(key_at(s, j) == k);
        assert(m2[key_at(s2, j)] == s2[j].2);
        if j != i {
            assert(m[key_at(s, j)] == s[j].2);
        }
    }
    assert(m2 =~= target);
}

/// Removing one entry removes its key from the map.
proof fn lemma_entries_map_remove(s: Seq<Entry>, i: int)
    requires
        distinct_keys(s),
        0 <= i < s.len(),
    ensures
        distinct_keys(s.remove(i)),
        entries_map(s.remove(i)) == entries_map(s).remove(key_at(s, i)),
{
    let s2 = s.remove(i);
    assert forall|j: int| 0 <= j < s2.len() implies #[trigger] key_at(s2, j) == if j < i {
        key_at(s, j)
    } else {
        key_at(s, j + 1)
    } by {}
    assert(distinct_keys(s2)) by {
        assert forall|a: int, b: int|
            0 <= a < s2.len() && 0 <= b < s2.len() && a != b implies #[trigger] key_at(s2, a)
            != #[trigger] key_at(s2, b) by {
            let a1 = if a < i {
                a
            } else {
                a + 1
            };
            let b1 = if b < i {
                b
            } else {
                b + 1
            };
            assert(key_at(s2, a) == key_at(s, a1));
            assert(key_at(s2, b) == key_at(s, b1));
        }
    }
    lemma_entries_map_contents(s);
    lemma_entries_map_contents(s2);
    let m = entries_map(s);
    let m2 = entries_map(s2);
    let target = m.remove(key_at(s, i));
    assert forall|k: (NodeID, Pid)| m2.dom().contains(k) <==> target.dom().contains(k) by {
        if m2.dom().contains(k) {
            let j = choose|j: int| 0 <= j < s2.len() && #[trigger] key_at(s2, j) == k;
            let j1 = if j < i {
                j
            } else {
                j + 1
            };
            assert(key_at(s, j1) == k);
            assert(key_at(s, j1) != key_at(s, i));
        }
        if target.dom().contains(k) {
            let j = choose|j: int| 0 <= j < s.len() && #[trigger] key_at(s, j) == k;
            assert(j != i);
            let j2 = if j < i {
                j
            } else {
                j - 1
            };
            assert(key_at(s2, j2) == k);
        }
    }
    assert forall|k: (NodeID, Pid)| m2.dom().contains(k) implies m2[k] == target[k] by {
        let j = choose|j: int| 0 <= j < s2.len() && #[trigger] key_at(s2, j) == k;
        let j1 = if j < i {
            j
        } else {
            j + 1
        };
        assert(key_at(s, j1) == k);
        assert(m2[key_at(s2, j)] == s2[j].2);
        assert(m[key_at(s, j1)] == s[j1].2);
    }
    assert(m2 =~= target);
}

/// The processes of a job. Each process is registered once, under the node
/// it runs on and its pid, with what it is doing.
#[derive(Debug, Clone)]
pub struct Job {
    procs: Vec<Entry>,
}

impl View for Job {
    type V = Map<(NodeID, Pid), ProcessStatus>;

    closed spec fn view(&self) -> Map<(NodeID, Pid), ProcessStatus> {
        entries_map(self.procs@)
    }
}

impl Job {
    /// No process is registered twice.
    pub closed spec fn wf(&self) -> bool {
        distinct_keys(self.procs@)
    }

    /// A job without processes.
    pub fn new() -> (job: Self)
        ensures
            job.wf(),
            job@ == Map::<(NodeID, Pid), ProcessStatus>::empty(),
    {
        Job { procs: Vec::new() }
    }

    /// Where the process `(node_id, pid)` is registered, if it is.
    fn find(&self, node_id: NodeID, pid: Pid) -> (r: Option<usize>)
        requires
            self.wf(),
        ensures
            match r {
                Some(i) => i < self.procs@.len() && key_at(self.procs@, i as int) == (node_id, pid),
                None => !self@.dom().contains((node_id, pid)),
            },
    {
        let mut i: usize = 0;
        while i < self.procs.len()
            invariant
                i <= self.procs@.len(),
                forall|j: int| 0 <= j < i ==> #[trigger] key_at(self.procs@, j) != (node_id, pid),
            decreases self.procs@.len() - i,
        {
            let e = self.procs[i];
            if e.0 == node_id && e.1 == pid {
                return Some(i);
            }
            i = i + 1;
        }
        proof {
            lemma_entries_map_contents(self.procs@);
        }
        None
    }

    /// Whether the process `(node_id, pid)` is registered.
    pub fn contains(&self, node_id: NodeID, pid: Pid) -> (r: bool)
        requires
            self.wf(),
        ensures
            r == self@.dom().contains((node_id, pid)),
    {
        proof {
            lemma_entries_map_contents(self.procs@);
        }
        self.find(node_id, pid).is_some()
    }

    /// Sets the status of a registered process.
    pub fn change_state(&mut self, node_id: NodeID, pid: Pid, status: ProcessStatus)
        requires
            old(self).wf(),
            old(self)@.dom().contains((node_id, pid)),
        ensures
            final(self).wf(),
            final(self)@ == old(self)@.insert((node_id, pid), status),
    {
        match self.find(node_id, pid) {
            Some(i) => {
                proof {
                    lemma_entries_map_update(self.procs@, i as int, status);
                }
                self.procs.set(i, (node_id, pid, status));
            },
            None => {},
        }
    }

    /// Registers a process as calculating; a process registered before
    /// starts over as calculating.
    pub fn append(&mut self, node_id: NodeID, pid: Pid)
        requires
            old(self).wf(),
        ensures
            final(self).wf(),
            final(self)@ == old(self)@.insert((node_id, pid), ProcessStatus::Calculating),
    {
        match self.find(node_id, pid) {
            Some(i) => {
                proof {
                    lemma_entries_map_update(self.procs@, i as int, ProcessStatus::Calculating);
                }
                self.procs.set(i, (node_id, pid, ProcessStatus::Calculating));
            },
            None => {
                proof {
                    lemma_entries_map_contents(self.procs@);
                }
                let ghost before = self.procs@;
                self.procs.push((node_id, pid, ProcessStatus::Calculating));
                proof {
                    assert(self.procs@.drop_last() =~= before);
                    assert forall|a: int, b: int|
                        0 <= a < self.procs@.len() && 0 <= b < self.procs@.len() && a != b implies
                        #[trigger] key_at(self.procs@, a) != #[trigger] key_at(self.procs@, b) by {
                        if a < before.len() {
                            assert(key_at(self.procs@, a) == key_at(before, a));
                        }
                        if b < before.len() {
                            assert(key_at(self.procs@, b) == key_at(before, b));
                        }
                    }
                }
            },
        }
    }

    /// Forgets a process; nothing happens if it is not registered.
    pub fn remove(&mut self, node_id: NodeID, pid: Pid)
        requires
            old(self).wf(),
        ensures
            final(self).wf(),
            final(self)@ == old(self)@.remove((node_id, pid)),
    {
        match self.find(node_id, pid) {
            Some(i) => {
                proof {
                    lemma_entries_map_remove(self.procs@, i as int);
                }
                self.procs.remove(i);
            },
            None => {
                assert(self@ =~= self@.remove((node_id, pid)));
            },
        }
    }

    /// Whether any process is registered.
    pub fn is_running(&self) -> (r: bool)
        requires
            self.wf(),
        ensures
            r == (self@.len() > 0),
    {
        proof {
            lemma_entries_map_len(self.procs@);
        }
        !self.procs.is_empty()
    }

    /// How many processes are registered.
    pub fn n_processes(&self) -> (r: usize)
        requires
            self.wf(),
        ensures
            r == self@.len(),
    {
        proof {
            lemma_entries_map_len(self.procs@);
        }
        self.procs.len()
    }

    /// How many registered processes have status `status`.
    pub fn num_of(&self, status: ProcessStatus) -> (r: usize)
        requires
            self.wf(),
        ensures
            r == status_count(self@, status),
    {
        let mut count: usize = 0;
        let mut i: usize = 0;
        while i < self.procs.len()
            invariant
                i <= self.procs@.len(),
                count == seq_status_count(self.procs@.take(i as int), status),
                count <= i,
            decreases self.procs@.len() - i,
        {
            assert(self.procs@.take(i + 1).drop_last() =~= self.procs@.take(i as int));
            if self.procs[i].2 == status {
                count = count + 1;
            }
            i = i + 1;
        }
        proof {
            assert(self.procs@.take(i as int) =~= self.procs@);
            lemma_entries_map_count(self.procs@, status);
        }
        count
    }
}

/// The three status counts of a list of entries add up to its length.
proof fn lemma_seq_counts_sum(s: Seq<Entry>)
    ensures
        seq_status_count(s, ProcessStatus::Calculating) + seq_status_count(
            s,
            ProcessStatus::Communicating,
        ) + seq_status_count(s, ProcessStatus::Waiting) == s.len(),
    decreases s.len(),
{
    if s.len() > 0 {
        lemma_seq_counts_sum(s.drop_last());
    }
}

/// Counting one status in a finite map after one key is set to `status`.
proof fn lemma_count_after_insert(
    m: Map<(NodeID, Pid), ProcessStatus>,
    k: (NodeID, Pid),
    status: ProcessStatus,
    counted: ProcessStatus,
)
    requires
        m.dom().finite(),
    ensures
        status_count(m.insert(k, status), counted) + (if m.dom().contains(k) && m[k] == counted {
            1int
        } else {
            0int
        }) == status_count(m, counted) + (if status == counted {
            1int
        } else {
            0int
        }),
{
    let m2 = m.insert(k, status);
    let a = m2.dom().filter(has_status(m2, counted));
    let b = m.dom().filter(has_status(m, counted));
    m.dom().lemma_len_filter(has_status(m, counted));
    let rest = b.remove(k);
    assert(a =~= if status == counted {
        rest.insert(k)
    } else {
        rest
    });
}

impl Job {
    /// The registered processes form a finite map.
    pub proof fn lemma_view_finite(self)
        requires
            self.wf(),
        ensures
            self@.dom().finite(),
    {
        lemma_entries_map_contents(self.procs@);
    }

    /// Every registered process is calculating, communicating or waiting:
    /// the three counts add up to the number of processes.
    pub proof fn lemma_status_counts_partition(self)
        requires
            self.wf(),
        ensures
            status_count(self@, ProcessStatus::Calculating) + status_count(
                self@,
                ProcessStatus::Communicating,
            ) + status_count(self@, ProcessStatus::Waiting) == self@.len(),
    {
        lemma_seq_counts_sum(self.procs@);
        lemma_entries_map_count(self.procs@, ProcessStatus::Calculating);
        lemma_entries_map_count(self.procs@, ProcessStatus::Communicating);
        lemma_entries_map_count(self.procs@, ProcessStatus::Waiting);
        lemma_entries_map_len(self.procs@);
    }

    /// Changing the status of a registered process moves it from the count
    /// of its old status to the count of its new one, and keeps the number of
    /// processes.
    pub proof fn lemma_change_state_moves_count(
        self,
        node_id: NodeID,
        pid: Pid,
        status: ProcessStatus,
        counted: ProcessStatus,
    )
        requires
            self.wf(),
            self@.dom().contains((node_id, pid)),
        ensures
            self@.insert((node_id, pid), status).len() == self@.len(),
            status_count(self@.insert((node_id, pid), status), counted) + (if self@[(node_id, pid)]
                == counted {
                1int
            } else {
                0int
            }) == status_count(self@, counted) + (if status == counted {
                1int
            } else {
                0int
            }),
    {
        self.lemma_view_finite();
        lemma_count_after_insert(self@, (node_id, pid), status, counted);
        assert(self@.insert((node_id, pid), status).dom() =~= self@.dom());
    }

    /// Registering a new process adds one calculating process and leaves the
    /// other counts alone.
    pub proof fn lemma_append_counts(self, node_id: NodeID, pid: Pid, counted: ProcessStatus)
        requires
            self.wf(),
            !self@.dom().contains((node_id, pid)),
        ensures
            self@.insert((node_id, pid), ProcessStatus::Calculating).len() == self@.len() + 1,
            status_count(self@.insert((node_id, pid), ProcessStatus::Calculating), counted)
                == status_count(self@, counted) + (if counted == ProcessStatus::Calculating {
                1int
            } else {
                0int
            }),
    {
        self.lemma_view_finite();
        lemma_count_after_insert(self@, (node_id, pid), ProcessStatus::Calculating, counted);
    }
}

/// Forgetting a process that was just registered gives back the job as it
/// was before the registration.
pub proof fn lemma_remove_undoes_append(
    m: Map<(NodeID, Pid), ProcessStatus>,
    node_id: NodeID,
    pid: Pid,
)
    requires
        !m.dom().contains((node_id, pid)),
    ensures
        m.insert((node_id, pid), ProcessStatus::Calculating).remove((node_id, pid)) == m,
{
    assert(m.insert((node_id, pid), ProcessStatus::Calculating).remove((node_id, pid)) =~= m);
}

/// In a finite map, a status has a positive count exactly when some key has
/// it.
pub proof fn lemma_status_count_positive(m: Map<(NodeID, Pid), ProcessStatus>, status: ProcessStatus)
    requires
        m.dom().finite(),
    ensures
        status_count(m, status) > 0 <==> exists|k: (NodeID, Pid)|
            m.dom().contains(k) && m[k] == status,
{
    let f = m.dom().filter(has_status(m, status));
    m.dom().lemma_len_filter(has_status(m, status));
    if exists|k: (NodeID, Pid)| m.dom().contains(k) && m[k] == status {
        let k = choose|k: (NodeID, Pid)| m.dom().contains(k) && m[k] == status;
        assert(f.contains(k));
    }
    if f.len() > 0 {
        let k = f.choose();
        assert(f.contains(k));
    }
}

} // verus!
