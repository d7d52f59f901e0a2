//! The daemon registry: a mapping from a unique name to a daemon record.
//! It holds what the lifecycle engine consumes (executable path, arguments,
//! output target) and what it produces (a process id, with 0 meaning
//! "not running").

use vstd::prelude::*;

verus! {

/// A tracked daemon: its last known process id (0 when no running instance
/// is tracked), the executable path, the argument list, and where its
/// standard output and error are sent.
pub struct Daemon {
    pub pid: u32,
    pub exe: String,
    pub args: Vec<String>,
    pub output: String,
}

/// The mathematical value of a daemon record.
pub ghost struct DaemonView {
    pub pid: u32,
    pub exe: Seq<char>,
    pub args: Seq<Seq<char>>,
    pub output: Seq<char>,
}

impl View for Daemon {
    type V = DaemonView;

    open spec fn view(&self) -> DaemonView {
        DaemonView {
            pid: self.pid,
            exe: self.exe@,
            args: self.args.deep_view(),
            output: self.output@,
        }
    }
}

impl Daemon {
    /// Whether a running instance is tracked: a process id of 0 is the
    /// sentinel for "not running", and a non-zero id is only trusted
    /// together with the identity check.
    pub fn is_running(&self) -> (r: bool)
        ensures
            r == (self.pid != 0),
    {
        self.pid != 0
    }
}

/// The default output target: discard to the null device.
pub fn default_dev_null() -> (r: String)
    ensures
        r@ == "/dev/null"@,
{
    "/dev/null".to_owned()
}

/// The registry of daemons, keyed by a unique name.
pub struct Config {
    daemons: Vec<(String, Daemon)>,
}

impl Config {
    /// The registry's contents: a sequence of (name, record) pairs.
    pub closed spec fn entries(self) -> Seq<(Seq<char>, DaemonView)> {
        Seq::new(self.daemons@.len(), |i: int| (self.daemons@[i].0@, self.daemons@[i].1@))
    }

    /// Well-formed: every name occurs at most once.
    pub open spec fn wf(self) -> bool {
        forall|i: int, j: int|
            0 <= i < j < self.entries().len() ==> self.entries()[i].0 != self.entries()[j].0
    }

    /// Whether some daemon is registered under `name`.
    pub open spec fn has(self, name: Seq<char>) -> bool {
        exists|i: int| 0 <= i < self.entries().len() && self.entries()[i].0 == name
    }

    /// The record registered under `name` (meaningful when `has(name)`).
    pub open spec fn lookup(self, name: Seq<char>) -> DaemonView {
        self.entries()[choose|i: int|
            0 <= i < self.entries().len() && self.entries()[i].0 == name].1
    }

    /// In a well-formed registry, any entry carrying `name` is the one
    /// `lookup` denotes.
    proof fn lemma_lookup_at(self, j: int)
        requires
            self.wf(),
            0 <= j < self.entries().len(),
        ensures
            self.lookup(self.entries()[j].0) == self.entries()[j].1,
            self.has(self.entries()[j].0),
    {
        let name = self.entries()[j].0;
        assert(self.has(name));
        let i = choose|i: int| 0 <= i < self.entries().len() && self.entries()[i].0 == name;
        if i < j {
            assert(self.entries()[i].0 != self.entries()[j].0);
        } else if j < i {
            assert(self.entries()[j].0 != self.entries()[i].0);
        }
    }

    /// An empty registry.
    pub fn new() -> (r: Config)
        ensures
            r.wf(),
            r.entries().len() == 0,
    {
        Config { daemons: Vec::new() }
    }

    /// The position of `name` in the store, if present.
    fn find(&self, name: &String) -> (r: Option<usize>)
        requires
            self.wf(),
        ensures
            match r {
                Some(i) => i < self.entries().len() && self.entries()[i as int].0 == name@,
                None => !self.has(name@),
            },
    {
        let mut i: usize = 0;
        let n = self.daemons.len();
        while i < n
            invariant
                i <= n,
                n == self.entries().len(),
                forall|k: int| 0 <= k < i ==> self.entries()[k].0 != name@,
            decreases n - i,
        {
            if self.daemons[i].0 == *name {
                return Some(i);
            }
            i = i + 1;
        }
        None
    }

    /// Register a daemon under `name`, replacing any existing record with
    /// that name. The new record starts untracked (process id 0); a missing
    /// argument list means no arguments, and a missing output target means
    /// the null device.
    pub fn add(&mut self, name: String, exe: String, args: Option<Vec<String>>, output: Option<
        String,
    >)
        requires
            old(self).wf(),
        ensures
            final(self).wf(),
            final(self).has(name@),
            final(self).lookup(name@) == (DaemonView {
                pid: 0u32,
                exe: exe@,
                args: match args {
                    Some(a) => a.deep_view(),
                    None => Seq::<Seq<char>>::empty(),
                },
                output: match output {
                    Some(o) => o@,
                    None => "/dev/null"@,
                },
            }),
            forall|m: Seq<char>| m != name@ ==> final(self).has(m) == old(self).has(m),
            forall|m: Seq<char>|
                m != name@ && old(self).has(m) ==> final(self).lookup(m) == old(self).lookup(m),
    {
        let daemon = Daemon {
            pid: 0,
            exe,
            args: match args {
                Some(a) => a,
                None => Vec::new(),
            },
            output: match output {
                Some(o) => o,
                None => default_dev_null(),
            },
        };
        let ghost d = daemon@;
        proof {
            assert(d.args =~= (match args {
                Some(a) => a.deep_view(),
                None => Seq::<Seq<char>>::empty(),
            }));
        }
        match self.find(&name) {
            Some(i) => {
                let ghost pre = *self;
                self.daemons.remove(i);
                self.daemons.insert(i, (name, daemon));
                proof {
                    assert(self.entries() =~= pre.entries().update(i as int, (pre.entries()[i as int].0, d)));
                    assert(forall|k: int|
                        0 <= k < self.entries().len() ==> self.entries()[k].0 == pre.entries()[k].0);
                    assert(self.wf());
                    self.lemma_lookup_at(i as int);
                    assert forall|m: Seq<char>| m != pre.entries()[i as int].0 implies self.has(m)
                        == pre.has(m) by {
                        if pre.has(m) {
                            let k = choose|k: int|
                                0 <= k < pre.entries().len() && pre.entries()[k].0 == m;
                            assert(self.entries()[k].0 == m);
                        }
                        if self.has(m) {
                            let k = choose|k: int|
                                0 <= k < self.entries().len() && self.entries()[k].0 == m;
                            assert(pre.entries()[k].0 == m);
                        }
                    }
                    assert forall|m: Seq<char>|
                        m != pre.entries()[i as int].0 && pre.has(m) implies self.lookup(m)
                        == pre.lookup(m) by {
                        let k = choose|k: int|
                            0 <= k < pre.entries().len() && pre.entries()[k].0 == m;
                        pre.lemma_lookup_at(k);
                        assert(self.entries()[k].0 == m);
                        self.lemma_lookup_at(k);
                    }
                }
            },
            None => {
                let ghost pre = *self;
                self.daemons.push((name, daemon));
                proof {
                    let len = pre.entries().len() as int;
                    assert(self.entries().len() == len + 1);
                    assert(forall|k: int| 0 <= k < len ==> self.entries()[k] == pre.entries()[k]);
                    assert(self.entries()[len] == (name@, d));
                    assert forall|x: int, y: int|
                        0 <= x < y < self.entries().len() implies self.entries()[x].0
                        != self.entries()[y].0 by {
                        if y < len {
                            assert(pre.entries()[x].0 != pre.entries()[y].0);
                        } else {
                            if self.entries()[x].0 == name@ {
                                assert(pre.entries()[x].0 == name@);
                                assert(pre.has(name@));
                            }
                        }
                    }
                    self.lemma_lookup_at(len);
                    assert forall|m: Seq<char>|
                        m != self.entries()[pre.entries().len() as int].0 implies self.has(m)
                        == pre.has(m) by {
                        if self.has(m) {
                            let k = choose|k: int|
                                0 <= k < self.entries().len() && self.entries()[k].0 == m;
                            assert(k < pre.entries().len());
                            assert(pre.entries()[k].0 == m);
                        }
                    }
                    assert forall|m: Seq<char>|
                        m != self.entries()[pre.entries().len() as int].0 && pre.has(m) implies self
                        .lookup(m) == pre.lookup(m) by {
                        let k = choose|k: int|
                            0 <= k < pre.entries().len() && pre.entries()[k].0 == m;
                        pre.lemma_lookup_at(k);
                        self.lemma_lookup_at(k);
                    }
                }
            },
        }
    }

    /// How many daemons are registered.
    pub fn len(&self) -> (r: usize)
        ensures
            r == self.entries().len(),
    {
        self.daemons.len()
    }

    /// The name of the daemon at position `i`.
    pub fn name_at(&self, i: usize) -> (r: &String)
        requires
            i < self.entries().len(),
        ensures
            r@ == self.entries()[i as int].0,
    {
        &self.daemons[i].0
    }

    /// The record of the daemon at position `i`.
    pub fn daemon_at(&self, i: usize) -> (r: &Daemon)
        requires
            i < self.entries().len(),
        ensures
            r@ == self.entries()[i as int].1,
    {
        &self.daemons[i].1
    }

    /// The record registered under `name`, if any.
    pub fn get(&self, name: &String) -> (r: Option<&Daemon>)
        requires
            self.wf(),
        ensures
            match r {
                Some(daemon) => self.has(name@) && daemon@ == self.lookup(name@),
                None => !self.has(name@),
            },
    {
        match self.find(name) {
            Some(i) => {
                proof {
                    self.lemma_lookup_at(i as int);
                }
                Some(&self.daemons[i].1)
            },
            None => None,
        }
    }

    /// Record a new process id for the daemon registered under `name`.
    /// Returns whether such a daemon exists; nothing else changes.
    pub fn set_pid(&mut self, name: &String, pid: u32) -> (found: bool)
        requires
            old(self).wf(),
        ensures
            final(self).wf(),
            found == old(self).has(name@),
            forall|m: Seq<char>| final(self).has(m) == old(self).has(m),
            found ==> final(self).lookup(name@) == (DaemonView {
                pid: pid,
                ..old(self).lookup(name@)
            }),
            forall|m: Seq<char>|
                m != name@ && old(self).has(m) ==> final(self).lookup(m) == old(self).lookup(m),
    {
        match self.find(name) {
            Some(i) => {
                let ghost pre = *self;
                let entry = self.daemons.remove(i);
                let updated = Daemon { pid, ..entry.1 };
                self.daemons.insert(i, (entry.0, updated));
                proof {
                    let ghost d = DaemonView { pid: pid, ..pre.entries()[i as int].1 };
                    assert(self.entries() =~= pre.entries().update(
                        i as int,
                        (pre.entries()[i as int].0, d),
                    ));
                    assert(forall|k: int|
                        0 <= k < self.entries().len() ==> self.entries()[k].0
                            == pre.entries()[k].0);
                    assert(self.wf());
                    pre.lemma_lookup_at(i as int);
                    self.lemma_lookup_at(i as int);
                    assert forall|m: Seq<char>| self.has(m) == pre.has(m) by {
                        if pre.has(m) {
                            let k = choose|k: int|
                                0 <= k < pre.entries().len() && pre.entries()[k].0 == m;
                            assert(self.entries()[k].0 == m);
                        }
                        if self.has(m) {
                            let k = choose|k: int|
                                0 <= k < self.entries().len() && self.entries()[k].0 == m;
                            assert(pre.entries()[k].0 == m);
                        }
                    }
                    assert forall|m: Seq<char>|
                        m != name@ && pre.has(m) implies self.lookup(m) == pre.lookup(m) by {
                        let k = choose|k: int|
                            0 <= k < pre.entries().len() && pre.entries()[k].0 == m;
                        pre.lemma_lookup_at(k);
                        assert(self.entries()[k].0 == m);
                        self.lemma_lookup_at(k);
                    }
                }
                true
            },
            None => false,
        }
    }

    /// Drop the daemon registered under `name`, if any. Returns whether one
    /// was there.
    pub fn remove(&mut self, name: &String) -> (found: bool)
        requires
            old(self).wf(),
        ensures
            final(self).wf(),
            found == old(self).has(name@),
            !final(self).has(name@),
            forall|m: Seq<char>| m != name@ ==> final(self).has(m) == old(self).has(m),
            forall|m: Seq<char>|
                m != name@ && old(self).has(m) ==> final(self).lookup(m) == old(self).lookup(m),
    {
        match self.find(name) {
            Some(i) => {
                let ghost pre = *self;
                self.daemons.remove(i);
                proof {
                    assert(self.entries() =~= pre.entries().remove(i as int));
                    assert forall|x: int, y: int|
                        0 <= x < y < self.entries().len() implies self.entries()[x].0
                        != self.entries()[y].0 by {
                        let px: int = if x < i { x } else { x + 1 };
                        let py: int = if y < i { y } else { y + 1 };
                        assert(self.entries()[x] == pre.entries()[px]);
                        assert(self.entries()[y] == pre.entries()[py]);
                        assert(pre.entries()[px].0 != pre.entries()[py].0);
                    }
                    assert forall|m: Seq<char>| self.has(m) implies m == name@ || pre.has(m) by {
                        let k = choose|k: int|
                            0 <= k < self.entries().len() && self.entries()[k].0 == m;
                        let pk: int = if k < i { k } else { k + 1 };
                        assert(pre.entries()[pk].0 == m);
                    }
                    assert(!self.has(name@)) by {
                        if self.has(name@) {
                            let k = choose|k: int|
                                0 <= k < self.entries().len() && self.entries()[k].0 == name@;
                            let pk: int = if k < i { k } else { k + 1 };
                            assert(pre.entries()[pk].0 == name@);
                            assert(pre.entries()[i as int].0 == name@);
                            assert(pre.wf());
                        }
                    }
                    assert forall|m: Seq<char>| m != name@ && pre.has(m) implies self.has(m) by {
                        let k = choose|k: int|
                            0 <= k < pre.entries().len() && pre.entries()[k].0 == m;
                        let sk: int = if k < i { k } else { k - 1 };
                        assert(k != i);
                        assert(self.entries()[sk].0 == m);
                    }
                    assert forall|m: Seq<char>|
                        m != name@ && pre.has(m) implies self.lookup(m) == pre.lookup(m) by {
                        let k = choose|k: int|
                            0 <= k < pre.entries().len() && pre.entries()[k].0 == m;
                        pre.lemma_lookup_at(k);
                        let sk: int = if k < i { k } else { k - 1 };
                        assert(k != i);
                        assert(self.entries()[sk] == pre.entries()[k]);
                        self.lemma_lookup_at(sk);
                    }
                }
                true
            },
            None => false,
        }
    }
}

} // verus!
