//! Counting the swaps of a supervised process.
use vstd::prelude::*;

verus! {

/// What a started or swapped-in process is labelled with.
#[derive(Clone, Debug, PartialEq, Eq)]
pub enum SwapVersion {
    /// The default, a naive counter.
    Counter(usize),
    /// A version the user chose.
    UserVersion(usize),
    /// A JSON payload the user chose.
    JsonVersion(String),
}

impl vstd::std_specs::convert::FromSpecImpl<usize> for SwapVersion {
    open spec fn obeys_from_spec() -> bool {
        true
    }

    open spec fn from_spec(v: usize) -> SwapVersion {
        SwapVersion::Counter(v)
    }
}

impl From<usize> for SwapVersion {
    /// A counter value is a `Counter` version.
    fn from(value: usize) -> SwapVersion {
        SwapVersion::Counter(value)
    }
}

/// The versions of the processes started so far, oldest first, and how many
/// there were.
pub struct SwapHistory {
    history: Vec<SwapVersion>,
    count: usize,
}

impl SwapHistory {
    /// The number of processes started so far.
    pub closed spec fn spec_count(&self) -> nat {
        self.count as nat
    }

    /// Their versions, oldest first.
    pub closed spec fn versions(&self) -> Seq<SwapVersion> {
        self.history@
    }

    /// The count is the number of versions recorded, and at least one
    /// process has been started.
    pub open spec fn wf(&self) -> bool {
        &&& self.spec_count() == self.versions().len()
        &&& self.spec_count() >= 1
    }

    /// Every version so far is the counter of its place: 1, 2, 3, ...
    pub open spec fn counted(&self) -> bool {
        forall|i: int|
            0 <= i < self.versions().len() ==> #[trigger] self.versions()[i] == SwapVersion::Counter(
                (i + 1) as usize,
            )
    }

    /// The record of a first process, labelled `version`.
    pub fn start_version(version: SwapVersion) -> (res: SwapHistory)
        ensures
            res.wf(),
            res.spec_count() == 1,
            res.versions() == seq![version],
    {
        let mut history: Vec<SwapVersion> = Vec::new();
        history.push(version);
        proof {
            assert(history@ =~= seq![version]);
        }
        SwapHistory { history, count: 1 }
    }

    /// The record of a first process, labelled with counter 1.
    pub fn start() -> (res: SwapHistory)
        ensures
            res.wf(),
            res.spec_count() == 1,
            res.versions() == seq![SwapVersion::Counter(1)],
            res.counted(),
    {
        let res = Self::start_version(SwapVersion::from(1usize));
        proof {
            assert(res.versions()[0] == SwapVersion::Counter(1));
        }
        res
    }

    /// The number of processes started so far.
    pub fn count(&self) -> (res: usize)
        ensures
            res == self.spec_count(),
    {
        self.count
    }

    /// The versions recorded so far, oldest first.
    pub fn history(&self) -> (res: &Vec<SwapVersion>)
        ensures
            res@ == self.versions(),
    {
        &self.history
    }

    /// Records one more process, labelled `version`.
    pub fn swap_version(&mut self, version: SwapVersion)
        requires
            old(self).wf(),
            old(self).spec_count() < usize::MAX,
        ensures
            final(self).wf(),
            final(self).spec_count() == old(self).spec_count() + 1,
            final(self).versions() == old(self).versions().push(version),
    {
        self.count = self.count + 1;
        self.history.push(version);
    }

    /// Records one more process, labelled with the next counter value, and
    /// returns that value.
    pub fn swap(&mut self) -> (res: usize)
        requires
            old(self).wf(),
            old(self).spec_count() < usize::MAX,
        ensures
            final(self).wf(),
            res == old(self).spec_count() + 1,
            final(self).spec_count() == res,
            final(self).versions() == old(self).versions().push(SwapVersion::Counter(res)),
            old(self).counted() ==> final(self).counted(),
    {
        let next: usize = self.count + 1;
        self.swap_version(SwapVersion::from(next));
        proof {
            let v = self.versions();
            if old(self).counted() {
                assert forall|i: int| 0 <= i < v.len() implies #[trigger] v[i]
                    == SwapVersion::Counter((i + 1) as usize) by {
                    if i < old(self).versions().len() {
                        assert(v[i] == old(self).versions()[i]);
                    }
                }
            }
        }
        next
    }
}

} // verus!
