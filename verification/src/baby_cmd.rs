//! The command that a child process is started from.
use vstd::prelude::*;

use crate::text::strings_view;

verus! {

/// A simplified representation of a process command: the program and its
/// arguments.
#[derive(Clone, Debug, PartialEq, Eq)]
pub struct BabyCommand {
    pub bin: String,
    pub args: Vec<String>,
}

/// What a `BabyCommand` holds, as character sequences.
#[verifier::ext_equal]
pub struct BabyCommandView {
    pub bin: Seq<char>,
    pub args: Seq<Seq<char>>,
}

impl View for BabyCommand {
    type V = BabyCommandView;

    open spec fn view(&self) -> BabyCommandView {
        BabyCommandView { bin: self.bin@, args: strings_view(self.args@) }
    }
}

/// A copy of each string of `v`, in order.
pub fn copy_strings(v: &Vec<String>) -> (res: Vec<String>)
    ensures
        strings_view(res@) == strings_view(v@),
{
    let mut res: Vec<String> = Vec::new();
    for i in 0..v.len()
        invariant
            res@ == v@.take(i as int),
    {
        let s = v[i].clone();
        proof {
            assert(v@.take(i as int).push(s) =~= v@.take(i + 1));
        }
        res.push(s);
    }
    proof {
        assert(v@.take(v.len() as int) =~= v@);
    }
    res
}

impl BabyCommand {
    /// A command with the same program and arguments.
    pub fn copy(&self) -> (res: BabyCommand)
        ensures
            res@ == self@,
    {
        BabyCommand { bin: self.bin.clone(), args: copy_strings(&self.args) }
    }
}

} // verus!
