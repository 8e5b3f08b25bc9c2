use vstd::prelude::*;
use vstd::string::StringExecFns;
use std::collections::VecDeque;
use crate::schema::Package;

verus! {

/// The directory name under which a dependency is unpacked:
/// `"{name}-{version}"`.
pub open spec fn dir_name_spec(name: Seq<char>, version: Seq<char>) -> Seq<char> {
    name + "-"@ + version
}

/// Builds the `"{name}-{version}"` directory name.
pub fn dir_name(name: &String, version: &String) -> (r: String)
    ensures
        r@ == dir_name_spec(name@, version@),
{
    let mut s = name.clone();
    s.append("-");
    s.append(version.as_str());
    s
}

/// Decision core of the breadth-first search for a dependency's directory.
///
/// The caller owns the filesystem: it repeatedly takes the front candidate
/// path, finds out whether that path is a directory and what its final
/// segment is, and hands back the children of a non-matching directory.
/// This type owns the queue discipline and the match test, so the search
/// visits candidates in breadth-first order and the shallowest matching
/// directory wins.
pub struct Resolver {
    /// FIFO queue of candidate paths, front first.
    fringe: VecDeque<String>,
    /// The directory name searched for: `"{name}-{version}"`.
    target: String,
}

impl Resolver {
    /// The candidate paths still queued for inspection, front first.
    pub closed spec fn queue(&self) -> Seq<Seq<char>> {
        self.fringe.deep_view()
    }

    /// The directory name searched for.
    pub closed spec fn target_name(&self) -> Seq<char> {
        self.target@
    }

    /// Starts a search for `package`'s directory below `root`.
    pub fn new(root: String, package: &Package) -> (r: Resolver)
        ensures
            r.queue() == seq![root@],
            r.target_name() == dir_name_spec(package.name@, package.version@),
    {
        let target = dir_name(&package.name, &package.version);
        let mut fringe: VecDeque<String> = VecDeque::new();
        let ghost rv = root@;
        fringe.push_back(root);
        let r = Resolver { fringe, target };
        proof {
            assert(r.queue() =~= seq![rv]);
        }
        r
    }

    /// Removes and returns the front candidate. `None` once the queue is
    /// empty, which is the not-found outcome of the whole search.
    pub fn pop_front(&mut self) -> (r: Option<String>)
        ensures
            final(self).target_name() == old(self).target_name(),
            match r {
                Some(p) => old(self).queue().len() > 0 && p@ == old(self).queue()[0]
                    && final(self).queue() == old(self).queue().drop_first(),
                None => old(self).queue().len() == 0 && final(self).queue() == old(self).queue(),
            },
    {
        let ghost pre = self.fringe.deep_view();
        let r = self.fringe.pop_front();
        proof {
            if self.fringe@.len() < pre.len() {
                assert(self.fringe.deep_view() =~= pre.drop_first());
            } else {
                assert(self.fringe.deep_view() =~= pre);
            }
        }
        r
    }

    /// Does a directory's final path segment match the name searched for?
    pub fn is_match(&self, segment: &String) -> (r: bool)
        ensures
            r == (segment@ == self.target_name()),
    {
        *segment == self.target
    }

    /// Queues the children of a non-matching directory, in the order the
    /// caller lists them, behind every candidate already queued.
    pub fn push_children(&mut self, children: Vec<String>)
        ensures
            final(self).target_name() == old(self).target_name(),
            final(self).queue() == old(self).queue() + children.deep_view(),
    {
        let ghost pre = self.fringe.deep_view();
        let ghost all = children.deep_view();
        let mut i: usize = 0;
        while i < children.len()
            invariant
                i <= children.len(),
                all == children.deep_view(),
                self.target == old(self).target,
                self.fringe.deep_view() == pre + all.take(i as int),
            decreases children.len() - i,
        {
            let ghost mid = self.fringe.deep_view();
            let c = children[i].clone();
            self.fringe.push_back(c);
            proof {
                assert(self.fringe.deep_view() =~= mid.push(all[i as int]));
                assert(mid.push(all[i as int]) =~= pre + all.take(i as int + 1));
            }
            i += 1;
        }
        proof {
            assert(all.take(children.len() as int) =~= all);
        }
    }
}

} // verus!
