use vstd::prelude::*;

verus! {

/// The kind of chain a network runs.
#[derive(Clone, Copy, Debug, PartialEq, Eq, Structural)]
pub enum NetworkKind {
    Ethereum,
    StarkNet,
}

/// How to reach a network's node.
#[derive(Clone, Debug)]
pub struct Network {
    pub kind: NetworkKind,
    pub provider_url: String,
}

/// Why no provider can be made for a network.
#[derive(Clone, Debug)]
pub enum NetworkError {
    /// No network has the name asked for.
    NotFound { name: String },
}

/// The networks known by name.
pub struct NetworkManager {
    networks: Vec<(String, Network)>,
}

/// Index of the first entry of `networks` named `name`, if any.
pub open spec fn first_named(networks: Seq<(String, Network)>, name: Seq<char>) -> Option<int> {
    if exists|i: int| 0 <= i < networks.len() && (#[trigger] networks[i]).0@ == name {
        Some(
            choose|i: int|
                0 <= i < networks.len() && (#[trigger] networks[i]).0@ == name && forall|j: int|
                    0 <= j < i ==> (#[trigger] networks[j]).0@ != name,
        )
    } else {
        None
    }
}

impl NetworkManager {
    pub closed spec fn spec_networks(&self) -> Seq<(String, Network)> {
        self.networks@
    }

    /// A manager of `networks`; where two share a name, the first is used.
    pub fn new(networks: Vec<(String, Network)>) -> (r: NetworkManager)
        ensures
            r.spec_networks() == networks@,
    {
        NetworkManager { networks }
    }

    /// The configuration of the network named `name`.
    pub fn network(&self, name: &String) -> (r: Result<&Network, NetworkError>)
        ensures
            match first_named(self.spec_networks(), name@) {
                Some(i) => r is Ok && *r->Ok_0 == self.spec_networks()[i].1,
                None => r is Err && r->Err_0 == NetworkError::NotFound { name: *name },
            },
    {
        let mut i: usize = 0;
        while i < self.networks.len()
            invariant
                0 <= i <= self.networks.len(),
                forall|j: int| 0 <= j < i ==> (#[trigger] self.networks@[j]).0@ != name@,
            decreases self.networks.len() - i,
        {
            if self.networks[i].0 == *name {
                proof {
                    let k = choose|k: int|
                        0 <= k < self.networks@.len() && (#[trigger] self.networks@[k]).0@ == name@
                            && forall|j: int| 0 <= j < k ==> (#[trigger] self.networks@[j]).0@ != name@;
                    if k < i {
                    } else if k > i {
                        assert(self.networks@[i as int].0@ == name@);
                    }
                    assert(k == i);
                }
                return Ok(&self.networks[i].1);
            }
            i = i + 1;
        }
        Err(NetworkError::NotFound { name: name.clone() })
    }
}

} // verus!
