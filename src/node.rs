use vstd::prelude::*;

verus! {

/// Options for starting a node.
pub struct StartArgs {
    /// Node RPC address.
    pub rpc: String,
    /// Data directory.
    pub data: Option<String>,
    /// Indexer name, used to pick a directory under the default data directory.
    pub name: Option<String>,
    /// Wait for the RPC to be available before starting.
    pub wait_for_rpc: bool,
    /// Use a temporary directory for data, deleted when the node stops.
    pub devnet: bool,
    /// Metadata keys used for tracing and metering.
    pub use_metadata: Vec<String>,
}

/// Where a node keeps its data.
#[derive(Clone, Debug, PartialEq, Eq)]
pub enum DataDir {
    /// A scratch directory removed when the node stops.
    Temporary,
    /// The directory given.
    Path(String),
    /// The named directory under the default data directory.
    Named(String),
    /// The node's own default.
    Default,
}

impl StartArgs {
    /// The data directory these options select: devnet mode first, then an explicit
    /// directory, then a name.
    pub fn data_dir(&self) -> (r: DataDir)
        ensures
            self.devnet ==> r == DataDir::Temporary,
            !self.devnet && self.data is Some ==> r == DataDir::Path(self.data->Some_0),
            !self.devnet && self.data is None && self.name is Some ==> r == DataDir::Named(
                self.name->Some_0,
            ),
            !self.devnet && self.data is None && self.name is None ==> r == DataDir::Default,
    {
        if self.devnet {
            DataDir::Temporary
        } else {
            match &self.data {
                Some(d) => DataDir::Path(d.clone()),
                None => match &self.name {
                    Some(n) => DataDir::Named(n.clone()),
                    None => DataDir::Default,
                },
            }
        }
    }
}

} // verus!
