use vstd::prelude::*;

use crate::cursor::{copy_bytes, Cursor};

verus! {

/// How blocks and receipts are requested from the node.
#[derive(Clone, Copy, Debug, PartialEq, Eq, Structural)]
pub struct RpcIngestionOptions {
    pub get_block_by_number_with_transactions: bool,
    pub get_block_receipts_by_number: bool,
}

/// The transactions of a block as the node returned them.
pub enum BlockTransactions {
    /// Full bodies, given here by their hashes.
    Full(Vec<Vec<u8>>),
    /// Only the hashes; the bodies are fetched separately.
    Hashes(Vec<Vec<u8>>),
    /// Uncle blocks, which are never ingested.
    Uncle,
}

/// A call to make on the node.
pub enum RpcRequest {
    BlockByNumber { number: u64, with_transactions: bool },
    TransactionsByHash(Vec<Vec<u8>>),
    ReceiptsByNumber(u64),
    ReceiptsByHash(Vec<Vec<u8>>),
}

/// Why a block cannot be ingested.
#[derive(Clone, Copy, Debug, PartialEq, Eq, Structural)]
pub enum FetchError {
    /// The block header has no hash.
    MissingBlockHash,
    /// The node returned an uncle block.
    UncleBlock,
    /// A reply arrived that the fetch was not waiting for.
    UnexpectedReply,
}

/// What the fetch waits for.
#[derive(Clone, Copy, Debug, PartialEq, Eq, Structural)]
pub enum FetchStage {
    Block,
    Transactions,
    Receipts,
    Done,
}

/// The calls that fetch one block with its transactions and receipts.
pub struct BlockFetch {
    number: u64,
    options: RpcIngestionOptions,
    stage: FetchStage,
    hash: Vec<u8>,
    transaction_hashes: Vec<Vec<u8>>,
}

pub open spec fn views(v: Seq<Vec<u8>>) -> Seq<Seq<u8>> {
    v.map_values(|x: Vec<u8>| x@)
}

fn copy_all(v: &Vec<Vec<u8>>) -> (r: Vec<Vec<u8>>)
    ensures
        views(r@) == views(v@),
{
    let mut r: Vec<Vec<u8>> = Vec::new();
    let mut i: usize = 0;
    while i < v.len()
        invariant
            0 <= i <= v.len(),
            r@.len() == i,
            forall|k: int| 0 <= k < i ==> (#[trigger] r@[k])@ == v@[k]@,
        decreases v.len() - i,
    {
        r.push(copy_bytes(&v[i]));
        i = i + 1;
    }
    assert(views(r@) =~= views(v@));
    r
}

/// The receipts request for a block, given the hashes of its transactions.
pub open spec fn is_receipts_request(
    r: RpcRequest,
    options: RpcIngestionOptions,
    number: u64,
    hashes: Seq<Seq<u8>>,
) -> bool {
    if options.get_block_receipts_by_number {
        r == RpcRequest::ReceiptsByNumber(number)
    } else {
        match r {
            RpcRequest::ReceiptsByHash(hs) => views(hs@) == hashes,
            _ => false,
        }
    }
}

impl BlockFetch {
    pub closed spec fn spec_number(&self) -> u64 {
        self.number
    }

    pub closed spec fn spec_options(&self) -> RpcIngestionOptions {
        self.options
    }

    pub closed spec fn spec_stage(&self) -> FetchStage {
        self.stage
    }

    pub closed spec fn spec_hash(&self) -> Seq<u8> {
        self.hash@
    }

    pub closed spec fn spec_transaction_hashes(&self) -> Seq<Seq<u8>> {
        views(self.transaction_hashes@)
    }

    /// Starts fetching block `number`: the block is asked for with full transactions or
    /// with hashes only, as the options say.
    pub fn start(number: u64, options: RpcIngestionOptions) -> (r: (BlockFetch, RpcRequest))
        ensures
            r.0.spec_number() == number,
            r.0.spec_options() == options,
            r.0.spec_stage() == FetchStage::Block,
            r.1 == (RpcRequest::BlockByNumber {
                number,
                with_transactions: options.get_block_by_number_with_transactions,
            }),
    {
        let fetch = BlockFetch {
            number,
            options,
            stage: FetchStage::Block,
            hash: Vec::new(),
            transaction_hashes: Vec::new(),
        };
        let request = RpcRequest::BlockByNumber {
            number,
            with_transactions: options.get_block_by_number_with_transactions,
        };
        (fetch, request)
    }

    /// Takes the block: a header without hash and an uncle block are fatal. Transactions
    /// given by hash are fetched next; otherwise the receipts are.
    pub fn on_block(&mut self, hash: Option<Vec<u8>>, transactions: BlockTransactions) -> (r: Result<RpcRequest, FetchError>)
        ensures
            final(self).spec_number() == old(self).spec_number(),
            final(self).spec_options() == old(self).spec_options(),
            (old(self).spec_stage() != FetchStage::Block ==> r == Err::<RpcRequest, FetchError>(
                FetchError::UnexpectedReply,
            )),
            (old(self).spec_stage() == FetchStage::Block && hash is None ==> r == Err::<
                RpcRequest,
                FetchError,
            >(FetchError::MissingBlockHash)),
            (old(self).spec_stage() == FetchStage::Block && hash is Some && transactions is Uncle
                ==> r == Err::<RpcRequest, FetchError>(FetchError::UncleBlock)),
            (r is Err ==> final(self).spec_stage() == old(self).spec_stage()),
            (old(self).spec_stage() == FetchStage::Block && hash is Some ==> match transactions {
                BlockTransactions::Hashes(hs) => {
                    &&& r is Ok
                    &&& match r->Ok_0 {
                        RpcRequest::TransactionsByHash(q) => views(q@) == views(hs@),
                        _ => false,
                    }
                    &&& final(self).spec_stage() == FetchStage::Transactions
                    &&& final(self).spec_hash() == hash->Some_0@
                    &&& final(self).spec_transaction_hashes() == views(hs@)
                },
                BlockTransactions::Full(hs) => {
                    &&& r is Ok
                    &&& is_receipts_request(
                        r->Ok_0,
                        old(self).spec_options(),
                        old(self).spec_number(),
                        views(hs@),
                    )
                    &&& final(self).spec_stage() == FetchStage::Receipts
                    &&& final(self).spec_hash() == hash->Some_0@
                    &&& final(self).spec_transaction_hashes() == views(hs@)
                },
                BlockTransactions::Uncle => true,
            }),
    {
        if self.stage != FetchStage::Block {
            return Err(FetchError::UnexpectedReply);
        }
        let hash = match hash {
            Some(h) => h,
            None => {
                return Err(FetchError::MissingBlockHash);
            },
        };
        match transactions {
            BlockTransactions::Uncle => Err(FetchError::UncleBlock),
            BlockTransactions::Hashes(hs) => {
                self.hash = hash;
                let request = copy_all(&hs);
                self.transaction_hashes = hs;
                self.stage = FetchStage::Transactions;
                Ok(RpcRequest::TransactionsByHash(request))
            },
            BlockTransactions::Full(hs) => {
                self.hash = hash;
                self.transaction_hashes = hs;
                self.stage = FetchStage::Receipts;
                Ok(self.receipts_request())
            },
        }
    }

    fn receipts_request(&self) -> (r: RpcRequest)
        ensures
            is_receipts_request(r, self.spec_options(), self.spec_number(), self.spec_transaction_hashes()),
    {
        if self.options.get_block_receipts_by_number {
            RpcRequest::ReceiptsByNumber(self.number)
        } else {
            RpcRequest::ReceiptsByHash(copy_all(&self.transaction_hashes))
        }
    }

    /// Takes the transaction bodies; the receipts are fetched next.
    pub fn on_transactions(&mut self) -> (r: Result<RpcRequest, FetchError>)
        ensures
            final(self).spec_number() == old(self).spec_number(),
            final(self).spec_options() == old(self).spec_options(),
            final(self).spec_hash() == old(self).spec_hash(),
            final(self).spec_transaction_hashes() == old(self).spec_transaction_hashes(),
            old(self).spec_stage() != FetchStage::Transactions ==> r == Err::<RpcRequest, _>(
                FetchError::UnexpectedReply,
            ) && final(self).spec_stage() == old(self).spec_stage(),
            old(self).spec_stage() == FetchStage::Transactions ==> r is Ok && is_receipts_request(
                r->Ok_0,
                old(self).spec_options(),
                old(self).spec_number(),
                old(self).spec_transaction_hashes(),
            ) && final(self).spec_stage() == FetchStage::Receipts,
    {
        if self.stage != FetchStage::Transactions {
            return Err(FetchError::UnexpectedReply);
        }
        self.stage = FetchStage::Receipts;
        Ok(self.receipts_request())
    }

    /// Takes the receipts; the block is complete and its cursor is returned.
    pub fn on_receipts(&mut self) -> (r: Result<Cursor, FetchError>)
        ensures
            final(self).spec_number() == old(self).spec_number(),
            final(self).spec_hash() == old(self).spec_hash(),
            old(self).spec_stage() != FetchStage::Receipts ==> r == Err::<Cursor, _>(
                FetchError::UnexpectedReply,
            ) && final(self).spec_stage() == old(self).spec_stage(),
            old(self).spec_stage() == FetchStage::Receipts ==> r is Ok && r->Ok_0@ == (
                old(self).spec_number(),
                old(self).spec_hash(),
            ) && final(self).spec_stage() == FetchStage::Done,
    {
        if self.stage != FetchStage::Receipts {
            return Err(FetchError::UnexpectedReply);
        }
        self.stage = FetchStage::Done;
        Ok(Cursor { number: self.number, hash: copy_bytes(&self.hash) })
    }
}

} // verus!
