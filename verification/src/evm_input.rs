//! The part of a fuzzer's EVM transaction input that the scheduling logic reads and carries.
use vstd::prelude::*;

verus! {

/// What kind of transaction an input stands for.
#[derive(Clone, Copy, Debug, PartialEq, Eq, Structural)]
pub enum EvmInputTy {
    /// A call through the contract's ABI.
    Abi,
    /// A flash-loan borrow.
    Borrow,
    /// A call to an arbitrary address within bounds.
    ArbitraryCallBoundedAddr,
    /// A liquidation.
    Liquidate,
}

/// An EVM transaction input, as the scheduler sees it.
#[derive(Clone, Debug)]
pub struct EvmInput {
    pub input_type: EvmInputTy,
    pub caller: [u8; 20],
    pub contract: [u8; 20],
    /// The 4-byte selector of the ABI call, where the input carries one.
    pub function: Option<[u8; 4]>,
    /// Index of the VM state the transaction starts from.
    pub sstate_idx: usize,
    /// The value sent with the transaction (a big-endian 256-bit word), where one is set.
    pub txn_value: Option<[u8; 32]>,
    /// Whether the transaction resumes from the last control leak.
    pub step: bool,
    /// Percentage of tokens to liquidate.
    pub liquidation_percent: u8,
    /// How many times the transaction is executed.
    pub repeat: usize,
    /// The randomness bytes that a flash-loan borrow draws its amounts from.
    pub randomness: Vec<u8>,
}

impl EvmInput {
    /// Whether `other` holds the same input: the same fields and the same randomness bytes.
    pub open spec fn same_as(self, other: EvmInput) -> bool {
        &&& self.input_type == other.input_type
        &&& self.caller == other.caller
        &&& self.contract == other.contract
        &&& self.function == other.function
        &&& self.sstate_idx == other.sstate_idx
        &&& self.txn_value == other.txn_value
        &&& self.step == other.step
        &&& self.liquidation_percent == other.liquidation_percent
        &&& self.repeat == other.repeat
        &&& self.randomness@ == other.randomness@
    }

    /// A copy of the input.
    pub fn duplicate(&self) -> (r: EvmInput)
        ensures
            r.same_as(*self),
    {
        let mut randomness: Vec<u8> = Vec::new();
        let mut i: usize = 0;
        while i < self.randomness.len()
            invariant
                i <= self.randomness@.len(),
                randomness@ == self.randomness@.take(i as int),
            decreases self.randomness@.len() - i,
        {
            randomness.push(self.randomness[i]);
            i += 1;
            assert(randomness@ =~= self.randomness@.take(i as int));
        }
        assert(randomness@ =~= self.randomness@);
        EvmInput {
            input_type: self.input_type,
            caller: self.caller,
            contract: self.contract,
            function: self.function,
            sstate_idx: self.sstate_idx,
            txn_value: self.txn_value,
            step: self.step,
            liquidation_percent: self.liquidation_percent,
            repeat: self.repeat,
            randomness,
        }
    }
}

/// Whether `x` is the input that the shared state starts from: an ABI call from and to the
/// zero address, with no data and no randomness, from the first VM state.
pub open spec fn is_initial_input(x: EvmInput) -> bool {
    &&& x.input_type == EvmInputTy::Abi
    &&& x.caller@ == Seq::new(20, |i: int| 0u8)
    &&& x.contract@ == Seq::new(20, |i: int| 0u8)
    &&& x.function is None
    &&& x.sstate_idx == 0
    &&& x.txn_value is None
    &&& !x.step
    &&& x.liquidation_percent == 0
    &&& x.repeat == 0
    &&& x.randomness@ == Seq::<u8>::empty()
}

impl Default for EvmInput {
    fn default() -> (r: EvmInput)
        ensures
            is_initial_input(r),
    {
        let r = EvmInput {
            input_type: EvmInputTy::Abi,
            caller: [0u8; 20],
            contract: [0u8; 20],
            function: None,
            sstate_idx: 0,
            txn_value: None,
            step: false,
            liquidation_percent: 0,
            repeat: 0,
            randomness: Vec::new(),
        };
        assert(r.caller@ =~= Seq::new(20, |i: int| 0u8));
        assert(r.contract@ =~= Seq::new(20, |i: int| 0u8));
        r
    }
}

} // verus!
