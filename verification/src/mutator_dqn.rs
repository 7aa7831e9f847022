//! The access pattern of an input, and the decisions of the mutator that the mutator
//! selection drives: which mutation to make, how often to retry, which constraints of a new
//! VM state an input can meet.
use vstd::prelude::*;

use crate::dqn::MutatorSelection;
use crate::evm_input::EvmInput;
use crate::global_info::{increment_mutation_op, names_match, str_eq, MutationOpTable, OpCount};

verus! {

/// What the execution of an input read from its environment; what was never read need not
/// be mutated.
#[derive(Clone, Debug)]
pub struct AccessPattern {
    /// The caller (or origin).
    pub caller: bool,
    /// The accounts whose balance was queried.
    pub balance: Vec<[u8; 20]>,
    pub call_value: bool,
    pub gas_price: bool,
    pub number: bool,
    pub coinbase: bool,
    pub timestamp: bool,
    pub prevrandao: bool,
    pub gas_limit: bool,
    pub chain_id: bool,
    pub basefee: bool,
    pub difficulty: bool,
}

impl Default for AccessPattern {
    /// Nothing read.
    fn default() -> (r: AccessPattern)
        ensures
            r.balance@.len() == 0,
            !r.caller && !r.call_value && !r.gas_price && !r.number && !r.coinbase,
            !r.timestamp && !r.prevrandao && !r.gas_limit && !r.chain_id && !r.basefee,
            !r.difficulty,
    {
        AccessPattern {
            caller: false,
            balance: Vec::new(),
            call_value: false,
            gas_price: false,
            number: false,
            coinbase: false,
            timestamp: false,
            prevrandao: false,
            gas_limit: false,
            chain_id: false,
            basefee: false,
            difficulty: false,
        }
    }
}

/// 0 or the weight `w` of a flag.
pub open spec fn weight(b: bool, w: int) -> int {
    if b {
        w
    } else {
        0
    }
}

/// The flags as a number: bit 0 caller, 1 call value, 2 gas price, 3 block number,
/// 4 coinbase, 5 timestamp, 6 prevrandao, 7 gas limit, 8 chain id, 9 base fee,
/// 10 difficulty.
pub open spec fn flag_word(ap: &AccessPattern) -> int {
    weight(ap.caller, 1) + weight(ap.call_value, 2) + weight(ap.gas_price, 4) + weight(ap.number, 8)
        + weight(ap.coinbase, 16) + weight(ap.timestamp, 32) + weight(ap.prevrandao, 64) + weight(
        ap.gas_limit,
        128,
    ) + weight(ap.chain_id, 256) + weight(ap.basefee, 512) + weight(ap.difficulty, 1024)
}

/// The address that a BALANCE opcode queries: the low 20 bytes of the big-endian word on
/// top of the stack.
pub open spec fn address_of(top: [u8; 32]) -> Seq<u8> {
    top@.subrange(12, 32)
}

proof fn lemma_or_pow(x: u32, w: u32)
    requires
        w == 1 || w == 2 || w == 4 || w == 8 || w == 16 || w == 32 || w == 64 || w == 128
            || w == 256 || w == 512 || w == 1024,
        x < w,
    ensures
        x | w == x + w,
{
    assert(x | w == x + w) by (bit_vector)
        requires
            w == 1 || w == 2 || w == 4 || w == 8 || w == 16 || w == 32 || w == 64 || w == 128
                || w == 256 || w == 512 || w == 1024,
            x < w,
    ;
}

proof fn lemma_or_high(x: u32, y: u32)
    requires
        x < 2048,
    ensures
        x | (y << 11u32) == x + (y << 11u32),
{
    assert(x | (y << 11u32) == x + (y << 11u32)) by (bit_vector)
        requires
            x < 2048,
    ;
}

impl AccessPattern {
    /// A new access pattern with all fields set to false: nothing read yet.
    pub fn new() -> (r: AccessPattern)
        ensures
            r.balance@.len() == 0,
            !r.caller && !r.call_value && !r.gas_price && !r.number && !r.coinbase,
            !r.timestamp && !r.prevrandao && !r.gas_limit && !r.chain_id && !r.basefee,
            !r.difficulty,
    {
        AccessPattern {
            balance: Vec::new(),
            caller: false,
            call_value: false,
            gas_price: false,
            number: false,
            coinbase: false,
            timestamp: false,
            prevrandao: false,
            gas_limit: false,
            chain_id: false,
            basefee: false,
            difficulty: false,
        }
    }

    /// Records what the opcode `opcode` reads; `stack_top` is the word on top of the stack.
    /// BALANCE (0x31) records the queried address; CALLER, GASPRICE, COINBASE, TIMESTAMP,
    /// NUMBER, PREVRANDAO, GASLIMIT, CHAINID and BASEFEE set their flag.
    pub fn decode_instruction(&mut self, opcode: u8, stack_top: Option<[u8; 32]>)
        requires
            opcode == 0x31 ==> stack_top is Some,
        ensures
            opcode == 0x31 ==> {
                &&& final(self).balance@.len() == old(self).balance@.len() + 1
                &&& final(self).balance@.drop_last() == old(self).balance@
                &&& final(self).balance@.last()@ == address_of(stack_top.unwrap())
            },
            opcode != 0x31 ==> final(self).balance@ == old(self).balance@,
            final(self).caller == (old(self).caller || opcode == 0x33),
            final(self).gas_price == (old(self).gas_price || opcode == 0x3a),
            final(self).coinbase == (old(self).coinbase || opcode == 0x41),
            final(self).timestamp == (old(self).timestamp || opcode == 0x42),
            final(self).number == (old(self).number || opcode == 0x43),
            final(self).prevrandao == (old(self).prevrandao || opcode == 0x44),
            final(self).gas_limit == (old(self).gas_limit || opcode == 0x45),
            final(self).chain_id == (old(self).chain_id || opcode == 0x46),
            final(self).basefee == (old(self).basefee || opcode == 0x48),
            final(self).call_value == old(self).call_value,
            final(self).difficulty == old(self).difficulty,
    {
        match opcode {
            0x31 => {
                let t = stack_top.unwrap();
                let address: [u8; 20] = [
                    t[12],
                    t[13],
                    t[14],
                    t[15],
                    t[16],
                    t[17],
                    t[18],
                    t[19],
                    t[20],
                    t[21],
                    t[22],
                    t[23],
                    t[24],
                    t[25],
                    t[26],
                    t[27],
                    t[28],
                    t[29],
                    t[30],
                    t[31],
                ];
                assert(address@ =~= address_of(t));
                self.balance.push(address);
            },
            0x33 => self.caller = true,
            0x3a => self.gas_price = true,
            0x43 => self.number = true,
            0x41 => self.coinbase = true,
            0x42 => self.timestamp = true,
            0x44 => self.prevrandao = true,
            0x45 => self.gas_limit = true,
            0x46 => self.chain_id = true,
            0x48 => self.basefee = true,
            _ => {},
        }
    }

    /// The access pattern as one word: the flags in bits 0 to 10 (see `flag_word`), the
    /// number of queried balances (truncated to 32 bits) shifted to bit 11 and up, bits
    /// beyond the word dropped.
    pub fn to_u32(&self) -> (r: u32)
        ensures
            r as int == flag_word(self) + ((self.balance@.len() as u32) << 11u32) as int,
    {
        let mut result: u32 = 0;
        if self.caller {
            proof {
                lemma_or_pow(result, 1u32);
            }
            result |= 1u32;
        }
        assert(result as int == weight(self.caller, 1));
        if self.call_value {
            proof {
                lemma_or_pow(result, 2u32);
            }
            result |= 2u32;
        }
        assert(result as int == weight(self.caller, 1) + weight(self.call_value, 2));
        if self.gas_price {
            proof {
                lemma_or_pow(result, 4u32);
            }
            result |= 4u32;
        }
        assert(result as int == weight(self.caller, 1) + weight(self.call_value, 2) + weight(self.gas_price, 4));
        if self.number {
            proof {
                lemma_or_pow(result, 8u32);
            }
            result |= 8u32;
        }
        assert(result as int == weight(self.caller, 1) + weight(self.call_value, 2) + weight(self.gas_price, 4) + weight(self.number, 8));
        if self.coinbase {
            proof {
                lemma_or_pow(result, 16u32);
            }
            result |= 16u32;
        }
        assert(result as int == weight(self.caller, 1) + weight(self.call_value, 2) + weight(self.gas_price, 4) + weight(self.number, 8) + weight(self.coinbase, 16));
        if self.timestamp {
            proof {
                lemma_or_pow(result, 32u32);
            }
            result |= 32u32;
        }
        assert(result as int == weight(self.caller, 1) + weight(self.call_value, 2) + weight(self.gas_price, 4) + weight(self.number, 8) + weight(self.coinbase, 16) + weight(self.timestamp, 32));
        if self.prevrandao {
            proof {
                lemma_or_pow(result, 64u32);
            }
            result |= 64u32;
        }
        assert(result as int == weight(self.caller, 1) + weight(self.call_value, 2) + weight(self.gas_price, 4) + weight(self.number, 8) + weight(self.coinbase, 16) + weight(self.timestamp, 32) + weight(self.prevrandao, 64));
        if self.gas_limit {
            proof {
                lemma_or_pow(result, 128u32);
            }
            result |= 128u32;
        }
        assert(result as int == weight(self.caller, 1) + weight(self.call_value, 2) + weight(self.gas_price, 4) + weight(self.number, 8) + weight(self.coinbase, 16) + weight(self.timestamp, 32) + weight(self.prevrandao, 64) + weight(self.gas_limit, 128));
        if self.chain_id {
            proof {
                lemma_or_pow(result, 256u32);
            }
            result |= 256u32;
        }
        assert(result as int == weight(self.caller, 1) + weight(self.call_value, 2) + weight(self.gas_price, 4) + weight(self.number, 8) + weight(self.coinbase, 16) + weight(self.timestamp, 32) + weight(self.prevrandao, 64) + weight(self.gas_limit, 128) + weight(self.chain_id, 256));
        if self.basefee {
            proof {
                lemma_or_pow(result, 512u32);
            }
            result |= 512u32;
        }
        assert(result as int == weight(self.caller, 1) + weight(self.call_value, 2) + weight(self.gas_price, 4) + weight(self.number, 8) + weight(self.coinbase, 16) + weight(self.timestamp, 32) + weight(self.prevrandao, 64) + weight(self.gas_limit, 128) + weight(self.chain_id, 256) + weight(self.basefee, 512));
        if self.difficulty {
            proof {
                lemma_or_pow(result, 1024u32);
            }
            result |= 1024u32;
        }
        assert(result as int == weight(self.caller, 1) + weight(self.call_value, 2) + weight(self.gas_price, 4) + weight(self.number, 8) + weight(self.coinbase, 16) + weight(self.timestamp, 32) + weight(self.prevrandao, 64) + weight(self.gas_limit, 128) + weight(self.chain_id, 256) + weight(self.basefee, 512) + weight(self.difficulty, 1024));
        let len = #[verifier::truncate] (self.balance.len() as u32);
        proof {
            lemma_or_high(result, len);
        }
        result |= len << 11u32;
        result
    }
}

/// What the mutator does to an input in one attempt.
#[derive(Clone, Copy, Debug, PartialEq, Eq, Structural)]
pub enum MutationAction {
    /// Nothing; the attempt is skipped.
    Skip,
    /// Call the next function of the exploit template and mutate the input.
    PresetCall,
    /// Move the input to another VM state of the infant corpus.
    InfantState,
    /// Turn the input into a step that resumes from the last control leak.
    TurnToStep,
    /// Draw a new liquidation percentage (see `liquidation_percent`).
    Liquidation,
    /// Replace the randomness bytes with one random byte.
    Randomness,
    /// Mutate the input's own data.
    InputMutate,
}

/// What the mutator knows of the input and the fuzzer state when it decides.
#[derive(Clone, Copy, Debug)]
pub struct MutationContext {
    /// The fuzzer state carries an exploit template.
    pub has_preset: bool,
    /// The input is a flash-loan borrow.
    pub is_borrow: bool,
    /// The input is a step from a control leak.
    pub is_step: bool,
    /// The input's VM state needs post execution.
    pub has_post_execution: bool,
    /// Liquidation is enabled.
    pub can_liquidate: bool,
}

/// One attempt of the mutator, as decided from the selection and the context.
#[derive(Clone, Copy, Debug)]
pub struct MutationPlan {
    pub action: MutationAction,
    /// The operator counter (group, operator) to count before acting.
    pub counter: Option<(&'static str, &'static str)>,
    /// A random byte is drawn before acting, whatever the action.
    pub draw_randomness_first: bool,
    /// The transaction value is set to zero after acting.
    pub zero_txn_value: bool,
    /// The attempt mutates the input whatever the fuzzer finds (see `always_mutates`).
    pub certain_mutation: bool,
}

/// Whether the selection lies in the mutator's design space: a mode of at most 6 and a
/// method of at most 3. Every such selection leads to a plan (a skip where the mutator has
/// no branch for it).
pub open spec fn plan_defined(sel: MutatorSelection) -> bool {
    sel.mutate_mode <= 6 && sel.mutate_method <= 3
}

/// Whether the selection lies in the mutator's design space (see `plan_defined`).
pub fn plan_is_defined(sel: &MutatorSelection) -> (r: bool)
    ensures
        r == plan_defined(*sel),
{
    sel.mutate_mode <= 6 && sel.mutate_method <= 3
}

/// The action of the attempt. Mode 0 follows the exploit template (method 0, where there is
/// one and the input is no borrow); mode 1 changes the VM state (method 0, not in a step);
/// mode 2 turns the input into a step (method 0, where post execution is needed and the
/// input is neither a step nor a borrow); mode 3, in a step, liquidates (method 0, where
/// liquidation is enabled) or mutates the input (method 1); mode 4, for a borrow, sets the
/// randomness (method 0) or mutates the input (method 1); mode 5 liquidates, sets the
/// randomness, or mutates the input (methods 0, 1, 2). Every other case, mode 6 among
/// them, is skipped.
pub open spec fn planned_action(sel: MutatorSelection, ctx: MutationContext) -> MutationAction {
    let m = sel.mutate_method;
    match sel.mutate_mode {
        0 => if ctx.has_preset && m == 0 && !ctx.is_borrow {
            MutationAction::PresetCall
        } else {
            MutationAction::Skip
        },
        1 => if !ctx.is_step && m == 0 {
            MutationAction::InfantState
        } else {
            MutationAction::Skip
        },
        2 => if ctx.has_post_execution && !ctx.is_step && m == 0 && !ctx.is_borrow {
            MutationAction::TurnToStep
        } else {
            MutationAction::Skip
        },
        3 => if !ctx.is_step {
            MutationAction::Skip
        } else if m == 0 {
            if ctx.can_liquidate {
                MutationAction::Liquidation
            } else {
                MutationAction::Skip
            }
        } else if m == 1 {
            MutationAction::InputMutate
        } else {
            MutationAction::Skip
        },
        4 => if !ctx.is_borrow {
            MutationAction::Skip
        } else if m == 0 {
            MutationAction::Randomness
        } else if m == 1 {
            MutationAction::InputMutate
        } else {
            MutationAction::Skip
        },
        5 => if m == 0 {
            MutationAction::Liquidation
        } else if m == 1 {
            MutationAction::Randomness
        } else if m == 2 {
            MutationAction::InputMutate
        } else {
            MutationAction::Skip
        },
        _ => MutationAction::Skip,
    }
}

/// Whether an attempt with this action always mutates the input: setting the randomness and
/// turning the input into a step always do; a skip never does; the others depend on what
/// the fuzzer finds (a next call, another VM state, a changed percentage, a changed input).
pub open spec fn always_mutates(a: MutationAction) -> bool {
    a == MutationAction::Randomness || a == MutationAction::TurnToStep
}

/// The operator counter of the attempt: mode 3's input mutation, mode 4 (for a borrow) and
/// mode 5 count the operator of a method they know.
pub open spec fn planned_counter(sel: MutatorSelection, ctx: MutationContext) -> Option<
    (&'static str, &'static str),
> {
    let m = sel.mutate_method;
    if sel.mutate_mode == 3 && ctx.is_step && m == 1 {
        Some(("MUTATE_BYTE", "MUTATE_NORMAL"))
    } else if sel.mutate_mode == 4 && ctx.is_borrow && m == 0 {
        Some(("MUTATE_BORROW", "MUTATE_RANDOMNESS"))
    } else if sel.mutate_mode == 4 && ctx.is_borrow && m == 1 {
        Some(("MUTATE_BORROW", "MUTATE_NORMAL"))
    } else if sel.mutate_mode == 5 && m == 0 {
        Some(("MUTATE_ALL", "MUTATE_LIQUIDATION"))
    } else if sel.mutate_mode == 5 && m == 1 {
        Some(("MUTATE_ALL", "MUTATE_RANDOMNESSL"))
    } else if sel.mutate_mode == 5 && m == 2 {
        Some(("MUTATE_ALL", "MUTATE_NORMAL"))
    } else {
        None
    }
}

/// What each planned action needs of the context: an input is turned into a step only where
/// its VM state needs post execution and it is neither a step nor a borrow (so mode 2 does
/// nothing without post execution); a template call needs a template and no borrow; a new
/// VM state needs an input that is no step; mode 3 liquidates only where liquidation is
/// enabled, while mode 5 with method 0 liquidates in every context, counting its operator;
/// the randomness is set only by a borrow in mode 4 or by mode 5; mode 4 leaves every input
/// that is no borrow alone, and mode 6 every input; an attempt that counts an operator acts.
pub proof fn lemma_plan_conditions(sel: MutatorSelection, ctx: MutationContext)
    ensures
        planned_action(sel, ctx) == MutationAction::TurnToStep ==> ctx.has_post_execution
            && !ctx.is_step && !ctx.is_borrow,
        sel.mutate_mode == 2 && !ctx.has_post_execution ==> planned_action(sel, ctx)
            == MutationAction::Skip,
        sel.mutate_mode == 5 && sel.mutate_method == 0 ==> planned_action(sel, ctx)
            == MutationAction::Liquidation && planned_counter(sel, ctx) == Some(
            ("MUTATE_ALL", "MUTATE_LIQUIDATION"),
        ),
        planned_action(sel, ctx) == MutationAction::PresetCall ==> ctx.has_preset && !ctx.is_borrow,
        planned_action(sel, ctx) == MutationAction::InfantState ==> !ctx.is_step,
        sel.mutate_mode == 3 && planned_action(sel, ctx) == MutationAction::Liquidation
            ==> ctx.can_liquidate,
        !always_mutates(MutationAction::Skip),
        sel.mutate_mode == 0 && ctx.has_preset && sel.mutate_method == 0 && !ctx.is_borrow
            ==> planned_action(sel, ctx) == MutationAction::PresetCall,
        sel.mutate_mode == 1 && sel.mutate_method == 0 && !ctx.is_step ==> planned_action(sel, ctx)
            == MutationAction::InfantState,
        sel.mutate_mode == 2 && sel.mutate_method == 0 && ctx.has_post_execution && !ctx.is_step
            && !ctx.is_borrow ==> planned_action(sel, ctx) == MutationAction::TurnToStep,
        sel.mutate_mode == 4 && !ctx.is_borrow ==> planned_action(sel, ctx) == MutationAction::Skip
            && planned_counter(sel, ctx) is None,
        sel.mutate_mode == 6 ==> planned_action(sel, ctx) == MutationAction::Skip && planned_counter(
            sel,
            ctx,
        ) is None,
        planned_action(sel, ctx) == MutationAction::Randomness ==> (sel.mutate_mode == 4
            && ctx.is_borrow && sel.mutate_method == 0) || (sel.mutate_mode == 5 && sel.mutate_method
            == 1),
        planned_counter(sel, ctx) is Some ==> planned_action(sel, ctx) != MutationAction::Skip,
{
}

/// Decides one attempt of the mutator from the mutator selection and the context. A borrow
/// in mode 4 draws its random byte first; a step in mode 3 ends with a zero transaction
/// value.
pub fn plan_mutation(sel: &MutatorSelection, ctx: &MutationContext) -> (r: MutationPlan)
    requires
        plan_defined(*sel),
    ensures
        r.action == planned_action(*sel, *ctx),
        r.counter == planned_counter(*sel, *ctx),
        r.draw_randomness_first == (sel.mutate_mode == 4 && ctx.is_borrow),
        r.zero_txn_value == (sel.mutate_mode == 3 && ctx.is_step),
        r.certain_mutation == always_mutates(r.action),
        r.action == MutationAction::TurnToStep ==> ctx.has_post_execution && !ctx.is_step
            && !ctx.is_borrow,
        sel.mutate_mode == 2 && !ctx.has_post_execution ==> r.action == MutationAction::Skip
            && !r.certain_mutation,
        sel.mutate_mode == 5 && sel.mutate_method == 0 ==> r.action == MutationAction::Liquidation
            && r.counter == Some(("MUTATE_ALL", "MUTATE_LIQUIDATION")),
        r.action == MutationAction::PresetCall ==> ctx.has_preset && !ctx.is_borrow,
        r.action == MutationAction::InfantState ==> !ctx.is_step,
        sel.mutate_mode == 3 && r.action == MutationAction::Liquidation ==> ctx.can_liquidate,
        sel.mutate_mode == 0 && ctx.has_preset && sel.mutate_method == 0 && !ctx.is_borrow
            ==> r.action == MutationAction::PresetCall,
        sel.mutate_mode == 1 && sel.mutate_method == 0 && !ctx.is_step ==> r.action
            == MutationAction::InfantState,
        sel.mutate_mode == 2 && sel.mutate_method == 0 && ctx.has_post_execution && !ctx.is_step
            && !ctx.is_borrow ==> r.action == MutationAction::TurnToStep && r.certain_mutation,
        sel.mutate_mode == 4 && !ctx.is_borrow ==> r.action == MutationAction::Skip && r.counter
            is None && !r.draw_randomness_first,
        sel.mutate_mode == 6 ==> r.action == MutationAction::Skip && r.counter is None,
        r.action == MutationAction::Randomness ==> (sel.mutate_mode == 4 && ctx.is_borrow
            && sel.mutate_method == 0) || (sel.mutate_mode == 5 && sel.mutate_method == 1),
        r.counter is Some ==> r.action != MutationAction::Skip,
{
    proof {
        lemma_plan_conditions(*sel, *ctx);
    }
    let m = sel.mutate_method;
    let skip = MutationPlan {
        action: MutationAction::Skip,
        counter: None,
        draw_randomness_first: false,
        zero_txn_value: false,
        certain_mutation: false,
    };
    match sel.mutate_mode {
        0 => {
            if ctx.has_preset && m == 0 && !ctx.is_borrow {
                MutationPlan { action: MutationAction::PresetCall, ..skip }
            } else {
                skip
            }
        },
        1 => {
            if !ctx.is_step && m == 0 {
                MutationPlan { action: MutationAction::InfantState, ..skip }
            } else {
                skip
            }
        },
        2 => {
            if ctx.has_post_execution && !ctx.is_step && m == 0 && !ctx.is_borrow {
                MutationPlan { action: MutationAction::TurnToStep, certain_mutation: true, ..skip }
            } else {
                skip
            }
        },
        3 => {
            if !ctx.is_step {
                skip
            } else if m == 0 {
                let action = if ctx.can_liquidate {
                    MutationAction::Liquidation
                } else {
                    MutationAction::Skip
                };
                MutationPlan { action, zero_txn_value: true, ..skip }
            } else if m == 1 {
                MutationPlan {
                    action: MutationAction::InputMutate,
                    counter: Some(("MUTATE_BYTE", "MUTATE_NORMAL")),
                    zero_txn_value: true,
                    ..skip
                }
            } else {
                MutationPlan { zero_txn_value: true, ..skip }
            }
        },
        4 => {
            if !ctx.is_borrow {
                skip
            } else if m == 0 {
                MutationPlan {
                    action: MutationAction::Randomness,
                    counter: Some(("MUTATE_BORROW", "MUTATE_RANDOMNESS")),
                    draw_randomness_first: true,
                    certain_mutation: true,
                    ..skip
                }
            } else if m == 1 {
                MutationPlan {
                    action: MutationAction::InputMutate,
                    counter: Some(("MUTATE_BORROW", "MUTATE_NORMAL")),
                    draw_randomness_first: true,
                    ..skip
                }
            } else {
                MutationPlan { draw_randomness_first: true, ..skip }
            }
        },
        5 => {
            if m == 0 {
                MutationPlan {
                    action: MutationAction::Liquidation,
                    counter: Some(("MUTATE_ALL", "MUTATE_LIQUIDATION")),
                    ..skip
                }
            } else if m == 1 {
                MutationPlan {
                    action: MutationAction::Randomness,
                    counter: Some(("MUTATE_ALL", "MUTATE_RANDOMNESSL")),
                    certain_mutation: true,
                    ..skip
                }
            } else if m == 2 {
                MutationPlan {
                    action: MutationAction::InputMutate,
                    counter: Some(("MUTATE_ALL", "MUTATE_NORMAL")),
                    ..skip
                }
            } else {
                skip
            }
        },
        _ => skip,
    }
}

/// Whether an attempt mutated the input, from its plan and `performed`, what the fuzzer
/// reports of the work it did for the plan: certainly for an action that always mutates,
/// never for a skip, otherwise as reported.
pub fn attempt_mutated(plan: &MutationPlan, performed: bool) -> (r: bool)
    requires
        plan.certain_mutation == always_mutates(plan.action),
    ensures
        r == (always_mutates(plan.action) || (plan.action != MutationAction::Skip && performed)),
{
    plan.certain_mutation || (plan.action != MutationAction::Skip && performed)
}

/// Work on the input that only the fuzzer can do, for lack of its VM states, its corpus and
/// its byte mutators.
#[derive(Clone, Copy, Debug, PartialEq, Eq, Structural)]
pub enum FuzzerWork {
    /// None: the library's part is the whole of the work.
    Nothing,
    /// Point the input at the exploit template's next call and mutate it, where the template
    /// has a next call.
    NextPresetCall,
    /// Move the input to a VM state of the infant corpus other than its own, with a caller
    /// that the fuzzer knows, where it can meet that state's constraints
    /// (`constraints_admissible`, `apply_constraint`).
    NewInfantState,
    /// Prepare the input for post execution, with the length that the VM state it is to run
    /// on needs, then mutate it `mutations` times.
    PostExecution { mutations: u64 },
    /// Mutate the input's data once.
    MutateData,
}

/// The fuzzer's work in an attempt with action `a`, in a round of `havoc_times` attempts:
/// a preset call, a new VM state or a data mutation for those actions; for turning the input
/// into a step, its preparation for post execution and one mutation for each other attempt
/// of the round; nothing otherwise.
pub open spec fn planned_work(a: MutationAction, havoc_times: u64) -> FuzzerWork {
    match a {
        MutationAction::PresetCall => FuzzerWork::NextPresetCall,
        MutationAction::InfantState => FuzzerWork::NewInfantState,
        MutationAction::TurnToStep => FuzzerWork::PostExecution {
            mutations: (havoc_times - 1) as u64,
        },
        MutationAction::InputMutate => FuzzerWork::MutateData,
        _ => FuzzerWork::Nothing,
    }
}

/// The fuzzer's work in an attempt (see `planned_work`).
pub fn fuzzer_work(a: MutationAction, havoc_times: u64) -> (r: FuzzerWork)
    requires
        havoc_times >= 1,
    ensures
        r == planned_work(a, havoc_times),
{
    match a {
        MutationAction::PresetCall => FuzzerWork::NextPresetCall,
        MutationAction::InfantState => FuzzerWork::NewInfantState,
        MutationAction::TurnToStep => FuzzerWork::PostExecution { mutations: havoc_times - 1 },
        MutationAction::InputMutate => FuzzerWork::MutateData,
        _ => FuzzerWork::Nothing,
    }
}

/// Whether `v` is the 256-bit word zero.
pub open spec fn is_zero_word(v: [u8; 32]) -> bool {
    v@ == Seq::new(32, |i: int| 0u8)
}

/// Carries out the library's part of an attempt, before the fuzzer's work: turning the input
/// into a step sets its step flag; a liquidation sets the percentage that the draw
/// `liquidation_roll` gives; setting the randomness makes it the one byte `rand_byte`.
/// Returns whether this part mutated the input: always for the step and the randomness, for
/// a liquidation where the percentage changed, never otherwise.
pub fn apply_plan(input: &mut EvmInput, plan: &MutationPlan, rand_byte: u8, liquidation_roll: u64) -> (r: bool)
    ensures
        final(input).step == (old(input).step || plan.action == MutationAction::TurnToStep),
        final(input).liquidation_percent == (if plan.action == MutationAction::Liquidation {
            liquidation_for(liquidation_roll)
        } else {
            old(input).liquidation_percent
        }),
        final(input).randomness@ == (if plan.action == MutationAction::Randomness {
            seq![rand_byte]
        } else {
            old(input).randomness@
        }),
        final(input).input_type == old(input).input_type,
        final(input).caller == old(input).caller,
        final(input).contract == old(input).contract,
        final(input).function == old(input).function,
        final(input).sstate_idx == old(input).sstate_idx,
        final(input).txn_value == old(input).txn_value,
        final(input).repeat == old(input).repeat,
        r == (plan.action == MutationAction::TurnToStep || plan.action == MutationAction::Randomness
            || (plan.action == MutationAction::Liquidation && final(input).liquidation_percent
            != old(input).liquidation_percent)),
{
    match plan.action {
        MutationAction::TurnToStep => {
            input.step = true;
            true
        },
        MutationAction::Liquidation => {
            let prev = input.liquidation_percent;
            input.liquidation_percent = liquidation_percent(liquidation_roll);
            prev != input.liquidation_percent
        },
        MutationAction::Randomness => {
            let mut bytes: Vec<u8> = Vec::new();
            bytes.push(rand_byte);
            assert(bytes@ =~= seq![rand_byte]);
            input.randomness = bytes;
            true
        },
        _ => false,
    }
}

/// Whether an attempt with action `a` mutated the input, from `applied`, what the library's
/// part reported, and `fuzzer_mutated`, what the fuzzer's work reported.
pub open spec fn attempt_outcome(a: MutationAction, applied: bool, fuzzer_mutated: bool) -> bool {
    match a {
        MutationAction::Skip => false,
        MutationAction::TurnToStep => true,
        MutationAction::Randomness => true,
        MutationAction::Liquidation => applied,
        _ => fuzzer_mutated,
    }
}

/// How an attempt's outcome follows from its action: a skip never mutates; turning into a
/// step and setting the randomness always do; a liquidation mutates exactly where the
/// percentage changed; a template call, a new VM state and a data mutation exactly where the
/// fuzzer's work changed the input (a new VM state that is the input's own, or whose
/// constraints cannot be met, does not).
pub proof fn lemma_attempt_outcome(a: MutationAction, applied: bool, fuzzer_mutated: bool)
    ensures
        a == MutationAction::Skip ==> !attempt_outcome(a, applied, fuzzer_mutated),
        always_mutates(a) ==> attempt_outcome(a, applied, fuzzer_mutated),
        a == MutationAction::Liquidation ==> attempt_outcome(a, applied, fuzzer_mutated) == applied,
        a == MutationAction::PresetCall || a == MutationAction::InfantState || a
            == MutationAction::InputMutate ==> attempt_outcome(a, applied, fuzzer_mutated)
            == fuzzer_mutated,
{
}

/// Ends an attempt after the fuzzer's work: a plan that asks for it sets the transaction
/// value to zero. Returns whether the attempt mutated the input (see `attempt_outcome`).
pub fn finish_attempt(input: &mut EvmInput, plan: &MutationPlan, applied: bool, fuzzer_mutated: bool) -> (r: bool)
    requires
        plan.certain_mutation == always_mutates(plan.action),
    ensures
        plan.zero_txn_value ==> (final(input).txn_value matches Some(v) && is_zero_word(v)),
        !plan.zero_txn_value ==> final(input).txn_value == old(input).txn_value,
        final(input).input_type == old(input).input_type,
        final(input).caller == old(input).caller,
        final(input).contract == old(input).contract,
        final(input).function == old(input).function,
        final(input).sstate_idx == old(input).sstate_idx,
        final(input).step == old(input).step,
        final(input).liquidation_percent == old(input).liquidation_percent,
        final(input).repeat == old(input).repeat,
        final(input).randomness@ == old(input).randomness@,
        r == attempt_outcome(plan.action, applied, fuzzer_mutated),
        plan.action == MutationAction::Skip ==> !r,
        always_mutates(plan.action) ==> r,
        plan.action == MutationAction::Liquidation ==> r == applied,
        plan.action == MutationAction::PresetCall || plan.action == MutationAction::InfantState
            || plan.action == MutationAction::InputMutate ==> r == fuzzer_mutated,
{
    proof {
        lemma_attempt_outcome(plan.action, applied, fuzzer_mutated);
    }
    if plan.zero_txn_value {
        let zero = [0u8; 32];
        assert(zero@ =~= Seq::new(32, |i: int| 0u8));
        input.txn_value = Some(zero);
    }
    let performed = match plan.action {
        MutationAction::Liquidation => applied,
        _ => fuzzer_mutated,
    };
    attempt_mutated(plan, performed)
}

/// The liquidation percentage that a draw `roll` (below 100) gives: 10 for a roll below 80,
/// 0 otherwise.
pub open spec fn liquidation_for(roll: u64) -> u8 {
    if roll < 80 {
        10u8
    } else {
        0u8
    }
}

/// The liquidation percentage that a draw `roll` (below 100) gives (see `liquidation_for`).
pub fn liquidation_percent(roll: u64) -> (r: u8)
    ensures
        r == liquidation_for(roll),
{
    if roll < 80 {
        10
    } else {
        0
    }
}

/// How many attempts one round of the mutator makes: with a draw `havoc_roll` (below 100)
/// under 60 the round havocs, with `times_roll + 1` attempts (`times_roll` below 10);
/// otherwise one.
pub fn havoc_times(havoc_roll: u64, times_roll: u64) -> (r: u64)
    requires
        times_roll < u64::MAX,
    ensures
        r == (if havoc_roll < 60 {
            times_roll + 1
        } else {
            1
        }),
{
    if havoc_roll < 60 {
        times_roll + 1
    } else {
        1
    }
}

/// The mutator's retry loop: rounds of `havoc_times` attempts, until a round has mutated
/// the input or 20 rounds were made.
pub struct HavocLoop {
    havoc_times: u64,
    tries: u64,
    calls_in_round: u64,
    mutated: bool,
    /// The outcome of every attempt so far.
    history: Ghost<Seq<bool>>,
}

impl HavocLoop {
    /// The outcomes of the attempts made so far.
    pub closed spec fn outcomes(&self) -> Seq<bool> {
        self.history@
    }

    /// The attempts per round.
    pub closed spec fn spec_havoc_times(&self) -> u64 {
        self.havoc_times
    }

    /// The rounds completed so far.
    pub closed spec fn rounds(&self) -> u64 {
        self.tries
    }

    /// The attempts made in the round under way.
    pub closed spec fn round_progress(&self) -> u64 {
        self.calls_in_round
    }

    /// Whether a round is under way.
    pub open spec fn mid_round(&self) -> bool {
        self.round_progress() > 0
    }

    /// Whether the loop wants another attempt: to finish the round under way, or to start a
    /// new one when no attempt has mutated and fewer than 20 rounds were made.
    pub open spec fn spec_wants_attempt(&self) -> bool {
        self.mid_round() || (!self.outcomes().contains(true) && self.rounds() < 20)
    }

    /// The attempts before the round under way, or before the last completed round where
    /// none is under way: a round is only started after rounds that did not mutate.
    closed spec fn settled(&self) -> int {
        if self.calls_in_round > 0 {
            self.tries * self.havoc_times
        } else if self.tries > 0 {
            (self.tries - 1) * self.havoc_times
        } else {
            0
        }
    }

    /// The loop's invariant: the outcomes are those of the completed rounds and the attempts
    /// of the round under way; at most 20 rounds are made, and no attempt before the last
    /// round mutated.
    pub closed spec fn wf(&self) -> bool {
        &&& self.havoc_times >= 1
        &&& self.calls_in_round < self.havoc_times
        &&& self.tries <= 20
        &&& self.history@.len() == self.tries * self.havoc_times + self.calls_in_round
        &&& self.mutated == self.history@.contains(true)
        &&& self.calls_in_round > 0 ==> self.tries < 20
        &&& forall|i: int| 0 <= i < self.settled() ==> !#[trigger] self.history@[i]
    }

    /// A loop before its first attempt, with `havoc_times` attempts per round.
    pub fn new(havoc_times: u64) -> (r: HavocLoop)
        requires
            havoc_times >= 1,
        ensures
            r.wf(),
            r.outcomes() == Seq::<bool>::empty(),
            r.spec_havoc_times() == havoc_times,
            r.rounds() == 0,
            r.round_progress() == 0,
    {
        HavocLoop { havoc_times, tries: 0, calls_in_round: 0, mutated: false, history: Ghost(Seq::empty()) }
    }

    /// Whether another attempt is due.
    pub fn wants_attempt(&self) -> (r: bool)
        requires
            self.wf(),
        ensures
            r == self.spec_wants_attempt(),
    {
        self.calls_in_round > 0 || (!self.mutated && self.tries < 20)
    }

    /// Records the outcome of an attempt.
    pub fn record(&mut self, mutated: bool)
        requires
            old(self).wf(),
            old(self).spec_wants_attempt(),
        ensures
            final(self).wf(),
            final(self).outcomes() == old(self).outcomes().push(mutated),
            final(self).spec_havoc_times() == old(self).spec_havoc_times(),
            final(self).rounds() == old(self).rounds() + if old(self).round_progress() + 1
                == old(self).spec_havoc_times() {
                1int
            } else {
                0int
            },
            final(self).round_progress() == (old(self).round_progress() + 1) % (old(
                self,
            ).spec_havoc_times() as int),
    {
        proof {
            let h = self.history@.push(mutated);
            assert(h.contains(true) == (self.history@.contains(true) || mutated)) by {
                if mutated {
                    assert(h[h.len() - 1] == true);
                }
                if self.history@.contains(true) {
                    let k = choose|k: int| 0 <= k < self.history@.len() && self.history@[k] == true;
                    assert(h[k] == true);
                }
                if h.contains(true) && !mutated {
                    let k = choose|k: int| 0 <= k < h.len() && h[k] == true;
                    assert(self.history@[k] == true);
                }
            }
            assert(self.tries * self.havoc_times + self.havoc_times == (self.tries + 1)
                * self.havoc_times) by (nonlinear_arith);
            assert(self.tries * self.havoc_times <= 20 * self.havoc_times) by (nonlinear_arith)
                requires
                    self.tries <= 20,
            ;
            let t = self.tries as int;
            let hh = self.havoc_times as int;
            assert((t + 1 - 1) * hh == t * hh);
            if self.calls_in_round == 0 {
                assert forall|i: int| 0 <= i < self.history@.len() implies !self.history@[i] by {
                    if self.history@[i] {
                        assert(self.history@.contains(true));
                    }
                }
            }
            if self.calls_in_round + 1 == self.havoc_times {
                vstd::arithmetic::div_mod::lemma_mod_self_0(self.havoc_times as int);
            } else {
                vstd::arithmetic::div_mod::lemma_small_mod(
                    (self.calls_in_round + 1) as nat,
                    self.havoc_times as nat,
                );
            }
        }
        self.history = Ghost(self.history@.push(mutated));
        if mutated {
            self.mutated = true;
        }
        self.calls_in_round = self.calls_in_round + 1;
        if self.calls_in_round == self.havoc_times {
            self.tries = self.tries + 1;
            self.calls_in_round = 0;
        }
    }

    /// Whether some attempt mutated the input.
    pub fn result(&self) -> (r: bool)
        requires
            self.wf(),
        ensures
            r == self.outcomes().contains(true),
    {
        self.mutated
    }
}

/// What the loop's invariant gives its callers: the outcomes are those of the completed
/// rounds and of the round under way, which is never complete; at most 20 rounds are made,
/// and a round is under way only before the twentieth ends.
pub proof fn lemma_havoc_loop_shape(l: HavocLoop)
    requires
        l.wf(),
    ensures
        l.spec_havoc_times() >= 1,
        l.round_progress() < l.spec_havoc_times(),
        l.rounds() <= 20,
        l.outcomes().len() == l.rounds() * l.spec_havoc_times() + l.round_progress(),
        l.mid_round() ==> l.rounds() < 20,
{
}

/// The loop stops right at the end of the first round in which an attempt mutated the
/// input: no attempt is wanted once a round is complete and some attempt mutated.
pub proof fn lemma_havoc_stops_after_mutating_round(l: HavocLoop)
    requires
        l.wf(),
        l.round_progress() == 0,
        l.outcomes().contains(true),
    ensures
        !l.spec_wants_attempt(),
{
}

/// Where every attempt mutates the input (as an action that always mutates does, see
/// `always_mutates`), the loop makes exactly one round: it wants attempts until
/// `havoc_times` of them were made, and no more.
pub proof fn lemma_mutating_attempts_make_one_round(l: HavocLoop)
    requires
        l.wf(),
        forall|i: int| 0 <= i < l.outcomes().len() ==> #[trigger] l.outcomes()[i],
    ensures
        l.outcomes().len() <= l.spec_havoc_times(),
        l.spec_wants_attempt() == (l.outcomes().len() < l.spec_havoc_times()),
{
    let t = l.tries as int;
    let h = l.havoc_times as int;
    if t > 0 {
        assert((t - 1) * h <= t * h) by (nonlinear_arith)
            requires
                t >= 1,
                h >= 1,
        ;
        assert(t * h >= 1) by (nonlinear_arith)
            requires
                t >= 1,
                h >= 1,
        ;
    }
    if l.settled() > 0 {
        assert(l.outcomes()[0]);
        assert(!l.history@[0]);
    }
    assert(l.settled() == 0);
    if l.calls_in_round > 0 {
        assert(t == 0) by (nonlinear_arith)
            requires
                t * h == 0,
                h >= 1,
                t >= 0,
        ;
    } else if t > 0 {
        assert(t == 1) by (nonlinear_arith)
            requires
                (t - 1) * h == 0,
                h >= 1,
                t >= 1,
        ;
        assert(t * h == h) by (nonlinear_arith)
            requires
                t == 1,
        ;
        assert(l.outcomes()[0]);
        assert(l.history@.contains(true));
    }
    if t == 0 {
        assert(t * h == 0) by (nonlinear_arith)
            requires
                t == 0,
        ;
    }
}

/// Each attempt brings the loop closer to its end: at most `remaining` attempts are left.
pub open spec fn remaining_attempts(l: HavocLoop) -> int {
    if l.outcomes().contains(true) && !l.mid_round() {
        0
    } else {
        (20 - l.rounds()) * l.spec_havoc_times() - l.round_progress()
    }
}

/// While the loop wants an attempt, attempts remain, and recording one leaves one fewer.
pub proof fn lemma_havoc_loop_terminates(l: HavocLoop, next: HavocLoop, mutated: bool)
    requires
        l.wf(),
        l.spec_wants_attempt(),
        next.wf(),
        next.outcomes() == l.outcomes().push(mutated),
        next.spec_havoc_times() == l.spec_havoc_times(),
        next.rounds() == l.rounds() + if l.round_progress() + 1 == l.spec_havoc_times() {
            1int
        } else {
            0int
        },
        next.round_progress() == (l.round_progress() + 1) % (l.spec_havoc_times() as int),
    ensures
        remaining_attempts(l) > 0,
        0 <= remaining_attempts(next) < remaining_attempts(l),
{
    let h = l.spec_havoc_times() as int;
    let r = l.rounds() as int;
    let p = l.round_progress() as int;
    assert(r < 20);
    assert(!(l.outcomes().contains(true) && !l.mid_round()));
    assert((20 - r) * h - p > 0) by (nonlinear_arith)
        requires
            r < 20,
            p < h,
            h >= 1,
    ;
    if p + 1 == h {
        vstd::arithmetic::div_mod::lemma_mod_self_0(h);
        assert((20 - (r + 1)) * h == (20 - r) * h - p - 1) by (nonlinear_arith)
            requires
                p + 1 == h,
        ;
        assert((20 - (r + 1)) * h >= 0) by (nonlinear_arith)
            requires
                r + 1 <= 20,
                h >= 1,
        ;
    } else {
        vstd::arithmetic::div_mod::lemma_small_mod((p + 1) as nat, h as nat);
        assert((20 - r) * h - (p + 1) >= 0) by (nonlinear_arith)
            requires
                20 - r >= 1,
                h >= 1,
                p + 1 < h,
        ;
    }
}

/// Once the loop wants no more attempts, it has made whole rounds, 20 of them or as many as
/// it took for an attempt to mutate the input, and so at most 20 rounds of attempts.
pub proof fn lemma_havoc_loop_ends(l: HavocLoop)
    requires
        l.wf(),
        !l.spec_wants_attempt(),
    ensures
        l.outcomes().len() == l.rounds() * l.spec_havoc_times(),
        l.outcomes().contains(true) || l.rounds() == 20,
        l.outcomes().len() <= 20 * l.spec_havoc_times(),
{
    assert(l.rounds() * l.spec_havoc_times() <= 20 * l.spec_havoc_times()) by (nonlinear_arith)
        requires
            l.rounds() <= 20,
    ;
}

/// How many of the operator counters in `counted` are that of operator `op` of group `group`.
pub open spec fn times_counted(
    counted: Seq<Option<(&'static str, &'static str)>>,
    group: Seq<char>,
    op: Seq<char>,
) -> nat
    decreases counted.len(),
{
    if counted.len() == 0 {
        0
    } else {
        times_counted(counted.drop_last(), group, op) + match counted.last() {
            Some(k) => if k.0@ == group && k.1@ == op {
                1nat
            } else {
                0nat
            },
            None => 0nat,
        }
    }
}

/// Whether the counter that `counter` names, if the table holds it, can be counted once more.
pub open spec fn countable(counters: Seq<OpCount>, counter: Option<(&'static str, &'static str)>) -> bool {
    match counter {
        Some(k) => forall|i: int|
            0 <= i < counters.len() && names_match(#[trigger] counters[i], k.0@, k.1@)
                ==> counters[i].count < i32::MAX,
        None => true,
    }
}

/// Whether the plan's operator counter, if the table holds it, can be counted once more.
pub fn can_count(table: &MutationOpTable, plan: &MutationPlan) -> (r: bool)
    ensures
        r == countable(table@, plan.counter),
{
    match plan.counter {
        Some(k) => {
            let group = k.0;
            let op = k.1;
            let entries = table.entries();
            let mut i: usize = 0;
            while i < entries.len()
                invariant
                    entries@ == table@,
                    plan.counter == Some(k),
                    group == k.0,
                    op == k.1,
                    i <= entries@.len(),
                    forall|j: int|
                        0 <= j < i && names_match(#[trigger] entries@[j], group@, op@)
                            ==> entries@[j].count < i32::MAX,
                decreases entries@.len() - i,
            {
                let e = entries[i];
                if e.count == i32::MAX && str_eq(e.group, group) && str_eq(e.op, op) {
                    assert(names_match(table@[i as int], group@, op@));
                    return false;
                }
                i += 1;
            }
            true
        },
        None => true,
    }
}

/// One call of the mutator: its retry loop, and what its attempts counted.
pub struct MutationCall {
    attempts: HavocLoop,
    start: Ghost<Seq<OpCount>>,
    last: Ghost<Seq<OpCount>>,
    only_own: Ghost<bool>,
    counted: Ghost<Seq<Option<(&'static str, &'static str)>>>,
}

impl MutationCall {
    /// The retry loop.
    pub closed spec fn attempts(&self) -> HavocLoop {
        self.attempts
    }

    /// The operator counters when the call began.
    pub closed spec fn start(&self) -> Seq<OpCount> {
        self.start@
    }

    /// The operator counters as the last attempt left them.
    pub closed spec fn last(&self) -> Seq<OpCount> {
        self.last@
    }

    /// Whether every attempt found the counters as the one before had left them: nothing
    /// but the call's own attempts counted.
    pub closed spec fn only_own(&self) -> bool {
        self.only_own@
    }

    /// The operator counter of each attempt so far, where it had one.
    pub closed spec fn counted(&self) -> Seq<Option<(&'static str, &'static str)>> {
        self.counted@
    }

    /// The call's invariant: one counter entry per attempt; where only the call's attempts
    /// counted, each counter is its value at the start plus the attempts that counted it.
    pub open spec fn wf(&self) -> bool {
        &&& self.attempts().wf()
        &&& self.counted().len() == self.attempts().outcomes().len()
        &&& self.only_own() ==> self.last().len() == self.start().len()
        &&& self.only_own() ==> forall|i: int|
            0 <= i < self.start().len() ==> {
                &&& (#[trigger] self.last()[i]).group == self.start()[i].group
                &&& self.last()[i].op == self.start()[i].op
                &&& self.last()[i].count == self.start()[i].count + times_counted(
                    self.counted(),
                    self.start()[i].group@,
                    self.start()[i].op@,
                )
            }
    }

    /// A call before its first attempt, with `havoc_times` attempts per round, on the
    /// counters `table`.
    pub fn new(havoc_times: u64, table: &MutationOpTable) -> (r: MutationCall)
        requires
            havoc_times >= 1,
        ensures
            r.wf(),
            r.attempts().outcomes() == Seq::<bool>::empty(),
            r.attempts().spec_havoc_times() == havoc_times,
            r.attempts().rounds() == 0,
            r.attempts().round_progress() == 0,
            r.start() == table@,
            r.last() == table@,
            r.only_own(),
            r.counted() == Seq::<Option<(&'static str, &'static str)>>::empty(),
    {
        MutationCall {
            attempts: HavocLoop::new(havoc_times),
            start: Ghost(table@),
            last: Ghost(table@),
            only_own: Ghost(true),
            counted: Ghost(Seq::empty()),
        }
    }

    /// Whether another attempt is due.
    pub fn wants_attempt(&self) -> (r: bool)
        requires
            self.wf(),
        ensures
            r == self.attempts().spec_wants_attempt(),
    {
        self.attempts.wants_attempt()
    }

    /// Records an attempt: counts its plan's operator counter, if any, in `table`, and
    /// records its outcome.
    pub fn record(&mut self, table: &mut MutationOpTable, plan: &MutationPlan, mutated: bool)
        requires
            old(self).wf(),
            old(self).attempts().spec_wants_attempt(),
            countable(old(table)@, plan.counter),
        ensures
            final(self).wf(),
            final(table)@.len() == old(table)@.len(),
            forall|i: int|
                0 <= i < old(table)@.len() ==> {
                    &&& (#[trigger] final(table)@[i]).group == old(table)@[i].group
                    &&& final(table)@[i].op == old(table)@[i].op
                    &&& final(table)@[i].count == old(table)@[i].count + match plan.counter {
                        Some(k) => if names_match(old(table)@[i], k.0@, k.1@) {
                            1int
                        } else {
                            0int
                        },
                        None => 0int,
                    }
                },
            final(self).start() == old(self).start(),
            final(self).last() == final(table)@,
            final(self).only_own() == (old(self).only_own() && old(table)@ == old(self).last()),
            final(self).counted() == old(self).counted().push(plan.counter),
            final(self).attempts().outcomes() == old(self).attempts().outcomes().push(mutated),
            final(self).attempts().spec_havoc_times() == old(self).attempts().spec_havoc_times(),
            final(self).attempts().rounds() == old(self).attempts().rounds() + if old(
                self,
            ).attempts().round_progress() + 1 == old(self).attempts().spec_havoc_times() {
                1int
            } else {
                0int
            },
            final(self).attempts().round_progress() == (old(self).attempts().round_progress() + 1)
                % (old(self).attempts().spec_havoc_times() as int),
    {
        let ghost old_counted = self.counted@;
        let ghost old_table = table@;
        let ghost own = self.only_own@ && table@ == self.last@;
        if let Some(k) = plan.counter {
            increment_mutation_op(table, k.0, k.1);
        }
        self.attempts.record(mutated);
        self.counted = Ghost(self.counted@.push(plan.counter));
        self.last = Ghost(table@);
        self.only_own = Ghost(own);
        proof {
            let c = self.counted@;
            assert(c.drop_last() =~= old_counted);
            if own {
                assert forall|i: int| 0 <= i < self.start@.len() implies {
                    &&& (#[trigger] self.last@[i]).group == self.start@[i].group
                    &&& self.last@[i].op == self.start@[i].op
                    &&& self.last@[i].count == self.start@[i].count + times_counted(
                        c,
                        self.start@[i].group@,
                        self.start@[i].op@,
                    )
                } by {
                    assert(old_table[i].group == self.start@[i].group);
                }
            }
        }
    }

    /// Whether some attempt mutated the input.
    pub fn result(&self) -> (r: bool)
        requires
            self.wf(),
        ensures
            r == self.attempts().outcomes().contains(true),
    {
        self.attempts.result()
    }
}

/// Counting `n` attempts that all count the same operator: that operator's counter counts
/// `n`, every other none.
pub proof fn lemma_times_counted_same(
    counted: Seq<Option<(&'static str, &'static str)>>,
    k: (&'static str, &'static str),
    group: Seq<char>,
    op: Seq<char>,
)
    requires
        forall|i: int| 0 <= i < counted.len() ==> #[trigger] counted[i] == Some(k),
    ensures
        times_counted(counted, group, op) == if k.0@ == group && k.1@ == op {
            counted.len()
        } else {
            0
        },
    decreases counted.len(),
{
    if counted.len() > 0 {
        let rest = counted.drop_last();
        assert forall|i: int| 0 <= i < rest.len() implies #[trigger] rest[i] == Some(k) by {
            assert(rest[i] == counted[i]);
        }
        lemma_times_counted_same(rest, k, group, op);
        assert(counted.last() == counted[counted.len() - 1]);
    }
}

/// A call in which every attempt mutated the input and counted the same operator (as
/// setting a borrow's randomness does), and nothing else counted, makes exactly
/// `havoc_times` attempts, raises that operator's counter by `havoc_times`, and leaves every
/// other counter as it was.
pub proof fn lemma_mutating_call_counts_havoc_times(c: MutationCall, k: (&'static str, &'static str))
    requires
        c.wf(),
        c.only_own(),
        !c.attempts().spec_wants_attempt(),
        forall|i: int| 0 <= i < c.attempts().outcomes().len() ==> #[trigger] c.attempts().outcomes()[i],
        forall|i: int| 0 <= i < c.counted().len() ==> #[trigger] c.counted()[i] == Some(k),
    ensures
        c.attempts().outcomes().len() == c.attempts().spec_havoc_times(),
        c.last().len() == c.start().len(),
        forall|i: int|
            0 <= i < c.start().len() ==> {
                &&& (#[trigger] c.last()[i]).group == c.start()[i].group
                &&& c.last()[i].op == c.start()[i].op
                &&& c.last()[i].count == c.start()[i].count + if names_match(c.start()[i], k.0@, k.1@) {
                    c.attempts().spec_havoc_times() as int
                } else {
                    0int
                }
            },
{
    lemma_mutating_attempts_make_one_round(c.attempts());
    assert forall|i: int| 0 <= i < c.start().len() implies {
        &&& (#[trigger] c.last()[i]).group == c.start()[i].group
        &&& c.last()[i].op == c.start()[i].op
        &&& c.last()[i].count == c.start()[i].count + if names_match(c.start()[i], k.0@, k.1@) {
            c.attempts().spec_havoc_times() as int
        } else {
            0int
        }
    } by {
        lemma_times_counted_same(c.counted(), k, c.start()[i].group@, c.start()[i].op@);
    }
}

/// A constraint that a VM state puts on the inputs that run on it.
#[derive(Clone, Copy, Debug)]
pub enum Constraint {
    /// The transaction must come from this address.
    Caller([u8; 20]),
    /// The transaction must send this value (a big-endian 256-bit word).
    Value([u8; 32]),
    /// The transaction must go to this contract.
    Contract([u8; 20]),
    /// Nothing may be liquidated.
    NoLiquidation,
    /// The transaction must resume from the control leak now.
    MustStepNow,
}

/// Whether a borrow cannot meet the constraint.
pub open spec fn refused_to_borrow(c: Constraint) -> bool {
    c is MustStepNow || c is Contract
}

/// Whether an input can meet the constraints: a borrow cannot be made to step now, nor be
/// sent to a given contract.
pub fn constraints_admissible(constraints: &Vec<Constraint>, is_borrow: bool) -> (r: bool)
    ensures
        r == !(is_borrow && exists|i: int|
            0 <= i < constraints@.len() && refused_to_borrow(#[trigger] constraints@[i])),
{
    let mut i: usize = 0;
    while i < constraints.len()
        invariant
            i <= constraints@.len(),
            is_borrow ==> forall|j: int| 0 <= j < i ==> !refused_to_borrow(#[trigger] constraints@[j]),
        decreases constraints@.len() - i,
    {
        let refused = match constraints[i] {
            Constraint::MustStepNow => true,
            Constraint::Contract(_) => true,
            _ => false,
        };
        if refused && is_borrow {
            return false;
        }
        i += 1;
    }
    true
}

/// Makes the input meet one constraint: sets its caller, its value, its contract (with
/// `abi`, the selector of the chosen ABI, as its call), no liquidation, or the step flag.
/// Returns the fuzzer's work that the constraint leaves: to step now, the input is prepared
/// for post execution with the length that the new VM state needs, and mutated once.
pub fn apply_constraint(input: &mut EvmInput, c: Constraint, abi: Option<[u8; 4]>) -> (r: FuzzerWork)
    ensures
        r == (if c is MustStepNow {
            FuzzerWork::PostExecution { mutations: 1 }
        } else {
            FuzzerWork::Nothing
        }),
        final(input).caller == (match c {
            Constraint::Caller(a) => a,
            _ => old(input).caller,
        }),
        final(input).txn_value == (match c {
            Constraint::Value(v) => Some(v),
            _ => old(input).txn_value,
        }),
        final(input).contract == (match c {
            Constraint::Contract(t) => t,
            _ => old(input).contract,
        }),
        final(input).function == (match c {
            Constraint::Contract(_) => abi,
            _ => old(input).function,
        }),
        final(input).liquidation_percent == (match c {
            Constraint::NoLiquidation => 0u8,
            _ => old(input).liquidation_percent,
        }),
        final(input).step == (c is MustStepNow || old(input).step),
        final(input).input_type == old(input).input_type,
        final(input).sstate_idx == old(input).sstate_idx,
        final(input).repeat == old(input).repeat,
        final(input).randomness@ == old(input).randomness@,
{
    match c {
        Constraint::Caller(a) => input.caller = a,
        Constraint::Value(v) => input.txn_value = Some(v),
        Constraint::Contract(t) => {
            input.contract = t;
            input.function = abi;
        },
        Constraint::NoLiquidation => input.liquidation_percent = 0,
        Constraint::MustStepNow => {
            input.step = true;
            return FuzzerWork::PostExecution { mutations: 1 };
        },
    }
    FuzzerWork::Nothing
}

/// Which of the `n_abis` known ABIs of a contract an input is set to call: none when there
/// is none or when the draw `none_roll` is a multiple of 30; otherwise the one at the draw
/// `rand_int` modulo their number.
pub fn choose_abi(rand_int: u64, none_roll: u64, n_abis: usize) -> (r: Option<usize>)
    ensures
        r == (if n_abis > 0 && none_roll % 30 != 0 {
            Some(((rand_int as usize) as int % n_abis as int) as usize)
        } else {
            None::<usize>
        }),
{
    if n_abis > 0 && none_roll % 30 != 0 {
        Some(#[verifier::truncate] (rand_int as usize) % n_abis)
    } else {
        None
    }
}

} // verus!
