//! The integer side of the DQN scheduler: the shared input and mutation code, the action
//! space and its decoding into a mutator selection, the agent's state features, the
//! environment steps and the replay buffer.
use vstd::prelude::*;
use std::collections::HashMap;
use std::collections::VecDeque;

use crate::action_file::{
    actions_with_prefix, code_at, codes_for_action, extends_action, random_distinct_indices,
    random_index,
};
use crate::decimal::{
    dec_i64, dec_int, dec_nat, is_digit, lemma_dec_nat_digits, lemma_dec_nat_len_ge, pow10,
};
use crate::evm_input::{is_initial_input, EvmInput};
use crate::global_info::{load_value, GlobalInfo};

verus! {

broadcast use {vstd::std_specs::hash::group_hash_axioms, vstd::std_specs::vecdeque::group_vec_dequeue_axioms};

/// Which mutator a mutation code selects, one field per decision of the mutator.
#[derive(Clone, Copy, Debug, PartialEq, Eq, Structural)]
pub struct MutatorSelection {
    /// Digit 0: the branch of the mutator (template, state, data, byte, borrow, all).
    pub mutate_mode: u8,
    /// Digit 1: the method within that branch.
    pub mutate_method: u8,
    /// Digit 2: mutate the environment or the ABI arguments.
    pub env_args: u8,
    /// Digit 3: which environment field, or which kind of argument.
    pub mutate_field: u8,
    /// Digit 4: how the argument is mutated.
    pub field_method: u8,
    /// Digit 5: plain byte mutator or the one with expansion.
    pub byte_expansion: u8,
    /// Digits 6 and 7, read as one number: which byte mutation.
    pub detail_mutation: u8,
}

/// The selection before any code was decoded: every decision 0.
pub open spec fn zero_selection() -> MutatorSelection {
    MutatorSelection {
        mutate_mode: 0,
        mutate_method: 0,
        env_args: 0,
        mutate_field: 0,
        field_method: 0,
        byte_expansion: 0,
        detail_mutation: 0,
    }
}

/// Digit `i` (from the left) of the decimal text of `m`.
pub open spec fn code_digit(m: int, i: int) -> u8 {
    (dec_int(m)[i] - 48) as u8
}

/// The selection that the mutation code `m` stands for: its first six digits, one per
/// decision, and its seventh and eighth digits as one two-digit number.
pub open spec fn selection_of(m: int) -> MutatorSelection {
    MutatorSelection {
        mutate_mode: code_digit(m, 0),
        mutate_method: code_digit(m, 1),
        env_args: code_digit(m, 2),
        mutate_field: code_digit(m, 3),
        field_method: code_digit(m, 4),
        byte_expansion: code_digit(m, 5),
        detail_mutation: (code_digit(m, 6) * 10 + code_digit(m, 7)) as u8,
    }
}

/// Each decision decoded from a code of at least eight digits is a digit, and the byte
/// mutation is a two-digit number.
pub proof fn lemma_selection_digits(m: int)
    requires
        m >= 10_000_000,
    ensures
        selection_of(m).mutate_mode <= 9,
        selection_of(m).mutate_method <= 9,
        selection_of(m).env_args <= 9,
        selection_of(m).mutate_field <= 9,
        selection_of(m).field_method <= 9,
        selection_of(m).byte_expansion <= 9,
        selection_of(m).detail_mutation <= 99,
        selection_of(m).detail_mutation == code_digit(m, 6) * 10 + code_digit(m, 7),
{
    lemma_dec_nat_digits(m as nat);
    reveal_with_fuel(pow10, 8);
    lemma_dec_nat_len_ge(m as nat, 7, 10_000_000);
    let d = dec_int(m);
    assert(is_digit(d[0]) && is_digit(d[1]) && is_digit(d[2]) && is_digit(d[3]));
    assert(is_digit(d[4]) && is_digit(d[5]) && is_digit(d[6]) && is_digit(d[7]));
}

/// The scheduler's shared state.
pub struct DqnGlobals {
    /// The input that the last mutation worked on.
    pub global_input: EvmInput,
    /// The full mutation code chosen for the next stage.
    pub global_mutation: i64,
    /// The decoding of that code.
    pub mutator_selection: MutatorSelection,
    /// The reward of each environment step.
    pub reward_values: Vec<i32>,
    /// How many times each action was chosen.
    pub action_counts: HashMap<i32, i64>,
}

impl DqnGlobals {
    /// The state before the first stage.
    pub fn new() -> (r: DqnGlobals)
        ensures
            is_initial_input(r.global_input),
            r.global_mutation == 0,
            r.mutator_selection == zero_selection(),
            r.reward_values@ == Seq::<i32>::empty(),
            r.action_counts@ == Map::<i32, i64>::empty(),
    {
        DqnGlobals {
            global_input: EvmInput::default(),
            global_mutation: 0,
            mutator_selection: MutatorSelection {
                mutate_mode: 0,
                mutate_method: 0,
                env_args: 0,
                mutate_field: 0,
                field_method: 0,
                byte_expansion: 0,
                detail_mutation: 0,
            },
            reward_values: Vec::new(),
            action_counts: HashMap::new(),
        }
    }
}

/// The shared input.
pub fn get_global_input(g: &DqnGlobals) -> (r: EvmInput)
    ensures
        r.same_as(g.global_input),
{
    g.global_input.duplicate()
}

/// Replaces the shared input.
pub fn set_global_input(g: &mut DqnGlobals, new_input: EvmInput)
    ensures
        final(g).global_input == new_input,
        final(g).global_mutation == old(g).global_mutation,
        final(g).mutator_selection == old(g).mutator_selection,
        final(g).reward_values@ == old(g).reward_values@,
        final(g).action_counts@ == old(g).action_counts@,
{
    g.global_input = new_input;
}

/// Picks, at random, one of the codes of `nums` (the numbers of the action file) that
/// extend the action `value`, as the next mutation code: the code at a drawn position
/// (see `code_at`).
pub fn set_global_mutation(g: &mut DqnGlobals, nums: &Vec<i64>, value: i32)
    requires
        codes_for_action(nums@, value as int).len() > 0,
    ensures
        codes_for_action(nums@, value as int).contains(final(g).global_mutation),
        final(g).global_input == old(g).global_input,
        final(g).mutator_selection == old(g).mutator_selection,
        final(g).reward_values@ == old(g).reward_values@,
        final(g).action_counts@ == old(g).action_counts@,
{
    let n = actions_with_prefix(nums, value).len();
    let idx = random_index(n);
    g.global_mutation = code_at(nums, value, idx);
}

/// Decodes the current mutation code into the mutator selection, stores it, and returns
/// it. The code has at least eight digits.
pub fn set_mutator_selection(g: &mut DqnGlobals) -> (r: MutatorSelection)
    requires
        old(g).global_mutation >= 10_000_000,
    ensures
        r == selection_of(old(g).global_mutation as int),
        final(g).mutator_selection == r,
        final(g).global_input == old(g).global_input,
        final(g).global_mutation == old(g).global_mutation,
        final(g).reward_values@ == old(g).reward_values@,
        final(g).action_counts@ == old(g).action_counts@,
{
    let m = g.global_mutation;
    let s = dec_i64(m);
    proof {
        lemma_dec_nat_digits(m as nat);
        reveal_with_fuel(pow10, 8);
        lemma_dec_nat_len_ge(m as nat, 7, 10_000_000);
        assert(s@ == dec_nat(m as nat));
    }
    let d0 = s[0] - 48;
    let d1 = s[1] - 48;
    let d2 = s[2] - 48;
    let d3 = s[3] - 48;
    let d4 = s[4] - 48;
    let d5 = s[5] - 48;
    let d6 = s[6] - 48;
    let d7 = s[7] - 48;
    let sel = MutatorSelection {
        mutate_mode: d0,
        mutate_method: d1,
        env_args: d2,
        mutate_field: d3,
        field_method: d4,
        byte_expansion: d5,
        detail_mutation: d6 * 10 + d7,
    };
    g.mutator_selection = sel;
    sel
}

/// The current mutator selection.
pub fn get_mutator_selection(g: &DqnGlobals) -> (r: MutatorSelection)
    ensures
        r == g.mutator_selection,
{
    g.mutator_selection
}

/// The action codes that the agent chooses from: the mode digit, the method digit, and a
/// third digit (the environment-or-arguments choice, or 0 where the mode has none).
pub open spec fn action_codes() -> Seq<i32> {
    seq![101, 102, 201, 202, 301, 302, 410, 421, 422, 510, 521, 522, 610, 620, 631, 632]
}

/// The action space.
pub fn encode_actions() -> (r: Vec<i32>)
    ensures
        r@ == action_codes(),
{
    let r: Vec<i32> = vec![101, 102, 201, 202, 301, 302, 410, 421, 422, 510, 521, 522, 610, 620, 631, 632];
    assert(r@ =~= action_codes());
    r
}

/// Every action is a three-digit code.
pub proof fn lemma_actions_three_digits(i: int)
    requires
        0 <= i < action_codes().len(),
    ensures
        100 <= action_codes()[i] <= 999,
{
}

/// The first three decisions of the selection that a code stands for are the digits of
/// any three-digit action that the code extends: the mode, the method, and the third digit.
pub proof fn lemma_selection_extends_action(action: int, code: i64)
    requires
        100 <= action <= 999,
        code >= 10_000_000,
        extends_action(action, code),
    ensures
        selection_of(code as int).mutate_mode == action / 100,
        selection_of(code as int).mutate_method == (action / 10) % 10,
        selection_of(code as int).env_args == action % 10,
{
    reveal_with_fuel(dec_nat, 3);
    let a = dec_int(action);
    let c = dec_int(code as int);
    assert(a.len() == 3);
    assert(c.subrange(0, 3) =~= a);
    assert(c[0] == a[0] && c[1] == a[1] && c[2] == a[2]);
}

/// After `FuzzEnv::step_1` carries out a three-digit action, the mutator selection begins
/// with the action's digits: its mode, its method, and its third digit.
pub proof fn lemma_step_1_decodes_action(nums: Seq<i64>, action: int, code: i64)
    requires
        100 <= action <= 999,
        code >= 10_000_000,
        codes_for_action(nums, action).contains(code),
    ensures
        selection_of(code as int).mutate_mode == action / 100,
        selection_of(code as int).mutate_method == (action / 10) % 10,
        selection_of(code as int).env_args == action % 10,
{
    let pred = |n: i64| extends_action(action, n);
    let k = choose|k: int| 0 <= k < nums.filter(pred).len() && nums.filter(pred)[k] == code;
    nums.lemma_filter_pred(pred, k);
    lemma_selection_extends_action(action, code);
}

/// The agent's view of the environment: the selector of the shared input's ABI call.
#[derive(Clone, Copy, Debug)]
pub struct State {
    function: [u8; 4],
}

impl View for State {
    type V = Seq<u8>;

    closed spec fn view(&self) -> Seq<u8> {
        self.function@
    }
}

/// The features of an input: its selector, or four zero bytes (the default ABI's) where it
/// carries no call.
pub open spec fn input_features(x: EvmInput) -> Seq<u8> {
    match x.function {
        Some(f) => f@,
        None => seq![0u8, 0u8, 0u8, 0u8],
    }
}

impl State {
    /// The state of an input without a call: four zero bytes.
    pub fn new() -> (r: State)
        ensures
            r@ == seq![0u8, 0u8, 0u8, 0u8],
    {
        let r = State { function: [0u8; 4] };
        assert(r@ =~= seq![0u8, 0u8, 0u8, 0u8]);
        r
    }

    /// The state of the input `x`.
    pub fn of_input(x: &EvmInput) -> (r: State)
        ensures
            r@ == input_features(*x),
    {
        match x.function {
            Some(f) => State { function: f },
            None => State::new(),
        }
    }

    /// The selector bytes, which the network reads as four features.
    pub fn function(&self) -> (r: [u8; 4])
        ensures
            r@ == self@,
    {
        self.function
    }
}

/// The environment: the input it last observed.
pub struct FuzzEnv {
    state: EvmInput,
}

impl FuzzEnv {
    /// The input that the environment last observed.
    pub closed spec fn observed(&self) -> EvmInput {
        self.state
    }

    /// An environment that observes the shared input.
    pub fn new(g: &DqnGlobals) -> (r: FuzzEnv)
        ensures
            r.observed().same_as(g.global_input),
    {
        FuzzEnv { state: get_global_input(g) }
    }

    /// Observes the shared input again and returns its state.
    pub fn reset(&mut self, g: &DqnGlobals) -> (r: State)
        ensures
            r@ == input_features(g.global_input),
            final(self).observed().same_as(g.global_input),
    {
        let global_input = get_global_input(g);
        let state = State::of_input(&global_input);
        self.state = global_input;
        state
    }

    /// Carries out the action `action`: picks a mutation code that extends it from `nums`
    /// (the numbers of the action file) and decodes it into the mutator selection. Every
    /// such code has at least eight digits.
    pub fn step_1(&mut self, g: &mut DqnGlobals, nums: &Vec<i64>, action: i32)
        requires
            codes_for_action(nums@, action as int).len() > 0,
            forall|k: int|
                0 <= k < codes_for_action(nums@, action as int).len() ==> #[trigger] codes_for_action(
                    nums@,
                    action as int,
                )[k] >= 10_000_000,
        ensures
            codes_for_action(nums@, action as int).contains(final(g).global_mutation),
            final(g).mutator_selection == selection_of(final(g).global_mutation as int),
            final(g).global_input == old(g).global_input,
            final(g).reward_values@ == old(g).reward_values@,
            final(g).action_counts@ == old(g).action_counts@,
            final(self).observed() == old(self).observed(),
    {
        set_global_mutation(g, nums, action);
        set_mutator_selection(g);
    }

    /// Reads the outcome of the stage: the reward is the stage's value, which is recorded;
    /// the next state is that of the shared input.
    pub fn step_2(&mut self, info: &GlobalInfo, g: &mut DqnGlobals) -> (r: (State, i64))
        ensures
            r.0@ == input_features(old(g).global_input),
            r.1 == info.value as i64,
            final(g).reward_values@ == old(g).reward_values@.push(info.value),
            final(g).global_input == old(g).global_input,
            final(g).global_mutation == old(g).global_mutation,
            final(g).mutator_selection == old(g).mutator_selection,
            final(g).action_counts@ == old(g).action_counts@,
            final(self).observed() == old(self).observed(),
    {
        let reward = load_value(info) as i64;
        g.reward_values.push(reward as i32);
        let global_input = get_global_input(g);
        (State::of_input(&global_input), reward)
    }
}

/// The action at `raw_index` (taken modulo the number of actions), its index, and the
/// action counts with that action counted once more.
pub fn select_action(actions: &Vec<i32>, raw_index: usize, counts: &mut HashMap<i32, i64>) -> (r: (
    i32,
    i64,
))
    requires
        0 < actions@.len() <= i64::MAX,
        old(counts)@.contains_key(actions@[(raw_index as int) % (actions@.len() as int)]) ==> old(
            counts,
        )@[actions@[(raw_index as int) % (actions@.len() as int)]] < i64::MAX,
    ensures
        r.1 == (raw_index as int) % (actions@.len() as int),
        r.0 == actions@[r.1 as int],
        final(counts)@ == old(counts)@.insert(
            r.0,
            if old(counts)@.contains_key(r.0) {
                (old(counts)@[r.0] + 1) as i64
            } else {
                1i64
            },
        ),
{
    let index = raw_index % actions.len();
    let action = actions[index];
    let count = match counts.get(&action) {
        Some(c) => *c,
        None => 0,
    };
    counts.insert(action, count + 1);
    (action, index as i64)
}

/// One experience: state, action index, reward, next state.
pub type Transition = (State, i64, i64, State);

/// The experiences in `buf` after `t` is added to a buffer of capacity `cap`: a full,
/// non-empty buffer drops its oldest experience first.
pub open spec fn after_push(buf: Seq<Transition>, cap: usize, t: Transition) -> Seq<Transition> {
    if buf.len() == cap && buf.len() > 0 {
        buf.drop_first().push(t)
    } else {
        buf.push(t)
    }
}

/// Whether `v` holds, in order, the experiences of `buf` at the distinct positions `idx`.
pub open spec fn drawn_from(v: Seq<Transition>, buf: Seq<Transition>, idx: Seq<usize>) -> bool {
    &&& idx.len() == v.len()
    &&& forall|i: int| 0 <= i < idx.len() ==> #[trigger] idx[i] < buf.len()
    &&& forall|i: int, j: int| 0 <= i < j < idx.len() ==> idx[i] != idx[j]
    &&& forall|i: int| 0 <= i < v.len() ==> #[trigger] v[i] == buf[idx[i] as int]
}

/// The agent's memory of experiences, oldest first.
pub struct ReplayBuffer {
    buffer: VecDeque<Transition>,
    capacity: usize,
}

impl View for ReplayBuffer {
    type V = Seq<Transition>;

    closed spec fn view(&self) -> Seq<Transition> {
        self.buffer@
    }
}

impl ReplayBuffer {
    /// The capacity the buffer was made with.
    pub closed spec fn spec_capacity(&self) -> usize {
        self.capacity
    }

    /// An empty buffer of capacity `capacity`.
    pub fn new(capacity: usize) -> (r: ReplayBuffer)
        ensures
            r@ == Seq::<Transition>::empty(),
            r.spec_capacity() == capacity,
    {
        ReplayBuffer { buffer: VecDeque::with_capacity(capacity), capacity }
    }

    /// Adds an experience, dropping the oldest where the buffer is full.
    pub fn push(&mut self, state: State, action: i64, reward: i64, next_state: State)
        ensures
            final(self)@ == after_push(old(self)@, old(self).spec_capacity(), (state, action, reward, next_state)),
            final(self).spec_capacity() == old(self).spec_capacity(),
    {
        if self.buffer.len() == self.capacity {
            self.buffer.pop_front();
        }
        self.buffer.push_back((state, action, reward, next_state));
    }

    /// The experiences at `indices`, in that order.
    pub fn sample_at(&self, indices: &Vec<usize>) -> (r: Vec<Transition>)
        requires
            forall|i: int| 0 <= i < indices@.len() ==> #[trigger] indices@[i] < self@.len(),
        ensures
            r@.len() == indices@.len(),
            forall|i: int| 0 <= i < indices@.len() ==> #[trigger] r@[i] == self@[indices@[i] as int],
    {
        let mut v: Vec<Transition> = Vec::new();
        let mut i: usize = 0;
        while i < indices.len()
            invariant
                i <= indices@.len(),
                forall|k: int| 0 <= k < indices@.len() ==> #[trigger] indices@[k] < self@.len(),
                v@.len() == i,
                forall|k: int| 0 <= k < i ==> #[trigger] v@[k] == self@[indices@[k] as int],
            decreases indices@.len() - i,
        {
            let j = indices[i];
            assert(j < self@.len());
            v.push(self.buffer[j]);
            i += 1;
        }
        v
    }

    /// A batch of `batch_size` distinct experiences drawn at random, where the buffer holds
    /// that many.
    pub fn sample(&self, batch_size: usize) -> (r: Option<Vec<Transition>>)
        ensures
            r is Some <==> self@.len() >= batch_size,
            r matches Some(v) ==> v@.len() == batch_size && exists|idx: Seq<usize>|
                drawn_from(v@, self@, idx),
    {
        if self.buffer.len() < batch_size {
            None
        } else {
            let indices = random_distinct_indices(self.buffer.len(), batch_size);
            let v = self.sample_at(&indices);
            assert(drawn_from(v@, self@, indices@));
            Some(v)
        }
    }

    /// The number of experiences held.
    pub fn len(&self) -> (r: usize)
        ensures
            r == self@.len(),
    {
        self.buffer.len()
    }
}

/// A buffer of positive capacity never holds more experiences than its capacity.
pub proof fn lemma_push_within_capacity(buf: Seq<Transition>, cap: usize, t: Transition)
    requires
        cap > 0,
        buf.len() <= cap,
    ensures
        after_push(buf, cap, t).len() <= cap,
{
}

/// A push keeps every experience but, in a full buffer, the oldest, in order, and puts
/// the new one last.
pub proof fn lemma_push_fifo(buf: Seq<Transition>, cap: usize, t: Transition)
    ensures
        after_push(buf, cap, t).last() == t,
        (buf.len() == cap && cap > 0) ==> after_push(buf, cap, t).drop_last() == buf.drop_first(),
        !(buf.len() == cap && cap > 0) ==> after_push(buf, cap, t).drop_last() == buf,
{
    assert(after_push(buf, cap, t).drop_last() =~= (if buf.len() == cap && cap > 0 {
        buf.drop_first()
    } else {
        buf
    }));
}

} // verus!
