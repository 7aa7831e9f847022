use std::collections::HashMap;

use fuzz_dqn::dqn::{
    encode_actions, get_global_input, get_mutator_selection, select_action, set_global_input,
    set_global_mutation, set_mutator_selection, DqnGlobals, FuzzEnv, MutatorSelection, ReplayBuffer,
    State,
};
use fuzz_dqn::evm_input::{EvmInput, EvmInputTy};
use fuzz_dqn::global_info::GlobalInfo;

fn call_input(selector: [u8; 4]) -> EvmInput {
    EvmInput { function: Some(selector), step: true, liquidation_percent: 10, ..EvmInput::default() }
}

#[test]
fn encode_actions_lists_sixteen_codes() {
    assert_eq!(
        encode_actions(),
        vec![101, 102, 201, 202, 301, 302, 410, 421, 422, 510, 521, 522, 610, 620, 631, 632]
    );
}

#[test]
fn globals_start_from_default_input() {
    let g = DqnGlobals::new();
    let x = get_global_input(&g);
    assert_eq!(x.input_type, EvmInputTy::Abi);
    assert_eq!(x.function, None);
    assert_eq!(g.global_mutation, 0);
    assert_eq!(get_mutator_selection(&g).mutate_mode, 0);
}

#[test]
fn set_then_get_global_input() {
    let mut g = DqnGlobals::new();
    set_global_input(&mut g, call_input([1, 2, 3, 4]));
    let x = get_global_input(&g);
    assert_eq!(x.function, Some([1, 2, 3, 4]));
    assert!(x.step);
    assert_eq!(x.liquidation_percent, 10);
}

#[test]
fn set_global_mutation_picks_a_code_of_the_action() {
    let mut g = DqnGlobals::new();
    let nums = vec![10101011, 42101011, 42201017, 10200111];
    for _ in 0..20 {
        set_global_mutation(&mut g, &nums, 42);
        assert!(g.global_mutation == 42101011 || g.global_mutation == 42201017);
    }
    set_global_mutation(&mut g, &nums, 102);
    assert_eq!(g.global_mutation, 10200111);
}

#[test]
fn set_mutator_selection_decodes_digits() {
    let mut g = DqnGlobals::new();
    g.global_mutation = 12345678;
    let sel = set_mutator_selection(&mut g);
    let expected = MutatorSelection {
        mutate_mode: 1,
        mutate_method: 2,
        env_args: 3,
        mutate_field: 4,
        field_method: 5,
        byte_expansion: 6,
        detail_mutation: 78,
    };
    assert_eq!(sel, expected);
    assert_eq!(get_mutator_selection(&g), expected);
}

#[test]
fn set_mutator_selection_ignores_digits_after_the_eighth() {
    let mut g = DqnGlobals::new();
    g.global_mutation = 1010101709;
    let sel = set_mutator_selection(&mut g);
    assert_eq!(sel.mutate_mode, 1);
    assert_eq!(sel.byte_expansion, 0);
    assert_eq!(sel.detail_mutation, 17);
}

#[test]
fn step_1_selection_starts_with_the_action() {
    let mut g = DqnGlobals::new();
    let mut env = FuzzEnv::new(&g);
    let nums = vec![42101011, 42202001, 52101011];
    env.step_1(&mut g, &nums, 421);
    assert_eq!(g.global_mutation, 42101011);
    let sel = get_mutator_selection(&g);
    assert_eq!((sel.mutate_mode, sel.mutate_method, sel.env_args), (4, 2, 1));
    assert_eq!(sel.detail_mutation, 11);
}

#[test]
fn reset_and_step_2_read_the_shared_input() {
    let mut g = DqnGlobals::new();
    let mut env = FuzzEnv::new(&g);
    assert_eq!(env.reset(&g).function(), [0, 0, 0, 0]);
    set_global_input(&mut g, call_input([0xa9, 0x05, 0x9c, 0xbb]));
    let s = env.reset(&g);
    assert_eq!(s.function(), [0xa9, 0x05, 0x9c, 0xbb]);
    let mut info = GlobalInfo::new(&Vec::new());
    info.value = 7;
    let (next, reward) = env.step_2(&info, &mut g);
    assert_eq!(reward, 7);
    assert_eq!(next.function(), [0xa9, 0x05, 0x9c, 0xbb]);
    assert_eq!(g.reward_values, vec![7]);
}

#[test]
fn state_new_is_zero() {
    assert_eq!(State::new().function(), [0, 0, 0, 0]);
    assert_eq!(State::of_input(&call_input([9, 8, 7, 6])).function(), [9, 8, 7, 6]);
}

#[test]
fn select_action_wraps_index_and_counts() {
    let actions = encode_actions();
    let mut counts: HashMap<i32, i64> = HashMap::new();
    assert_eq!(select_action(&actions, 3, &mut counts), (202, 3));
    assert_eq!(select_action(&actions, 19, &mut counts), (202, 3));
    assert_eq!(select_action(&actions, 0, &mut counts), (101, 0));
    assert_eq!(counts.get(&202), Some(&2));
    assert_eq!(counts.get(&101), Some(&1));
    assert_eq!(counts.len(), 2);
}

fn st(b: u8) -> State {
    State::of_input(&call_input([b, 0, 0, 0]))
}

#[test]
fn replay_buffer_evicts_oldest_when_full() {
    let mut rb = ReplayBuffer::new(2);
    assert_eq!(rb.len(), 0);
    assert!(rb.sample(1).is_none());
    rb.push(st(1), 0, 10, st(2));
    rb.push(st(2), 1, 20, st(3));
    assert_eq!(rb.len(), 2);
    rb.push(st(3), 2, 30, st(4));
    assert_eq!(rb.len(), 2);
    let sample = rb.sample(2).unwrap();
    let mut actions: Vec<i64> = sample.iter().map(|t| t.1).collect();
    actions.sort();
    assert_eq!(actions, vec![1, 2]);
    let at = rb.sample_at(&vec![1, 0]);
    assert_eq!((at[0].1, at[0].2, at[0].3.function()[0]), (2, 30, 4));
    assert_eq!((at[1].1, at[1].2, at[1].0.function()[0]), (1, 20, 2));
    assert!(rb.sample(3).is_none());
    assert_eq!(rb.sample(1).unwrap().len(), 1);
}

#[test]
fn replay_buffer_sample_draws_distinct_experiences() {
    let mut rb = ReplayBuffer::new(10);
    for k in 0..10u8 {
        rb.push(st(k), k as i64, 0, st(k));
    }
    for _ in 0..20 {
        let mut drawn: Vec<i64> = rb.sample(4).unwrap().iter().map(|t| t.1).collect();
        drawn.sort();
        drawn.dedup();
        assert_eq!(drawn.len(), 4);
        assert!(drawn.iter().all(|a| (0..10).contains(a)));
    }
}

#[test]
fn replay_buffer_of_capacity_zero_keeps_growing() {
    let mut rb = ReplayBuffer::new(0);
    rb.push(st(1), 0, 1, st(2));
    rb.push(st(2), 0, 1, st(3));
    assert_eq!(rb.len(), 2);
}
