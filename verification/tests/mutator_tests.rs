use fuzz_dqn::dqn::MutatorSelection;
use fuzz_dqn::evm_input::EvmInput;
use fuzz_dqn::mutator_dqn::{
    apply_constraint, apply_plan, attempt_mutated, can_count, choose_abi, constraints_admissible,
    finish_attempt, fuzzer_work, havoc_times, liquidation_percent, plan_is_defined, plan_mutation,
    AccessPattern, Constraint, FuzzerWork, HavocLoop, MutationAction, MutationCall, MutationContext,
};
use fuzz_dqn::global_info::MutationOpTable;

#[test]
fn new_access_pattern_word() {
    assert_eq!(AccessPattern::new().to_u32(), 0);
    let mut all = AccessPattern::new();
    all.caller = true;
    all.call_value = true;
    all.gas_price = true;
    all.number = true;
    all.coinbase = true;
    all.timestamp = true;
    all.prevrandao = true;
    all.gas_limit = true;
    all.basefee = true;
    all.difficulty = true;
    assert_eq!(all.to_u32(), 1791);
    assert_eq!(AccessPattern::default().to_u32(), 0);
}

#[test]
fn balance_count_goes_above_the_flags() {
    let mut ap = AccessPattern::default();
    let mut top = [0u8; 32];
    for i in 0..32 {
        top[i] = i as u8;
    }
    ap.decode_instruction(0x31, Some(top));
    ap.decode_instruction(0x31, Some([0xff; 32]));
    ap.decode_instruction(0x46, None);
    assert_eq!(ap.balance.len(), 2);
    assert_eq!(ap.balance[0][0], 12);
    assert_eq!(ap.balance[0][19], 31);
    assert!(ap.chain_id);
    assert_eq!(ap.to_u32(), 256 + (2 << 11));
}

#[test]
fn decode_sets_flags_and_ignores_others() {
    let mut ap = AccessPattern::default();
    for op in [0x33u8, 0x3a, 0x43, 0x41, 0x42, 0x44, 0x45, 0x48, 0x34, 0x50, 0x00] {
        ap.decode_instruction(op, None);
    }
    assert!(ap.caller && ap.gas_price && ap.number && ap.coinbase && ap.timestamp);
    assert!(ap.prevrandao && ap.gas_limit && ap.basefee);
    assert!(!ap.call_value && !ap.difficulty && !ap.chain_id);
    assert_eq!(ap.to_u32(), 1 + 4 + 8 + 16 + 32 + 64 + 128 + 512);
}

fn sel(mode: u8, method: u8) -> MutatorSelection {
    MutatorSelection {
        mutate_mode: mode,
        mutate_method: method,
        env_args: 0,
        mutate_field: 0,
        field_method: 0,
        byte_expansion: 0,
        detail_mutation: 0,
    }
}

fn ctx(has_preset: bool, is_borrow: bool, is_step: bool, post: bool, liq: bool) -> MutationContext {
    MutationContext {
        has_preset,
        is_borrow,
        is_step,
        has_post_execution: post,
        can_liquidate: liq,
    }
}

#[test]
fn plan_follows_the_selection() {
    let c = ctx(true, false, false, true, false);
    assert_eq!(plan_mutation(&sel(0, 0), &c).action, MutationAction::PresetCall);
    assert_eq!(plan_mutation(&sel(0, 1), &c).action, MutationAction::Skip);
    assert_eq!(plan_mutation(&sel(1, 0), &c).action, MutationAction::InfantState);
    assert_eq!(plan_mutation(&sel(2, 0), &c).action, MutationAction::TurnToStep);
    assert_eq!(plan_mutation(&sel(3, 3), &c).action, MutationAction::Skip);
    let p = plan_mutation(&sel(5, 1), &c);
    assert_eq!(p.action, MutationAction::Randomness);
    assert_eq!(p.counter, Some(("MUTATE_ALL", "MUTATE_RANDOMNESSL")));
}

#[test]
fn plan_in_a_step_zeroes_the_value() {
    let c = ctx(false, false, true, false, false);
    let p = plan_mutation(&sel(3, 0), &c);
    assert_eq!(p.action, MutationAction::Skip);
    assert!(p.zero_txn_value);
    let p = plan_mutation(&sel(3, 1), &c);
    assert_eq!(p.action, MutationAction::InputMutate);
    assert_eq!(p.counter, Some(("MUTATE_BYTE", "MUTATE_NORMAL")));
    assert!(p.zero_txn_value);
    let c = ctx(false, false, true, false, true);
    assert_eq!(plan_mutation(&sel(3, 0), &c).action, MutationAction::Liquidation);
    assert_eq!(plan_mutation(&sel(1, 0), &c).action, MutationAction::Skip);
}

#[test]
fn plan_for_a_borrow() {
    let c = ctx(true, true, false, true, true);
    let p = plan_mutation(&sel(4, 0), &c);
    assert_eq!(p.action, MutationAction::Randomness);
    assert!(p.draw_randomness_first);
    assert_eq!(p.counter, Some(("MUTATE_BORROW", "MUTATE_RANDOMNESS")));
    assert_eq!(plan_mutation(&sel(0, 0), &c).action, MutationAction::Skip);
    assert_eq!(plan_mutation(&sel(2, 0), &c).action, MutationAction::Skip);
    let p = plan_mutation(&sel(4, 0), &ctx(true, false, false, true, true));
    assert_eq!(p.action, MutationAction::Skip);
    assert_eq!(p.counter, None);
}

#[test]
fn liquidation_and_havoc_draws() {
    assert_eq!(liquidation_percent(0), 10);
    assert_eq!(liquidation_percent(79), 10);
    assert_eq!(liquidation_percent(80), 0);
    assert_eq!(havoc_times(59, 9), 10);
    assert_eq!(havoc_times(60, 9), 1);
}

#[test]
fn havoc_loop_stops_after_a_mutating_round() {
    let mut l = HavocLoop::new(3);
    let outcomes = [false, false, false, false, true, false];
    let mut calls = 0;
    while l.wants_attempt() {
        l.record(outcomes[calls]);
        calls += 1;
    }
    assert_eq!(calls, 6);
    assert!(l.result());
}

#[test]
fn havoc_loop_gives_up_after_twenty_rounds() {
    let mut l = HavocLoop::new(2);
    let mut calls = 0;
    while l.wants_attempt() {
        l.record(false);
        calls += 1;
    }
    assert_eq!(calls, 40);
    assert!(!l.result());
}

#[test]
fn constraints_for_borrows() {
    let cs = vec![Constraint::Caller([1; 20]), Constraint::Contract([2; 20])];
    assert!(!constraints_admissible(&cs, true));
    assert!(constraints_admissible(&cs, false));
    assert!(constraints_admissible(&vec![Constraint::Value([0; 32]), Constraint::NoLiquidation], true));
    assert!(!constraints_admissible(&vec![Constraint::MustStepNow], true));
}

#[test]
fn constraints_applied_to_an_input() {
    let mut x = fuzz_dqn::evm_input::EvmInput::default();
    x.liquidation_percent = 10;
    apply_constraint(&mut x, Constraint::Caller([7; 20]), None);
    apply_constraint(&mut x, Constraint::Value([9; 32]), None);
    apply_constraint(&mut x, Constraint::Contract([3; 20]), Some([1, 2, 3, 4]));
    assert_eq!(apply_constraint(&mut x, Constraint::NoLiquidation, None), FuzzerWork::Nothing);
    assert!(!x.step);
    assert_eq!(
        apply_constraint(&mut x, Constraint::MustStepNow, None),
        FuzzerWork::PostExecution { mutations: 1 }
    );
    assert_eq!(x.caller, [7; 20]);
    assert_eq!(x.txn_value, Some([9; 32]));
    assert_eq!(x.contract, [3; 20]);
    assert_eq!(x.function, Some([1, 2, 3, 4]));
    assert_eq!(x.liquidation_percent, 0);
    assert!(x.step);
}

#[test]
fn abi_choice() {
    assert_eq!(choose_abi(7, 1, 3), Some(1));
    assert_eq!(choose_abi(7, 30, 3), None);
    assert_eq!(choose_abi(7, 1, 0), None);
}

#[test]
fn plan_definedness() {
    assert!(plan_is_defined(&sel(6, 0)));
    assert!(plan_is_defined(&sel(0, 3)));
    assert!(!plan_is_defined(&sel(7, 0)));
    assert!(!plan_is_defined(&sel(5, 4)));
}

#[test]
fn design_actions_outside_the_branches_are_skipped() {
    let borrow = ctx(true, true, true, true, true);
    for m in 0..4 {
        let p = plan_mutation(&sel(6, m), &borrow);
        assert_eq!(p.action, MutationAction::Skip);
        assert_eq!(p.counter, None);
    }
    let p = plan_mutation(&sel(4, 2), &borrow);
    assert_eq!(p.action, MutationAction::Skip);
    assert_eq!(p.counter, None);
    assert!(p.draw_randomness_first);
    assert_eq!(plan_mutation(&sel(5, 3), &borrow).action, MutationAction::Skip);
    assert_eq!(plan_mutation(&sel(0, 2), &ctx(true, false, false, true, false)).action, MutationAction::Skip);
}

#[test]
fn certain_mutations() {
    let borrow = ctx(false, true, false, false, false);
    let p = plan_mutation(&sel(4, 0), &borrow);
    assert!(p.certain_mutation);
    assert!(attempt_mutated(&p, false));
    let p = plan_mutation(&sel(4, 1), &borrow);
    assert!(!p.certain_mutation);
    assert!(!attempt_mutated(&p, false));
    assert!(attempt_mutated(&p, true));
    let p = plan_mutation(&sel(6, 1), &borrow);
    assert!(!attempt_mutated(&p, true));
    assert!(plan_mutation(&sel(2, 0), &ctx(false, false, false, true, false)).certain_mutation);
}

#[test]
fn randomness_round_stops_after_one_round() {
    let borrow = ctx(false, true, false, false, false);
    let mut l = HavocLoop::new(havoc_times(10, 4));
    let mut calls = 0;
    while l.wants_attempt() {
        let p = plan_mutation(&sel(4, 0), &borrow);
        l.record(attempt_mutated(&p, false));
        calls += 1;
    }
    assert_eq!(calls, 5);
    assert!(l.result());
}

#[test]
fn fuzzer_work_of_each_action() {
    assert_eq!(fuzzer_work(MutationAction::PresetCall, 3), FuzzerWork::NextPresetCall);
    assert_eq!(fuzzer_work(MutationAction::InfantState, 3), FuzzerWork::NewInfantState);
    assert_eq!(fuzzer_work(MutationAction::TurnToStep, 3), FuzzerWork::PostExecution { mutations: 2 });
    assert_eq!(fuzzer_work(MutationAction::TurnToStep, 1), FuzzerWork::PostExecution { mutations: 0 });
    assert_eq!(fuzzer_work(MutationAction::InputMutate, 3), FuzzerWork::MutateData);
    assert_eq!(fuzzer_work(MutationAction::Randomness, 3), FuzzerWork::Nothing);
    assert_eq!(fuzzer_work(MutationAction::Liquidation, 3), FuzzerWork::Nothing);
    assert_eq!(fuzzer_work(MutationAction::Skip, 3), FuzzerWork::Nothing);
}

#[test]
fn borrow_randomness_attempt_sets_one_byte() {
    let mut x = EvmInput { randomness: vec![1, 2, 3], ..EvmInput::default() };
    let p = plan_mutation(&sel(4, 0), &ctx(false, true, false, false, false));
    let applied = apply_plan(&mut x, &p, 200, 0);
    assert!(applied);
    assert_eq!(x.randomness, vec![200]);
    assert!(finish_attempt(&mut x, &p, applied, false));
    assert_eq!(x.txn_value, None);
    assert_eq!(x.liquidation_percent, 0);
}

#[test]
fn liquidation_attempt_mutates_when_the_percentage_changes() {
    let step = ctx(false, false, true, false, true);
    let p = plan_mutation(&sel(3, 0), &step);
    let mut x = EvmInput { step: true, txn_value: Some([5; 32]), ..EvmInput::default() };
    let applied = apply_plan(&mut x, &p, 0, 10);
    assert!(applied);
    assert_eq!(x.liquidation_percent, 10);
    assert!(finish_attempt(&mut x, &p, applied, false));
    assert_eq!(x.txn_value, Some([0; 32]));
    let applied = apply_plan(&mut x, &p, 0, 50);
    assert!(!applied);
    assert!(!finish_attempt(&mut x, &p, applied, true));
    let applied = apply_plan(&mut x, &p, 0, 90);
    assert!(applied);
    assert_eq!(x.liquidation_percent, 0);
}

#[test]
fn turn_to_step_and_data_mutation_attempts() {
    let p = plan_mutation(&sel(2, 0), &ctx(false, false, false, true, false));
    let mut x = EvmInput::default();
    let applied = apply_plan(&mut x, &p, 0, 0);
    assert!(applied && x.step);
    assert!(finish_attempt(&mut x, &p, applied, false));
    let p = plan_mutation(&sel(5, 2), &ctx(false, false, false, false, false));
    let mut y = EvmInput::default();
    let applied = apply_plan(&mut y, &p, 9, 0);
    assert!(!applied);
    assert_eq!(y.randomness, Vec::<u8>::new());
    assert!(!finish_attempt(&mut y, &p, applied, false));
    assert!(finish_attempt(&mut y, &p, applied, true));
    let skip = plan_mutation(&sel(6, 0), &ctx(false, false, false, false, false));
    assert!(!finish_attempt(&mut y, &skip, false, true));
}

#[test]
fn mutating_attempts_make_one_round() {
    for h in 1..=10u64 {
        let mut l = HavocLoop::new(h);
        let mut calls = 0;
        while l.wants_attempt() {
            l.record(true);
            calls += 1;
        }
        assert_eq!(calls, h);
    }
}

#[test]
fn duplicate_keeps_every_field() {
    let x = EvmInput { randomness: vec![4, 5], step: true, repeat: 3, ..EvmInput::default() };
    let y = x.duplicate();
    assert_eq!(y.randomness, vec![4, 5]);
    assert!(y.step);
    assert_eq!(y.repeat, 3);
}

#[test]
fn randomness_call_counts_its_operator_havoc_times() {
    let keys = vec![("MUTATE_BORROW", "MUTATE_RANDOMNESS"), ("MUTATE_ALL", "MUTATE_NORMAL")];
    let mut table = MutationOpTable::from_keys(&keys);
    let borrow = ctx(false, true, false, false, false);
    let h = havoc_times(10, 3);
    let mut call = MutationCall::new(h, &table);
    let mut input = EvmInput::default();
    let mut attempts = 0;
    while call.wants_attempt() {
        let plan = plan_mutation(&sel(4, 0), &borrow);
        let applied = apply_plan(&mut input, &plan, 17, 0);
        let mutated = finish_attempt(&mut input, &plan, applied, false);
        assert!(can_count(&table, &plan));
        call.record(&mut table, &plan, mutated);
        attempts += 1;
    }
    assert!(call.result());
    assert_eq!(attempts, 4);
    assert_eq!(table.entries()[0].count, 4);
    assert_eq!(table.entries()[1].count, 0);
    assert_eq!(input.randomness, vec![17]);
}

#[test]
fn call_without_mutation_gives_up_after_twenty_rounds() {
    let keys = vec![("MUTATE_ALL", "MUTATE_NORMAL")];
    let mut table = MutationOpTable::from_keys(&keys);
    let plan = plan_mutation(&sel(5, 2), &ctx(false, false, false, false, false));
    let mut call = MutationCall::new(2, &table);
    let mut attempts = 0;
    while call.wants_attempt() {
        call.record(&mut table, &plan, false);
        attempts += 1;
    }
    assert!(!call.result());
    assert_eq!(attempts, 40);
    assert_eq!(table.entries()[0].count, 40);
    let skip = plan_mutation(&sel(6, 0), &ctx(false, false, false, false, false));
    assert!(can_count(&table, &skip));
}
