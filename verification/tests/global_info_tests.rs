use fuzz_dqn::global_info::{
    adjust_p_table, calculate_value, get_feedback_info, increment_mutation_op, load_value, GlobalInfo,
};

fn keys() -> Vec<(&'static str, &'static str)> {
    vec![
        ("MUTATE_BYTE", "MUTATE_LIQUIDATE"),
        ("MUTATE_BYTE", "MUTATE_NORMAL"),
        ("MUTATE_ALL", "MUTATE_NORMAL"),
    ]
}

#[test]
fn new_info_is_quiet() {
    let info = GlobalInfo::new(&keys());
    assert_eq!(load_value(&info), 0);
    assert_eq!(get_feedback_info(&info), [false, false, false, false]);
    assert!(info.mutation_op.entries().iter().all(|e| e.count == 0));
    assert_eq!(info.mutation_op.entries().len(), 3);
}

#[test]
fn increment_counts_only_the_named_pair() {
    let mut info = GlobalInfo::new(&keys());
    increment_mutation_op(&mut info.mutation_op, "MUTATE_BYTE", "MUTATE_NORMAL");
    increment_mutation_op(&mut info.mutation_op, "MUTATE_BYTE", "MUTATE_NORMAL");
    increment_mutation_op(&mut info.mutation_op, "MUTATE_ALL", "MUTATE_NORMAL");
    increment_mutation_op(&mut info.mutation_op, "MUTATE_ALL", "NO_SUCH_OP");
    let counts: Vec<i32> = info.mutation_op.entries().iter().map(|e| e.count).collect();
    assert_eq!(counts, vec![0, 2, 1]);
}

#[test]
fn feedback_info_reports_instruction_as_nonzero() {
    let mut info = GlobalInfo::new(&keys());
    info.feedback.is_comparison_interesting = true;
    info.feedback.is_instruction_interesting = 3;
    assert_eq!(get_feedback_info(&info), [false, true, false, true]);
}

#[test]
fn first_stage_raises_both_coverage_flags() {
    let mut info = GlobalInfo::new(&keys());
    info.mutate_success_count = 1;
    info.feedback.is_objective = true;
    calculate_value(&mut info);
    assert!(info.feedback.is_branch_coverage_interesting);
    assert!(info.feedback.is_instruction_coverage_interesting);
    assert_eq!(load_value(&info), 3 + 3 + 3);
}

#[test]
fn later_stage_compares_coverage() {
    let mut info = GlobalInfo::new(&keys());
    info.mutate_success_count = 3;
    info.branch_coverage_list = vec![10, 12, 15];
    info.instruction_coverage_list = vec![100, 120, 120];
    info.feedback.is_dataflow_interesting = true;
    info.feedback.is_instruction_interesting = 1;
    calculate_value(&mut info);
    assert!(info.feedback.is_branch_coverage_interesting);
    assert!(!info.feedback.is_instruction_coverage_interesting);
    assert_eq!(load_value(&info), 2 + 1 + 3);
    assert_eq!(info.branch_coverage_list.len(), 3);
}

#[test]
fn lagging_coverage_is_carried_over() {
    let mut info = GlobalInfo::new(&keys());
    info.mutate_success_count = 4;
    info.branch_coverage_list = vec![10, 12, 15];
    info.instruction_coverage_list = vec![100, 120, 130];
    calculate_value(&mut info);
    assert_eq!(info.branch_coverage_list, vec![10, 12, 15, 15]);
    assert_eq!(info.instruction_coverage_list, vec![100, 120, 130, 130]);
    assert!(!info.feedback.is_branch_coverage_interesting);
    assert!(!info.feedback.is_instruction_coverage_interesting);
    assert_eq!(load_value(&info), 0);
}

#[test]
fn adjust_returns_used_ops_when_valuable_and_resets() {
    let mut info = GlobalInfo::new(&keys());
    increment_mutation_op(&mut info.mutation_op, "MUTATE_BYTE", "MUTATE_NORMAL");
    increment_mutation_op(&mut info.mutation_op, "MUTATE_BYTE", "MUTATE_NORMAL");
    info.value = 5;
    let used = adjust_p_table(&mut info).unwrap();
    assert_eq!(used.len(), 1);
    assert_eq!((used[0].group, used[0].op, used[0].count), ("MUTATE_BYTE", "MUTATE_NORMAL", 2));
    assert_eq!(load_value(&info), 0);
    assert!(info.mutation_op.entries().iter().all(|e| e.count == 0));
}

#[test]
fn adjust_without_value_only_resets() {
    let mut info = GlobalInfo::new(&keys());
    increment_mutation_op(&mut info.mutation_op, "MUTATE_ALL", "MUTATE_NORMAL");
    info.value = 0;
    assert!(adjust_p_table(&mut info).is_none());
    assert!(info.mutation_op.entries().iter().all(|e| e.count == 0));
    info.value = -2;
    assert!(adjust_p_table(&mut info).is_none());
    assert_eq!(load_value(&info), 0);
}

#[test]
fn can_calculate_value_matches_the_panics() {
    let mut info = GlobalInfo::new(&keys());
    assert!(!fuzz_dqn::global_info::can_calculate_value(&info));
    info.mutate_success_count = 1;
    assert!(fuzz_dqn::global_info::can_calculate_value(&info));
    info.mutate_success_count = 2;
    info.branch_coverage_list = vec![5];
    info.instruction_coverage_list = vec![6];
    assert!(fuzz_dqn::global_info::can_calculate_value(&info));
    calculate_value(&mut info);
    assert_eq!(info.branch_coverage_list, vec![5, 5]);
    info.mutate_success_count = 2;
    info.feedback.is_instruction_interesting = i32::MAX;
    assert!(fuzz_dqn::global_info::can_calculate_value(&info));
    info.feedback.is_objective = true;
    assert!(!fuzz_dqn::global_info::can_calculate_value(&info));
}
