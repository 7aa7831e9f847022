//! Feedback of one mutation stage, the value computed from it, and the counts of the
//! mutation operators used, from which the probability table is adjusted.
use vstd::prelude::*;

verus! {

/// How many times one mutation operator (`op`, in the operator group `group`) was used.
#[derive(Clone, Copy, Debug)]
pub struct OpCount {
    pub group: &'static str,
    pub op: &'static str,
    pub count: i32,
}

/// Whether `e` is the counter of operator `sub_key` of group `key`.
pub open spec fn names_match(e: OpCount, key: Seq<char>, sub_key: Seq<char>) -> bool {
    e.group@ == key && e.op@ == sub_key
}

/// Whether no two counters of `es` belong to the same (group, operator) pair.
pub open spec fn distinct_pairs(es: Seq<OpCount>) -> bool {
    forall|i: int, j: int|
        0 <= i < j < es.len() ==> !(es[i].group@ == es[j].group@ && es[i].op@ == es[j].op@)
}

/// Whether no (group, operator) pair occurs twice among `keys`.
pub open spec fn distinct_keys(keys: Seq<(&'static str, &'static str)>) -> bool {
    forall|i: int, j: int|
        0 <= i < j < keys.len() ==> !(keys[i].0@ == keys[j].0@ && keys[i].1@ == keys[j].1@)
}

/// The use counts of all mutation operators, one counter per (group, operator) pair.
pub struct MutationOpTable {
    entries: Vec<OpCount>,
}

impl View for MutationOpTable {
    type V = Seq<OpCount>;

    closed spec fn view(&self) -> Seq<OpCount> {
        self.entries@
    }
}

impl MutationOpTable {
    /// Each (group, operator) pair has one counter.
    #[verifier::type_invariant]
    closed spec fn one_counter_per_pair(self) -> bool {
        distinct_pairs(self.entries@)
    }

    /// A table with one counter, at 0, for each (group, operator) pair of `keys`, whose
    /// pairs are distinct.
    pub fn from_keys(keys: &Vec<(&'static str, &'static str)>) -> (r: MutationOpTable)
        requires
            distinct_keys(keys@),
        ensures
            distinct_pairs(r@),
            r@.len() == keys@.len(),
            forall|i: int|
                0 <= i < keys@.len() ==> {
                    &&& (#[trigger] r@[i]).group == keys@[i].0
                    &&& r@[i].op == keys@[i].1
                    &&& r@[i].count == 0
                },
    {
        let mut entries: Vec<OpCount> = Vec::new();
        let mut i: usize = 0;
        while i < keys.len()
            invariant
                i <= keys@.len(),
                entries@.len() == i,
                forall|j: int|
                    0 <= j < i ==> {
                        &&& (#[trigger] entries@[j]).group == keys@[j].0
                        &&& entries@[j].op == keys@[j].1
                        &&& entries@[j].count == 0
                    },
            decreases keys@.len() - i,
        {
            let (group, op) = keys[i];
            entries.push(OpCount { group, op, count: 0 });
            i += 1;
        }
        MutationOpTable { entries }
    }

    /// The counters, in the order of the keys the table was made from.
    pub fn entries(&self) -> (r: &Vec<OpCount>)
        ensures
            r@ == self@,
            distinct_pairs(r@),
    {
        proof {
            use_type_invariant(self);
        }
        &self.entries
    }
}

/// Whether two strings hold the same characters.
#[verifier::loop_isolation(false)]
pub(crate) fn str_eq(a: &str, b: &str) -> (r: bool)
    ensures
        r == (a@ == b@),
{
    let ab = a.as_bytes();
    let bb = b.as_bytes();
    proof {
        vstd::utf8::encode_utf8_decode_utf8(a@);
        vstd::utf8::encode_utf8_decode_utf8(b@);
    }
    if ab.len() != bb.len() {
        return false;
    }
    let mut i: usize = 0;
    while i < ab.len()
        invariant
            ab@.len() == bb@.len(),
            i <= ab@.len(),
            forall|j: int| 0 <= j < i ==> ab@[j] == bb@[j],
        decreases ab@.len() - i,
    {
        if ab[i] != bb[i] {
            return false;
        }
        i += 1;
    }
    assert(ab@ =~= bb@);
    true
}

/// In a table with one counter per pair, an increment raises at most one counter.
pub proof fn lemma_increment_raises_one_counter(ops: Seq<OpCount>, key: Seq<char>, sub_key: Seq<char>)
    requires
        distinct_pairs(ops),
    ensures
        forall|i: int, j: int|
            0 <= i < j < ops.len() ==> !(names_match(ops[i], key, sub_key) && names_match(
                ops[j],
                key,
                sub_key,
            )),
{
}

/// Counts one more use of operator `sub_key` of group `key`; a pair that the table does not
/// hold is ignored.
pub fn increment_mutation_op(mutation_op: &mut MutationOpTable, key: &str, sub_key: &str)
    requires
        forall|i: int|
            0 <= i < old(mutation_op)@.len() && names_match(#[trigger] old(mutation_op)@[i], key@, sub_key@)
                ==> old(mutation_op)@[i].count < i32::MAX,
    ensures
        distinct_pairs(old(mutation_op)@),
        final(mutation_op)@.len() == old(mutation_op)@.len(),
        forall|i: int|
            0 <= i < old(mutation_op)@.len() ==> {
                &&& (#[trigger] final(mutation_op)@[i]).group == old(mutation_op)@[i].group
                &&& final(mutation_op)@[i].op == old(mutation_op)@[i].op
                &&& final(mutation_op)@[i].count == old(mutation_op)@[i].count + if names_match(
                    old(mutation_op)@[i],
                    key@,
                    sub_key@,
                ) {
                    1int
                } else {
                    0int
                }
            },
{
    proof {
        use_type_invariant(&*mutation_op);
    }
    let ghost old_entries = mutation_op@;
    let mut entries: Vec<OpCount> = Vec::new();
    let mut i: usize = 0;
    while i < mutation_op.entries.len()
        invariant
            mutation_op@ == old_entries,
            distinct_pairs(old_entries),
            i <= old_entries.len(),
            entries@.len() == i,
            forall|j: int|
                0 <= j < old_entries.len() && names_match(#[trigger] old_entries[j], key@, sub_key@)
                    ==> old_entries[j].count < i32::MAX,
            forall|j: int|
                0 <= j < i ==> {
                    &&& (#[trigger] entries@[j]).group == old_entries[j].group
                    &&& entries@[j].op == old_entries[j].op
                    &&& entries@[j].count == old_entries[j].count + if names_match(
                        old_entries[j],
                        key@,
                        sub_key@,
                    ) {
                        1int
                    } else {
                        0int
                    }
                },
        decreases old_entries.len() - i,
    {
        let e = mutation_op.entries[i];
        if str_eq(e.group, key) && str_eq(e.op, sub_key) {
            entries.push(OpCount { group: e.group, op: e.op, count: e.count + 1 });
        } else {
            entries.push(e);
        }
        i += 1;
    }
    assert(distinct_pairs(entries@));
    mutation_op.entries = entries;
}

/// The flags that the last execution raised.
#[derive(Clone, Copy, Debug)]
pub struct Feedback {
    pub is_objective: bool,
    pub is_comparison_interesting: bool,
    pub is_dataflow_interesting: bool,
    /// Nonzero where a key instruction (SSTORE, CALL, SELFDESTRUCT, ...) was reached.
    pub is_instruction_interesting: i32,
    pub is_branch_coverage_interesting: bool,
    pub is_instruction_coverage_interesting: bool,
}

/// The fuzzer's shared feedback state.
pub struct GlobalInfo {
    pub feedback: Feedback,
    /// The value of the last mutation stage.
    pub value: i32,
    /// How many mutation stages have started.
    pub mutate_success_count: usize,
    /// The branch coverage after each stage.
    pub branch_coverage_list: Vec<u64>,
    /// The instruction coverage after each stage.
    pub instruction_coverage_list: Vec<u64>,
    pub mutation_op: MutationOpTable,
}

impl GlobalInfo {
    /// The state before any stage: no flag raised, value 0, no coverage recorded, and a
    /// zero counter for each (group, operator) pair of `keys`, whose pairs are distinct.
    pub fn new(keys: &Vec<(&'static str, &'static str)>) -> (r: GlobalInfo)
        requires
            distinct_keys(keys@),
        ensures
            distinct_pairs(r.mutation_op@),
            r.feedback == no_feedback(),
            r.value == 0,
            r.mutate_success_count == 0,
            r.branch_coverage_list@ == Seq::<u64>::empty(),
            r.instruction_coverage_list@ == Seq::<u64>::empty(),
            r.mutation_op@.len() == keys@.len(),
            forall|i: int|
                0 <= i < keys@.len() ==> {
                    &&& (#[trigger] r.mutation_op@[i]).group == keys@[i].0
                    &&& r.mutation_op@[i].op == keys@[i].1
                    &&& r.mutation_op@[i].count == 0
                },
    {
        GlobalInfo {
            feedback: Feedback {
                is_objective: false,
                is_comparison_interesting: false,
                is_dataflow_interesting: false,
                is_instruction_interesting: 0,
                is_branch_coverage_interesting: false,
                is_instruction_coverage_interesting: false,
            },
            value: 0,
            mutate_success_count: 0,
            branch_coverage_list: Vec::new(),
            instruction_coverage_list: Vec::new(),
            mutation_op: MutationOpTable::from_keys(keys),
        }
    }
}

/// No flag raised.
pub open spec fn no_feedback() -> Feedback {
    Feedback {
        is_objective: false,
        is_comparison_interesting: false,
        is_dataflow_interesting: false,
        is_instruction_interesting: 0,
        is_branch_coverage_interesting: false,
        is_instruction_coverage_interesting: false,
    }
}

/// The four execution flags: objective reached, comparison, dataflow, key instruction.
pub fn get_feedback_info(info: &GlobalInfo) -> (r: [bool; 4])
    ensures
        r@ == seq![
            info.feedback.is_objective,
            info.feedback.is_comparison_interesting,
            info.feedback.is_dataflow_interesting,
            info.feedback.is_instruction_interesting != 0,
        ],
{
    let f = info.feedback;
    let r = [
        f.is_objective,
        f.is_comparison_interesting,
        f.is_dataflow_interesting,
        f.is_instruction_interesting != 0,
    ];
    assert(r@ =~= seq![
        f.is_objective,
        f.is_comparison_interesting,
        f.is_dataflow_interesting,
        f.is_instruction_interesting != 0,
    ]);
    r
}

/// The value of the last mutation stage.
pub fn load_value(info: &GlobalInfo) -> (r: i32)
    ensures
        r == info.value,
{
    info.value
}

/// 1 for a raised flag, 0 otherwise.
pub open spec fn flag(b: bool) -> int {
    if b {
        1
    } else {
        0
    }
}

/// The value of a stage's feedback: 3 for an objective, 2 each for an interesting
/// comparison and dataflow, the key-instruction indicator itself, and 3 each for new
/// branch and new instruction coverage.
pub open spec fn feedback_value(f: Feedback) -> int {
    3 * flag(f.is_objective) + 2 * flag(f.is_comparison_interesting) + 2 * flag(f.is_dataflow_interesting)
        + f.is_instruction_interesting + 3 * flag(f.is_branch_coverage_interesting) + 3 * flag(
        f.is_instruction_coverage_interesting,
    )
}

/// Where the key-instruction indicator is not negative, a stage is valuable (value at least
/// 1, so that `adjust_p_table` rewards its operators) exactly when it raised some flag; and
/// the value exceeds the indicator by at most 13.
pub proof fn lemma_value_positive_iff_feedback(f: Feedback)
    ensures
        f.is_instruction_interesting <= feedback_value(f) <= f.is_instruction_interesting + 13,
        f.is_instruction_interesting >= 0 ==> (feedback_value(f) >= 1 <==> (f.is_objective
            || f.is_comparison_interesting || f.is_dataflow_interesting || f.is_instruction_interesting
            != 0 || f.is_branch_coverage_interesting || f.is_instruction_coverage_interesting)),
{
}

/// Whether the coverage lists lag behind the stage count, so that the last coverage is
/// carried over into this stage.
pub open spec fn coverage_lags(info: &GlobalInfo) -> bool {
    info.mutate_success_count != 1 && info.mutate_success_count != info.branch_coverage_list@.len()
}

/// A coverage list after this stage: the last entry repeated when the lists lag behind.
pub open spec fn carried(info: &GlobalInfo, list: Seq<u64>) -> Seq<u64> {
    if coverage_lags(info) {
        list.push(list.last())
    } else {
        list
    }
}

/// Whether the last entry of a list exceeds the one before it.
pub open spec fn rose(list: Seq<u64>) -> bool {
    list[list.len() - 1] > list[list.len() - 2]
}

/// The flags after this stage's coverage is compared: on the first stage both coverage
/// flags are raised; later, each is raised where its coverage rose; a raised flag stays.
pub open spec fn next_feedback(info: &GlobalInfo) -> Feedback {
    let f = info.feedback;
    if info.mutate_success_count == 1 {
        Feedback { is_branch_coverage_interesting: true, is_instruction_coverage_interesting: true, ..f }
    } else {
        Feedback {
            is_branch_coverage_interesting: f.is_branch_coverage_interesting || rose(
                carried(info, info.branch_coverage_list@),
            ),
            is_instruction_coverage_interesting: f.is_instruction_coverage_interesting || rose(
                carried(info, info.instruction_coverage_list@),
            ),
            ..f
        }
    }
}

/// Comparing coverage only raises flags: a coverage flag raised before the stage stays
/// raised, on the first stage both are raised, later a flag is raised where its coverage
/// rose, and the execution flags are kept; so the value counts 3 for each coverage flag
/// raised before the stage.
pub proof fn lemma_coverage_flags_stay_raised(info: &GlobalInfo)
    ensures
        info.feedback.is_branch_coverage_interesting
            ==> next_feedback(info).is_branch_coverage_interesting,
        info.feedback.is_instruction_coverage_interesting
            ==> next_feedback(info).is_instruction_coverage_interesting,
        info.mutate_success_count == 1 ==> next_feedback(info).is_branch_coverage_interesting
            && next_feedback(info).is_instruction_coverage_interesting,
        info.mutate_success_count != 1 && rose(carried(info, info.branch_coverage_list@))
            ==> next_feedback(info).is_branch_coverage_interesting,
        info.mutate_success_count != 1 && rose(carried(info, info.instruction_coverage_list@))
            ==> next_feedback(info).is_instruction_coverage_interesting,
        next_feedback(info).is_objective == info.feedback.is_objective,
        next_feedback(info).is_comparison_interesting == info.feedback.is_comparison_interesting,
        next_feedback(info).is_dataflow_interesting == info.feedback.is_dataflow_interesting,
        next_feedback(info).is_instruction_interesting == info.feedback.is_instruction_interesting,
        feedback_value(next_feedback(info)) >= 3 * flag(info.feedback.is_branch_coverage_interesting)
            + 3 * flag(info.feedback.is_instruction_coverage_interesting) + 3 * flag(
            info.feedback.is_objective,
        ) + 2 * flag(info.feedback.is_comparison_interesting) + 2 * flag(
            info.feedback.is_dataflow_interesting,
        ) + info.feedback.is_instruction_interesting,
{
}

/// The inputs on which `calculate_value` completes: after the first stage both coverage
/// lists hold a last entry to carry over where they lag, and two entries to compare; and
/// the value fits in an `i32`.
pub open spec fn value_computable(info: &GlobalInfo) -> bool {
    &&& info.mutate_success_count != 1 ==> {
        &&& coverage_lags(info) ==> info.branch_coverage_list@.len() >= 1
            && info.instruction_coverage_list@.len() >= 1
        &&& carried(info, info.branch_coverage_list@).len() >= 2
        &&& carried(info, info.instruction_coverage_list@).len() >= 2
    }
    &&& feedback_value(next_feedback(info)) <= i32::MAX
}

/// Whether `calculate_value` can complete on `info` (see `value_computable`).
pub fn can_calculate_value(info: &GlobalInfo) -> (r: bool)
    ensures
        r == value_computable(info),
{
    let count = info.mutate_success_count;
    let bl = info.branch_coverage_list.len();
    let il = info.instruction_coverage_list.len();
    let mut branch_flag = info.feedback.is_branch_coverage_interesting;
    let mut instruction_flag = info.feedback.is_instruction_coverage_interesting;
    if count == 1 {
        branch_flag = true;
        instruction_flag = true;
    } else {
        let lags = count != bl;
        if lags && (bl == 0 || il == 0) {
            return false;
        }
        let (b_last, b_prev, i_last, i_prev) = if lags {
            (
                info.branch_coverage_list[bl - 1],
                info.branch_coverage_list[bl - 1],
                info.instruction_coverage_list[il - 1],
                info.instruction_coverage_list[il - 1],
            )
        } else {
            if bl < 2 || il < 2 {
                return false;
            }
            (
                info.branch_coverage_list[bl - 1],
                info.branch_coverage_list[bl - 2],
                info.instruction_coverage_list[il - 1],
                info.instruction_coverage_list[il - 2],
            )
        };
        branch_flag = branch_flag || b_last > b_prev;
        instruction_flag = instruction_flag || i_last > i_prev;
    }
    let f = info.feedback;
    let value: i64 = 3 * (if f.is_objective {
        1i64
    } else {
        0i64
    }) + 2 * (if f.is_comparison_interesting {
        1i64
    } else {
        0i64
    }) + 2 * (if f.is_dataflow_interesting {
        1i64
    } else {
        0i64
    }) + f.is_instruction_interesting as i64 + 3 * (if branch_flag {
        1i64
    } else {
        0i64
    }) + 3 * (if instruction_flag {
        1i64
    } else {
        0i64
    });
    value <= i32::MAX as i64
}

/// Compares this stage's coverage with the last one, raises the coverage flags, and
/// stores the value of the feedback.
pub fn calculate_value(info: &mut GlobalInfo)
    requires
        value_computable(old(info)),
    ensures
        final(info).branch_coverage_list@ == carried(old(info), old(info).branch_coverage_list@),
        final(info).instruction_coverage_list@ == carried(
            old(info),
            old(info).instruction_coverage_list@,
        ),
        final(info).feedback == next_feedback(old(info)),
        final(info).value == feedback_value(next_feedback(old(info))),
        final(info).mutate_success_count == old(info).mutate_success_count,
        final(info).mutation_op@ == old(info).mutation_op@,
        old(info).feedback.is_branch_coverage_interesting
            ==> final(info).feedback.is_branch_coverage_interesting,
        old(info).feedback.is_instruction_coverage_interesting
            ==> final(info).feedback.is_instruction_coverage_interesting,
        final(info).feedback.is_objective == old(info).feedback.is_objective,
        final(info).feedback.is_comparison_interesting == old(info).feedback.is_comparison_interesting,
        final(info).feedback.is_dataflow_interesting == old(info).feedback.is_dataflow_interesting,
        final(info).feedback.is_instruction_interesting == old(info).feedback.is_instruction_interesting,
        final(info).value == feedback_value(final(info).feedback),
        final(info).feedback.is_branch_coverage_interesting == (old(
            info,
        ).feedback.is_branch_coverage_interesting || old(info).mutate_success_count == 1 || rose(
            final(info).branch_coverage_list@,
        )),
        final(info).feedback.is_instruction_coverage_interesting == (old(
            info,
        ).feedback.is_instruction_coverage_interesting || old(info).mutate_success_count == 1 || rose(
            final(info).instruction_coverage_list@,
        )),
{
    proof {
        lemma_coverage_flags_stay_raised(old(info));
    }
    let count = info.mutate_success_count;
    if count == 1 {
        info.feedback.is_branch_coverage_interesting = true;
        info.feedback.is_instruction_coverage_interesting = true;
    } else {
        if count != info.branch_coverage_list.len() {
            let last_branch = info.branch_coverage_list[info.branch_coverage_list.len() - 1];
            let last_instruction =
                info.instruction_coverage_list[info.instruction_coverage_list.len() - 1];
            info.branch_coverage_list.push(last_branch);
            info.instruction_coverage_list.push(last_instruction);
        }
        let bl = info.branch_coverage_list.len();
        let il = info.instruction_coverage_list.len();
        if info.branch_coverage_list[bl - 1] > info.branch_coverage_list[bl - 2] {
            info.feedback.is_branch_coverage_interesting = true;
        }
        if info.instruction_coverage_list[il - 1] > info.instruction_coverage_list[il - 2] {
            info.feedback.is_instruction_coverage_interesting = true;
        }
    }
    let f = info.feedback;
    let value = 3 * (if f.is_objective {
        1i32
    } else {
        0i32
    }) + 2 * (if f.is_comparison_interesting {
        1i32
    } else {
        0i32
    }) + 2 * (if f.is_dataflow_interesting {
        1i32
    } else {
        0i32
    }) + f.is_instruction_interesting + 3 * (if f.is_branch_coverage_interesting {
        1i32
    } else {
        0i32
    }) + 3 * (if f.is_instruction_coverage_interesting {
        1i32
    } else {
        0i32
    });
    info.value = value;
}

/// The counters that were used at least once, in table order.
pub open spec fn used_ops(ops: Seq<OpCount>) -> Seq<OpCount> {
    ops.filter(|e: OpCount| e.count != 0)
}

/// The used counters are exactly those of nonzero count: every counter of nonzero count is
/// among them, an operator used once included, and each of them is a counter of the table
/// with a nonzero count.
pub proof fn lemma_used_ops(ops: Seq<OpCount>)
    ensures
        forall|i: int|
            0 <= i < ops.len() ==> (ops[i].count != 0 <==> used_ops(ops).contains(#[trigger] ops[i])),
        forall|j: int|
            0 <= j < used_ops(ops).len() ==> (#[trigger] used_ops(ops)[j]).count != 0
                && ops.contains(used_ops(ops)[j]),
{
    let pred = |e: OpCount| e.count != 0;
    assert forall|j: int| 0 <= j < used_ops(ops).len() implies (#[trigger] used_ops(ops)[j]).count
        != 0 && ops.contains(used_ops(ops)[j]) by {
        ops.lemma_filter_pred(pred, j);
        ops.lemma_filter_contains_rev(pred, used_ops(ops)[j]);
    }
    assert forall|i: int| 0 <= i < ops.len() implies (ops[i].count != 0 <==> used_ops(
        ops,
    ).contains(#[trigger] ops[i])) by {
        if ops[i].count != 0 {
            ops.lemma_filter_contains(pred, i);
        }
        if used_ops(ops).contains(ops[i]) {
            let j = choose|j: int| 0 <= j < used_ops(ops).len() && used_ops(ops)[j] == ops[i];
            ops.lemma_filter_pred(pred, j);
        }
    }
}

/// Ends a round of the probability table: where the stage's value is at least 1, returns
/// the counters that were used (for the table to raise each by count / 100 and normalise
/// its group, a group without a used operator back to equal shares); in any case sets the
/// value back to 0 and every counter back to 0.
pub fn adjust_p_table(info: &mut GlobalInfo) -> (r: Option<Vec<OpCount>>)
    ensures
        r is Some <==> old(info).value >= 1,
        r matches Some(v) ==> v@ == used_ops(old(info).mutation_op@),
        r matches Some(v) ==> forall|i: int|
            0 <= i < old(info).mutation_op@.len() ==> (old(info).mutation_op@[i].count != 0
                <==> v@.contains(#[trigger] old(info).mutation_op@[i])),
        r matches Some(v) ==> forall|j: int|
            0 <= j < v@.len() ==> (#[trigger] v@[j]).count != 0 && old(info).mutation_op@.contains(
                v@[j],
            ),
        final(info).value == 0,
        final(info).mutation_op@.len() == old(info).mutation_op@.len(),
        forall|i: int|
            0 <= i < old(info).mutation_op@.len() ==> {
                &&& (#[trigger] final(info).mutation_op@[i]).group == old(info).mutation_op@[i].group
                &&& final(info).mutation_op@[i].op == old(info).mutation_op@[i].op
                &&& final(info).mutation_op@[i].count == 0
            },
        final(info).feedback == old(info).feedback,
        final(info).mutate_success_count == old(info).mutate_success_count,
        final(info).branch_coverage_list@ == old(info).branch_coverage_list@,
        final(info).instruction_coverage_list@ == old(info).instruction_coverage_list@,
{
    proof {
        use_type_invariant(&info.mutation_op);
    }
    let ghost old_ops = info.mutation_op@;
    let ghost pred = |e: OpCount| e.count != 0;
    let mut used: Vec<OpCount> = Vec::new();
    let mut zeroed: Vec<OpCount> = Vec::new();
    let n = info.mutation_op.entries.len();
    let mut i: usize = 0;
    while i < n
        invariant
            n == old_ops.len(),
            info.mutation_op@ == old_ops,
            distinct_pairs(old_ops),
            i <= n,
            zeroed@.len() == i,
            pred == (|e: OpCount| e.count != 0),
            used@ == old_ops.take(i as int).filter(pred),
            forall|j: int|
                0 <= j < i ==> {
                    &&& (#[trigger] zeroed@[j]).group == old_ops[j].group
                    &&& zeroed@[j].op == old_ops[j].op
                    &&& zeroed@[j].count == 0
                },
        decreases n - i,
    {
        reveal_with_fuel(Seq::<_>::filter, 1);
        let e = info.mutation_op.entries[i];
        assert(old_ops.take(i + 1).drop_last() =~= old_ops.take(i as int));
        if e.count != 0 {
            used.push(e);
        }
        zeroed.push(OpCount { group: e.group, op: e.op, count: 0 });
        i += 1;
    }
    assert(distinct_pairs(zeroed@));
    info.mutation_op.entries = zeroed;
    assert(old_ops.take(n as int) =~= old_ops);
    proof {
        lemma_used_ops(old_ops);
        assert(used@ == used_ops(old_ops));
        assert forall|j: int| 0 <= j < used@.len() implies (#[trigger] used@[j]).count != 0
            && old_ops.contains(used@[j]) by {
            assert(used@[j] == used_ops(old_ops)[j]);
        }
    }
    let r = if info.value >= 1 {
        Some(used)
    } else {
        None
    };
    info.value = 0;
    r
}

} // verus!
