# fuzz_dqn

Mutation scheduling for an EVM smart-contract fuzzer, with contracts proved by Verus.

A DQN agent chooses one of sixteen three-digit actions; the action selects, at random, a
full mutation code of the action file (`action.csv`) that starts with its digits; the code is
decoded into the mutator selection that drives the mutator; and the feedback of the stage
(objective reached, interesting comparisons, dataflow, key instructions, new coverage)
becomes both the agent's reward and the value that adjusts the probability table of the
mutation operators.

Layout:

- `src/` — the verified library.
  - `decimal.rs`: decimal text of integers (`to_string`, `parse::<i64>`), over bytes.
  - `action_file.rs`: the numbers of the action file (read with the `csv` crate) and the
    codes that extend an action.
  - `evm_input.rs`: the transaction input as the scheduler sees it.
  - `dqn.rs`: the shared state, the action space, decoding of codes into mutator
    selections, the agent's state, the environment steps, the replay buffer.
  - `global_info.rs`: stage feedback, its value, and the operator use counts.
  - `mutator_dqn.rs`: access patterns, and the mutator's decisions and its own part of the
    work (which mutation, its effect on the input, how many attempts, what each attempt
    counts, which constraints an input can meet); what it leaves to the fuzzer is named by
    `FuzzerWork`.
  - `py_bridge.rs`: the Python bridge's copy of the shared input.
- `app/` — what the library cannot hold: the locks around the shared state, file and plot
  output, the floating-point probability table and Q-network (`tch`), the Python module
  (`pyo3`), and the interpreter hook (`revm-interpreter`).
- `tests/` — tests of the library on concrete values.
