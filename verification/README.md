# fil_actor_states

Verified models of Filecoin built-in actor state and of the rules that inspect and
update it: the miner's sector validation, its tables of pre-committed and proven sectors,
fund and vesting accounting, sector activation, replica updates, the proving-deadline
cron and early terminations as steps from state and reports to the next state and the
messages to send, expiration extension, the market's balance table and deal amounts,
the verified registry, the init and multisig actors, the reward streams installed at an
upgrade, and the EVM's memory, 256-bit words and precompile input handling (modular
exponentiation through `num-bigint`, as re-exported by `fvm_shared`).

Everything under `src/` is written in Verus, and the laws that span several functions are
public proof functions. Calls into `fvm_shared`, `fvm_ipld_bitfield`, `fvm_ipld_encoding`,
`rlp` and `unsigned-varint` go through small trusted wrappers whose contracts are
documented next to them.

What the chain runtime or the block store provides is not computed here. Hashing,
signature recovery, rewards and pledges for a quantity of power are passed in as closures,
and the contracts relate the results to what those closures return. Randomness, CIDs,
vesting-table releases, the deadlines' partition changes, the expired pre-commit queue
and the other values read from the store are passed in as arguments. The contracts then
hold for every value of them. Token amounts are `i128` attoFIL, wide enough for the whole
supply; contracts ask that sums of them stay in range.

`tests/` holds the unit tests, run against the real outside crates.
