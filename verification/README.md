# executive

Verified execution of Ethereum transactions: nonce, block and balance checks, message calls,
contract creation, refunds, fees and receipts, over a world state of accounts.

| Module | What it holds |
| --- | --- |
| `executive` | `Executive` (`transact`, `call`, `create`, `finalize`), receipts, contract addresses |
| `externalities` | what running code can ask of and do to the world |
| `evm`, `engine` | the virtual machine and the rules of the chain, as traits to implement |
| `state`, `table` | accounts with nonce, balance, code and storage |
| `substate`, `output`, `transaction`, `env`, `error` | the data that executions work with |
| `uint`, `bytes`, `hash`, `rlp` | 256- and 512-bit numbers, byte strings, Keccak-256, address encoding |
| `supply`, `laws` | what holds of balances and of executions as a whole |
| `machine` | machines that reach the world only through the externalities, and what holds of their runs |

Arithmetic on words is modulo `2^256`.

What is believed rather than proved: the Keccak-256 digest, which comes from `tiny-keccak`, is a
function of its input; and the methods of an `Engine` give the results that its specification
functions name, the same for the same arguments. Neither an engine nor a virtual machine
changes the size of a fixed output buffer. Nothing else is believed of a virtual machine:
`Evm::ran` relates what goes into a run to what comes out of it, and the contracts of calls,
creations and transactions say what is made of it.
