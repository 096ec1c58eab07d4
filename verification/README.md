# sui-move-analyzer

A security analysis for Sui Move. It reads the control-flow form of a compiled package and reports
bitwise operations that are used as arithmetic and can lose bits: left shifts that truncate, guards
before shifts that are too weak, right shifts that discard bits, casts that can fail, shift counts
out of range, results of bitwise operators that feed arithmetic, denominators that may be zero, and
quantities that are rounded in different directions.

The library in `src/` is verified with Verus. What a function returns is stated in its contract; what
holds of the analysis as a whole is stated by public proof functions.

| Module | What it holds |
|---|---|
| `u256`, `text`, `model` | 256-bit integers, texts, and copies and comparisons over views |
| `ast`, `cfg` | the program that is analyzed |
| `domain` | ranges, known bits, formulas, risks, abstract values and states |
| `rules` | the rules, one module each |
| `smt` | proofs about ranges, products and shifts |
| `transfer` | the interpreter: expressions, calls, constraints, commands, the work list, programs |
| `sinks`, `report`, `summaries` | where risks do harm, findings and diagnostics, what callers know |
| `scope`, `options`, `package` | packages: scopes, options, retries and the cache of builds |
| `corpus`, `demo`, `benchmark` | the programs: a pinned corpus, one package, a benchmark |

The laws of the interpreter stand in modules of their own:

- `transfer::semantics` says what expressions compute;
- `transfer::soundness` that abstract values admit what expressions compute;
- `transfer::constraint_laws` that guards narrow a state to the numbers that meet them;
- `transfer::validity` and `transfer::fixpoint` what holds of the states of a finished analysis;
- `transfer::runs` that a finished analysis has followed every run of a body;
- `transfer::risks` which operations give rise to risks, and that values keep them;
- `transfer::losses` and `transfer::reports` that bits lost before a public return are reported,
  that nothing is reported but risks at sinks, and that errors lie at the gravest sinks;
- `transfer::learned` that callers learn of the risks of what a function returns;
- `transfer::suppression` that masks, guards, alternatives of guards and known bits rule risks out.

These laws speak of unsigned numbers in variables, and of runs that do not abort. What a call or
a constant gives is any number of its type; what lies in a field or behind a reference is not
followed.
A branch whose condition compares values that are not followed is taken into account only where
nothing is concluded from that comparison. Runs that the analysis reads wrongly are left out
(`is_read_rightly` in `transfer::runs`): those that start in a block to which others lead back, where
what comes back does not admit the arguments; those through a condition with a left shift of constants
that leaves its type; and those through a branch that leads to the same block either way, where its
condition is false. Bits that are lost in a shift by an amount that the
analysis does not know are left out: of such shifts only those of `u256` values are reported, as
warnings, whatever they lose.

`app/` is the command line around the library. It runs the Move compiler and the version control
tool, hands the library plain values, and prints what comes back.

An analysis takes a budget of steps. Where a loop does not come to an end within the budget there
are no findings; with a larger budget the findings do not change.
