# okx_pa_agent

The core of a price-action trading agent for OKX, written in Verus: every
function in `src/` carries a contract that Verus proves.

The agent asks a language model for a market diagnosis (stage 1) and a
trading decision (stage 2), checks both replies, and turns an accepted
decision into OKX orders. Resolved trades feed a learning loop: outcomes are
qualified, filed as experience cases, attributed to failure modes, and used
to judge new versions of the strategy prompt before a person activates them.

## Layout

- `src/` is the verified library. Prices are floating-point in the agent and
  Verus does not reason about floating point, so the library works on what
  its rules read: bar times and indices, integer counts, texts, and the
  outcome of each price comparison as a boolean. Public proof functions
  named `law_*` state properties that hold across calls (what a listing
  orders, what an activation leaves unchanged, what a write lets a read see
  again).
  Order sizing and the order gates (`sizing`) work on exact decimals
  (`decimal::Dec`, a mantissa and a number of places, as the exchange quotes
  them): the size is the largest whole number of lots within the risk and
  margin budgets, never raised to the minimum, and every refusal says why.
  The two-stage analysis and the submission of an entry order are state
  machines (`analysis::analysis_step`, `submission::submission_step`): the
  caller performs the model or venue call each step asks for and reports
  what came back, so the decisions between the calls are verified.
- `tests/` runs the library on concrete values.
- `app/` holds what the library cannot: reading files, serde types, the
  floating-point parts (candle parsing and aggregation, benchmark replay
  pricing), and the conversion of prices and exchange figures to exact
  decimals with `rust_decimal`.

Calls into outside crates (`sha2`, `hex`, `hmac`, `base64`, `regex`,
`serde_json`, `chrono`, `uuid`, `urlencoding`) go through small trusted
wrappers; each states in its doc comment what its contract claims of the
crate.
