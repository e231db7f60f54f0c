# kalshi_mm

A market maker for binary contracts on Kalshi. A contract pays a dollar if it
comes true, and prices run from 1 to 99 cents; a bid for one contract is an
offer of the other at what is left of the dollar.

The decisions are a library whose behaviour is stated in contracts and proved
with Verus. The program around it reads clocks, talks to the exchange and does
the floating-point arithmetic.

## The library, `src/`

| module | what it holds |
|---|---|
| `market_data` | the order book, its quotes, the history of middle prices |
| `risk` | position, pairing of contracts, profit, the state that halts trading |
| `tracker` | the orders that were placed |
| `signal`, `signal_laws` | the engine that turns a book and two scores into actions |
| `session`, `session_laws` | one trading session as a state machine |
| `execution` | requests to the exchange and its replies |
| `ws` | messages of the stream, subscriptions, reconnecting |
| `market_finder` | the choice of a market |
| `config` | settings, the environment, the settings file |
| `json`, `utc` | JSON values and civil time, on `serde_json` and `chrono` |
| `double`, `text`, `time`, `bits`, `seqs` | what the others rest on |

Public proof functions named `law_...` state what holds of every input.

Numbers with fractions never enter the library: middle prices are counted in
half cents, and a score is compared by the bits of its double. What has to be
computed with fractions is handed out as integers and handed back as bits.

## The program, `app/`

`main` finds a market and trades it until it closes; `trading` feeds a session,
`exec` and `stream` are the connections, `raw` the documents of the exchange,
`floats` the arithmetic on fractions.

It reads `.env` and the environment. `KALSHI_KEY_ID` and
`KALSHI_PRIVATE_KEY_PATH` are needed; everything else has a default.
