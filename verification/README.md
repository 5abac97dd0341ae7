# weather_forecast

A weather-forecast governance pallet, verified with Verus.

Proposal authorities file weather reports; vote authorities vote for them, and a
report is confirmed, that is appended to the list of confirmed reports, when its
votes reach the threshold that root sets. Where root lowers the threshold under
the votes a report already has, the next vote passes it and confirms the report,
unless it is already confirmed: votes past the threshold do not list a report
again. Where root raises the threshold, a confirmed report whose votes then meet
it is confirmed again and stands twice in the list. Vote authorities can also
vote to remove a proposal or vote authority, which happens when those votes
reach or pass the threshold. An off-chain worker reads the weather
service's JSON response and proposes it under an identifier derived from a
random seed and a nonce.

Layout:

- `src/types.rs`: weather reports, origins, errors, events; `ensure_root`, `ensure_signed`.
- `src/table.rs`: the keyed store behind the pallet's storage maps.
- `src/module.rs`: the pallet's storage, its model (`ModuleView`), every call and
  its contract, and the storage readers.
- `src/json.rs`: JSON values, the reading of a weather report out of a response.
  Responses are parsed with the no-std parser `lite-json`; the no-std
  `simple_json` parser is not published in the crate registry (a `simple_json`
  there is an unrelated library). `lite-json` reads ASCII text only, so a
  response holding any other character (a city such as "Zürich") gives no report.
- `src/offchain.rs`: proposal identifiers (SCALE encoding and BLAKE2b-256).
- `src/laws.rs`: what the calls promise together, proved.
- `app/main.rs`: a local run: reads a response from a file, converts the readings
  (floating point), proposes and dispatches the report, prints the storage.
