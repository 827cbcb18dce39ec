# galaxy_proxy

An HTTP gateway that routes AI model requests to configured upstream
channels, with an admin API for channels, groups, API keys, prices and
statistics.

- `src/` is the verified library: endpoint types and paths, model mapping
  and wildcard patterns, channel selection (a state machine the request
  handler drives), group ranking, retries, SSE framing and usage extraction,
  token issuing and checking, the API key cache, admin request rules,
  schema migrations, runtime settings, price lookup, the model catalog, the
  model test call and the console's file serving.
- `app/` is the server around it: configuration loading, the database,
  HTTP routes, upstream calls and background timers.
- `tests/` exercise the library on concrete values.
