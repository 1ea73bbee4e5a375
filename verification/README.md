# praxis_ai_filters

HTTP filters for an AI gateway, written in Verus: the request and response
logic of each filter is verified against its contract.

- `src/` is the verified library:
  - `content_normalize`, `reasoning_effort_map`, `token_usage::stream_usage`:
    request body rewrites.
  - `model_access`, `model_catalog`: model policy and the model list endpoint.
  - `identity_guard`, `api_key_auth`, `jwt_auth`: identity capture and
    authentication decisions.
  - `metering`: identity resolution, balance decisions and usage events.
  - `token_usage`: provider usage parsing and the `token_count` filter's
    metadata state machine.
  - `filter`, `json`, `text`: headers, metadata, the JSON tree and text
    helpers shared by the filters.
- `app/` holds what performs I/O: configuration parsing, HTTP clients,
  caches and clocks, calling the library for every decision.
- `tests/` exercises the library from outside.
