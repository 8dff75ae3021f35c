# price_tracker

The verified core of a flight-fare alert system made of several services: an
HTTP gateway, an auth service, a tracking service, a price receiver, a
notification worker and a Telegram worker.

`src/` holds what those services decide, with Verus contracts:

- `decimal` reads integers as `str::parse` does and writes them as `Display` does;
- `keys` decodes the hex keys (JWT key, password-hashing secret);
- `jwt` issues and checks the gateway's HS256 tokens;
- `gateway` authenticates requests by their bearer token and shapes HTTP answers;
- `auth` hashes and checks passwords (Argon2d with the service's secret);
- `rate_limit` is the per-client request limiter as a state machine over Redis replies;
- `services` holds the gRPC messages and the tracking service's decisions;
- `streams` holds the decisions of the streaming loops;
- `error` holds the error and status types.

`app/` is the runtime glue: environment variables, the axum extractor, the
Redis round trips, and the messages that carry float prices.
