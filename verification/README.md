# Webhook notifications

Pushes tool-call lifecycle events out of a gateway as HTTP POSTs: a call that
completed, failed or ran slowly. Every call is allowed; events go through a
bounded queue to a background sender, which retries with growing pauses, trips a
circuit breaker per endpoint, and refuses to deliver to private addresses unless
an endpoint opts in.

- `src/` decides, and is verified with Verus: the event filters and payloads
  (`config`, `event`, `json`), what a call gives rise to (`plugin`, `queue`), the
  circuit breaker and the pauses (`circuit`, `backoff`), the choice of address
  (`target`), and the course of a delivery (`delivery`, `sender`). The public
  proof functions named `law_...` state what holds of all of it together.
- `app/` acts: it reads the configuration, resolves hosts, sends requests, sleeps,
  and publishes metrics.
- `tests/` exercises the library through its public interface.

Trusted, and stated where they stand: `url::Url::parse` with the host and port of
what it gives (`target`), and `serde_json::to_string` on a string and on a number
(`json`).
