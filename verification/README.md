# metw-id

Unique identifiers for metw.cc services, in a Snowflake layout:

| Field | Bits | Description |
| -- | -- | -- |
| Timestamp | 22 to 63 | Milliseconds since 2022-08-12 00:00:00 UTC. |
| Constant | 12 to 21 | User-specified constant (0 to 1023). |
| Increment | 0 to 11 | Increments with every generated ID. |

`src/` is the verified library: the bit layout (`layout`), the generator's state machine
(`snowflake`) and what it guarantees over many requests (`issuance`: IDs never repeat, even where
requests bring stale clock readings, which the generator refuses, as long as the timestamps lie
less than 2^42 ms apart (so for all timestamps from the epoch on); their timestamps never go
back; each is larger than the one before except where the increment wraps within one
millisecond), the monotonic clock's decisions and its monotonicity when shared through a
compare-exchange (`clock`), the epoch (`epoch`), the ID type with its order and
decimal text (`id`, `decimal`) and the naming of request spans (`span`).

`app/` holds the process-wide clock and generator (with the waiting they need), the
`define_id!` macro with its serde, sqlx and utoipa impls, and the tracing and serving helpers.
