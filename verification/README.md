# sqlx_pool

The bookkeeping of a database connection pool, verified with Verus, and the identity of database
migrations.

A pool owns permits and connections. Whoever uses a connection has a permit. A pool may have a
parent: it then starts without permits and borrows them from the parent one at a time. A borrowed
permit belongs to the child until the child is dropped. Closing a pool waits for the permits that
the pool owns itself, and for no others. A parent that is closed stops its children: they keep their
connections, but hand out none any more.

The library neither waits nor talks to anybody. Each method is one critical section. What takes time
(waiting for a permit, opening, pinging and closing connections, sleeping) is a small machine that
takes an event and says what to do next.

| module             | contents                                                               |
|--------------------|------------------------------------------------------------------------|
| `semaphore`        | a fair counting semaphore that is polled                               |
| `idle`             | connections, and the queue of the idle ones                            |
| `options`          | the options of a pool, and the limits that they set                    |
| `state`            | the mathematical model of a pool                                       |
| `inner`            | the pool                                                               |
| `permit`           | waiting for a permit, and borrowing one from the parent                |
| `close`            | closing a pool, and telling those who wait                             |
| `acquire`          | acquiring a connection, and checking an idle one                       |
| `connect`          | opening a connection, with waits in between                            |
| `maintenance`      | keeping the number of connections up and closing old ones              |
| `donation_barrier` | a place to stop a caller that is about to borrow                       |
| `migration`        | migrations, their order and checksums                                  |
| `laws`             | what holds whatever is done to one pool or to a family of them         |

`app/` puts the pool behind a lock and connects it to tasks, the clock, database drivers and the
log.
