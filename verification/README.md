# ipmpsc

Inter-process, multiple-producer, single-consumer channels over a ring buffer in shared memory.

`src/` holds the rules of the channel, verified with Verus: the layout of messages in the ring, when a
sender may store one, what the receiver finds, when either end waits and for how long, and what the
locks of the two platforms decide.  `src/ring.rs` says what the memory of a ring means, and
`src/laws.rs` proves what holds of every channel: messages come out once, complete and in order, in
every interleaving of senders and receiver, and a message that is being read is never overwritten.

`app/` maps files, locks rings and serializes values around those rules, for POSIX systems and for
Windows.  `tests/` runs the rules on rings in ordinary memory.

The memory model is that of one step at a time: a sender's store of a message and its move of `write`
under the lock count as one step, as do the receiver's moves of `read`.  `bincode` is trusted for the
encoding of lengths, as the comments in `src/frame.rs` say.
