# handy

The decisions of a push-to-talk dictation app, verified with Verus.

- `src/` decides. `ptt`, `stage` and `lifecycle` turn key events, notifications
  and timers into starts and stops of a recording; `coordinator` is the queue that
  keeps them in order; `lifecycle_laws` states what holds of all of it. `hotkey`
  and `hands_free` compose and claim the key that makes a recording hands-free.
  `shortcut`, `binding_change` and `implementation_change` register, change and
  move shortcuts. `commands` and `post_process` change settings. `text`,
  `string_map`, `settings` and `effect` are what the others are written in.
- `src/outside.rs` holds every call that leaves the library; its contracts are
  taken on trust.
- `app/` does: threads, locks, storage, events. It reaches the platform through
  the trait `Host`.
- `tests/` runs the library.

Time is counted in whole nanoseconds. Where the library needs something done it
returns a list of effects, which its caller performs in order.
