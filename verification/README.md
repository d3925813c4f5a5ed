# moq-clock

A clock over [Media over QUIC](https://moq.dev). The publisher announces the broadcast `clock` on a
relay and sends the current time once per second on its track `time`, one frame per group. The
subscriber reads the track of every broadcast that is announced and prints each timestamp.

```
moq-clock-pub --url https://relay.moq.dev/anon
moq-clock-sub --url https://relay.moq.dev/anon
```

What the two programs decide is in `src/`, with contracts that Verus proves:

| Module       | What it decides |
|--------------|-----------------|
| `args`       | where the relay URL stands on the command line |
| `relay`      | which URL to connect to, given the URL of a relay or of the clock on it |
| `timestamp`  | how a date and time is written |
| `publisher`  | what the publisher does next |
| `subscriber` | what the subscriber does next, and what it prints |
| `delivery`   | what the two do together: the time that is sent is the time that is printed |
| `text`       | comparing strings, writing numbers |

Parsing URLs and changing their paths is the `url` crate's work, writing dates the `chrono` crate's,
and checking UTF-8 the standard library's; the functions that call them say what is taken on trust.

`app/` does the work that the library asks for: it reads the arguments and the clock, connects,
waits, sends and prints. It builds to one executable, to be installed under both names: it is the
subscriber if its name ends in `-sub`, otherwise the publisher.
