# turn_state_gateway

Routing tickets and routing cookies for upstream accounts, and the relay of tool
calls over a channel with one native function. The rules are a library that is
verified with Verus; what touches the network or the database stands around it.

- `src/account`: tickets, cookies, their configuration, and which account serves a
  request.
- `src/probe`: how a ticket or a cookie is hunted for, what an answer is worth, and
  how the hunt is paced.
- `src/store`: the rows that are kept, and how each operation changes them.
- `src/bps`: requests and answers of the relay channel.
- `src/json.rs`, `src/text.rs`, `src/text_map.rs`, `src/digest.rs`,
  `src/base64_text.rs`, `src/headers.rs`: what the rest is built on.
- `tests`: the library seen from outside.
- `app`: JSON documents, SQL, HTTP.

Times are passed in. Unless a name says otherwise they are in seconds since 1970;
`_ms` and `_us` stand for milliseconds and microseconds.
