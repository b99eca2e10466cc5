# Kakitu Miner

Desktop proof-of-work miner for the KSHS cryptocurrency. The core in `src/` is verified with
Verus; `app/` is the ordinary Rust around it: the WebSocket, the threads and the Tauri window.

| Module | What it holds |
|--------|---------------|
| `search` | The Blake2b search: which nonces each thread tries, when one is good, and the work text |
| `worker` | Jobs and messages: what is started, called off, handed in, paid, answered |
| `session` | The connection: opening, reconnecting with backoff, and noticing silence |
| `difficulty` | Reading a difficulty, its default and its bounds |
| `json` | The messages that are sent |
| `base16`, `endian`, `text` | Hexadecimal, byte order, and decimal text |

## Technical details

- Hashing: Blake2b, eight bytes, over the nonce (little-endian) and the block
- Default threshold: `0xfffff00000000000`
- Difficulty bounds: `0xffffe00000000000` to `0xfffff80000000000`
- Work timeout: 120 seconds; what is found later is not handed in
- Reconnect: exponential backoff, 1 s to 60 s, at most 10 attempts in a row
- Liveness: a connection on which the hub is silent for 90 seconds is given up, the first one and
  each that is had back

## What is trusted

The calls into `hex` (`decode`, `encode`), `blake2b_simd`, `rand` and `serde_json`. Each stands in a
small function whose doc comment says what is taken for granted of it.
