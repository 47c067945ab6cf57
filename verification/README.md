# sccp

An SCCP (Signaling Connection Control Part, ITU-T Q.711-Q.716) codec whose
encoders and decoders are verified with Verus: Telephony-BCD digits, Global
Titles, party addresses, and the connectionless UDT / UDTS / XUDT / XUDTS /
LUDT / LUDTS messages.

## Layout

- `src/` — the verified library. Each wire format has a mathematical model (a
  `View`), a specification of its encoding and of its decoding over byte
  sequences, and executable `encode` / `decode` functions proved to compute
  exactly those. Round-trip laws (`lemma_*_round_trip`) state what decoding an
  encoding gives back.
  - `bcd` — TBCD packing; `global_title`, `address`, `types` — the address parts;
  - `variable_part` — pointers and length-prefixed fields; `message` — the six
    messages and the `SccpMessage` dispatch;
  - `octets`, `text` — byte-buffer and rendering helpers.
- `tests/` — the test suite.
- `app/` — PyO3 bindings and the error type with `std::error::Error`
  (`thiserror`), which stand outside the verified library.
