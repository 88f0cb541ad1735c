# Surflux Terminal

A terminal for watching DeepBook pools through the Surflux service: a
watchlist, live order books and trades, pool search and candlestick charts.

The library under `src/` is verified with Verus; `app/` is the program around
it (configuration from the environment, HTTP and server-sent-event I/O, the
event loop and the drawing).

## Layout of the library

- `text`, `order`: text operations and string sorting with their specifications.
- `decimal`: the model of `rust_decimal::Decimal` (mantissa, scale and sign flag) and the calls into
  `rust_decimal`.
- `json`: JSON values as the service sends them; flags, and integer fields given
  as numbers or strings.
- `meta`, `context`: pool symbols, API keys from environment variables, the
  registry of configured pools and their metadata.
- `rest`, `stream`, `sse`: REST responses and live events turned into quotes,
  trades, order books and candlesticks; the server-sent-event reader.
- `types`, `api`, `pool`, `pools`, `watchlist`: the terminal's data and stores.
- `kline`: candlestick buckets, the candlestick store and trades folded into it.
- `keys`, `feed`, `search`, `watch`, `detail`, `number`: the decisions of the
  screens: what keys do, what pushed data changes, searches, the figures shown.
