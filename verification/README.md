# tuber_tui

A terminal dashboard for a tuber (beanstalkd-protocol) work-queue server,
built around a library whose logic is proved with Verus.

`src/` is the verified library:

- `text` — whitespace trimming, decimal rendering and decimal parsing over
  `Seq<char>`, with the law that a rendered number parses back.
- `yaml` — the `key: value` and `- item` replies of `stats`, `stats-tube`
  and `list-tubes`, with laws that written lines and whole bodies read back.
- `model` — server and tube statistics read from those replies, with laws
  that each field reads its own key and no other.
- `protocol` — command framing, the `OK <bytes>` header, reply bodies and
  reply lines.
- `order` — the stable sort of tubes by total jobs, largest first, with the
  law that states it.
- `fetch` — the request sequence of one snapshot as a state machine, with
  the law that states what it sends and assembles.
- `rounding` — exact integer models of the `f64` roundings behind the
  abbreviated counts.
- `ui` — the dashboard's text and its colouring: durations, abbreviated
  counts, the top bar's lines, the chart rows and columns, the buried line.
- `layout` — the screen bands (cut by ratatui's layout solver, each within
  the screen) and the tube chart's areas.

`app/` is the program: the tokio TCP client, the polling loop, the terminal
and the ratatui drawing, including the floating-point parts (CPU times,
rates, moving averages, logarithmic bar widths).
