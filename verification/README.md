# asitop

A performance monitor for Apple Silicon: processor, graphics, memory, network,
disk and power figures in a terminal.

`src/` is the library that makes every decision: which figures a snapshot of
`powermetrics` amounts to, when counters are read again, what counts as memory
in use, when to draw, when to start `powermetrics` anew. Each function carries a contract that Verus proves, and
what holds across functions stands in public proof functions named `law_*`.

| module | what it decides |
| --- | --- |
| `config` | options, averaging window, palette |
| `files` | timecodes, file names, the command line of `powermetrics` |
| `reader` | when and from where the file is read, which snapshot counts |
| `powermetrics` | how clusters and cores are sorted and summed up |
| `history` | the chart's history and the windows of the rolling averages |
| `memory`, `io_stats`, `thermal` | memory and swap use, throughput, throttling |
| `state`, `session` | what one sample changes, and the course of a session |

`app/` is the program around it: system calls, decoding, floating point
arithmetic and drawing. `tests/` runs the library.

One function of the standard library is taken on trust: `SystemTime::elapsed`,
in `files`, of whose result nothing is promised.
