# mlxtop

A dark terminal monitor for memory pressure and local LLM serving. It answers
three questions: is inference healthy, which process owns the workload, and what
changed during the session.

The library under `src/` holds what the program decides. It is written in Verus:
each function states what it returns or changes, and the statements are proved.
The program under `app/` reads counters, asks the model server, listens to the
keyboard and draws with `ratatui`.

## Layout

| Modules | What they hold |
| --- | --- |
| `natural`, `binary64`, `numeral`, `text`, `units`, `order` | numbers, texts and lists |
| `model`, `thresholds` | the sample, the settings and the levels |
| `system`, `processes`, `completion` | what the tools of the system and the logs say |
| `json`, `mlx`, `omlx`, `server`, `client`, `requests` | what a model server says, and when it is asked |
| `sampling`, `collector`, `schedule` | how readings become samples, and when |
| `classify`, `correlation`, `journal` | what a sample means, and what is worth writing down |
| `chart`, `chart_panel`, `labels`, `panels`, `layout`, `report` | what is shown |
| `interface`, `cli`, `diagnostics` | keys, arguments and the log |

Promises that span several functions are public proof functions beside the
functions that they are about: histories are bounded and never rewritten, a bell
rings once per episode of paging, a diagnosis is written once per change, and so
on.

Fractions are binary64 numbers, computed on their bits and rounded to the nearest
as the machine does; `binary64` states every operation over exact integers.

## Outside code

Five items are believed and not proved: `serde_json::from_str`, taking a
`serde_json::Value` apart, writing a JSON string, `String::from_utf8_lossy` and
`String::push`. They stand in `json`, `server` and `text`.
