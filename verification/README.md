# reina-download

Segmented, resumable HTTP downloads whose decisions are proved.

`src/` is the verified library. Its modules decide and do no I/O: which bytes to
ask for, whether an answer is the range that was asked for, where a chunk goes,
when to retry and how long to wait, what to record on disk and in which order,
and when and how a download is over. `app/` performs what they decide with an
HTTP client, an async runtime and files. It is not verified: it notices
cancellations, ends the workers of a transfer, paces the periodic commits and
snapshots, and smooths the speed that it shows.

| Module | What it decides |
| --- | --- |
| `pieces` | the geometry of a file and its progress counters |
| `http` | what the head of a response says |
| `control`, `codec` | the control file and its bytes |
| `limiter` | the shared connection budget, the adaptive connection target |
| `progress`, `types`, `error`, `text`, `time` | what callers hand in and see |
| `engine::probe`, `engine::resume` | what the server can do, whether a partial file still counts |
| `engine::fetch`, `engine::worker`, `engine::segmented` | one piece, and all of them |
| `engine::stream` | the fallback for servers that ignore ranges |
| `engine::disk`, `engine::run` | durable commits, and the steps of a download |
| `engine::course` | what holds at every moment of a download and its disk |

Public proof functions whose names start with `law_` state what holds of the
whole: pieces partition the file, writes stay in their piece, the control file
never claims a byte that a crash could take away, a target without a control
file is complete, a cancelled download has saved its progress (or ends with the
failure to save it), and a later run goes on where it stopped.
