# reckless

The command side of the Reckless chess engine: the UCI commands, the sessions in which they come,
the listeners that let `stop`, `quit` and `isready` through while a search runs, and the choice among
the results of the search threads. It is written in Verus, and everything under `src/` is verified.

| module | what it decides |
|---|---|
| `lib.rs` | the output sink; how `run` and `run_io` begin a session |
| `uci` | how a message loop begins; the replies to `uci`, `compiler` and `eval`; what `ucinewgame` clears |
| `session`, `session_laws` | the course of a session, and what holds of every one |
| `output_laws` | where protocol lines go in a session, and that each is one line |
| `listener`, `listener_laws` | what becomes of each command that a host sends, and what is queued |
| `lifecycle` | listener and message loop side by side: no stop is lost, replies keep their order |
| `command`, `notice` | what a command asks for, and what is printed for it |
| `limits` | the arguments of `go` |
| `search`, `search_laws` | the course of a `go`, from its plan to its last acknowledgement |
| `vote` | whose move is played at the end of a search |
| `options`, `position` | the arguments of `setoption` and `position` |
| `text`, `number` | words, lines and decimal numbers |

The library decides and does nothing else. `app/` owns the threads, the channels, standard input and
output, and the engine proper behind the trait `Engine`: board, search and evaluation. `app/main.rs`
is the program; `app/lib.rs` is what a host links, with `run_io` and `set_output_sink`.
