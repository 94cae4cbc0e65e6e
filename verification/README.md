# herdr-clip

Clipboard history for the [herdr](https://herdr.dev) terminal multiplexer: a
watcher records what lands on the system clipboard, texts and images, in a
SQLite database, and an overlay picker pastes an entry into the pane you came
from, or puts an image back on the clipboard.

The library in `src/` is written in [Verus](https://github.com/verus-lang/verus):
what each function does is stated in its contract and proved.

| Module | What it holds |
|---|---|
| `picker`, `session`, `screen`, `label` | the picker: its state, its keys, the texts it shows |
| `filter` | the fuzzy filter |
| `history`, `table`, `sqlite` | the history store, the table it keeps as a mathematical value, and the SQL statements |
| `legacy`, `legacy_laws` | reading the line-based history that preceded the database |
| `watcher`, `restore`, `img` | what the watcher records, restoring an image, PNG and pixel hashes |
| `herdr`, `json`, `paste` | herdr's socket protocol, and where a picked text is sent |
| `config`, `paths`, `cli` | configuration, directories, the command line |
| `text`, `decimal`, `size` | lines, whitespace, numbers, sizes |
| `history_laws`, `listing_laws`, `picker_laws` | what holds of the history, of its listings and of the picker as a whole |

What SQLite, `serde_json`, `toml` and `png` do is not proved: the functions
that call them are marked `external_body`, and say above each contract what
they claim of the call.

`app/` is the program around the library: terminal, sockets, files, the system
clipboard.
