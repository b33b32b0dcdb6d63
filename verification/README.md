# ctxmenu

The logic of a Windows context menu manager, verified with Verus: what the
window lists and says, what the command line accepts and prints, and what
the Windows 11 menu handler shows for entries of one's own.

Everything under `src/` takes plain values and gives plain values back;
each public function states its result in its `ensures`, and the laws of the
library stand as public proof functions (`law_…`).

- `chars`: text as characters: trimming, searching, numbers, templates.
- `bilingual`: messages that carry both languages, cut to one.
- `cli`: the command line: switches, errors, the scan table.
- `commands`: what each console command prints once its work is done.
- `window`, `table`, `selection`: rows, search, sorting, cursor, clicks.
- `screen`, `forms`: what a click decides in the dialogs, the top bar,
  the trees and table headers, and the service and upload forms; each a
  step from state and event to next state and work to do.
- `steps`: the console commands that change the registry, step by step.
- `plan`, `summary`, `tally`: what an action on the selection turns into,
  what the action bar says of the selection, and the counts below the
  scan table.
- `labels`, `glyphs`, `i18n`, `notes`, `outcome`: what the window says.
- `model`, `create`, `favourites`, `services`, `tools`, `settings`: data.
- `handler`: which recorded entry the Windows 11 menu shows, and the
  command line a click starts.

`app/main.rs` is the console front: it reads the arguments and prints.
Reading and writing the registry and drawing the window are not part of it.
