# filectrl

The core of a terminal file manager, written in Verus. Every function in
`src/` is verified against its contract, except a handful of small trusted
wrappers, each of which makes one call into `std`, `unicode-width` or
`textwrap` and states in its doc comment what its contract assumes of that
call.

- `text`, `search`, `unicode`: outside text made safe to show, case-insensitive
  search, and fitting text into terminal columns.
- `args`: the command line, including the encoding that carries arguments
  that are not UTF-8 through a parser that reads only text.
- `keys`, `keys_laws`, `bindings`: key strings, the default key bindings, the
  overrides a config gives, and lookups in both directions.
- `paths`, `transfer`: path components and the checks a copy or move makes
  before it starts.
- `tasks`, `copying`, `copy_start`, `modes`: how a task ends, the decisions a
  copy makes about what it finds on disk, and the modes it gives what it
  creates.
- `walk`, `removal`, `copy_walk`, `scan`, `file_copy`, `sized_read`: the walks
  of a directory tree that hold only the deepest directory open, and the step
  by step decisions of removing, copying and pre-scanning a tree, of copying
  one file's bytes, and of reading a value whose size may change; each says
  which system call to make next and takes back what it gave.
- `watch`: which directory is watched, which events call for a refresh, and
  how long the refresh window is after a slow listing.

`app/` is the command around the library: argument parsing, printing, the
file-system reads that feed the checks, and the loops that drive the removal
of a tree, the copy of a file's bytes and the end of a move across devices.
The interface that would start those tasks is not part of this build, and
nothing in `app/` drives the tree copy, the pre-scan or the sized reads yet.
`tests/` runs the library on concrete cases, driving every walk and step.
