# supgit

A friendlier front end for everyday git: staging, committing, branches,
remotes, stashes ("shelve"), worktrees, tags, resets, diffs and a shell alias.

The crate is split in two:

- `src/` is the library, verified with Verus. It holds everything the tool
  decides: how `git status --porcelain`, `git remote -v`, `git stash list`,
  `git worktree list --porcelain` and the tag listing are read, which git
  command each request and each menu pick leads to (with the line printed
  after it), the checks that refuse a request, the alias block written to a
  shell start-up file and how it is taken out again, and when to look for an
  update. Each public function states its result in its `ensures`; the
  `law_*` proof functions state what holds across functions.
- `app/` is the program around it: argument parsing (clap), prompts
  (dialoguer), running git and cargo, and reading and writing files.

`tests/` runs the library on concrete values.
