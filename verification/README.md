# stellarshot

The logic of Stellarshot, a desktop backup tool built on rustic: the setup
wizard and its "where" step, the profile and restore pages, the repository
view, the Déjà Dup importer, removable drives, scheduling conditions, what
is recorded of checks and clean-ups, and the small rules the window
applies. Each page is a state machine: it takes a message, changes its
state and returns the effects (open the repository, start a backup,
show an error) for the program to run. Every public function carries a
contract that Verus proves, and the laws that span several calls (one write
at a time, stale answers ignored, a history read that comes back late loses
nothing) are proof functions beside the code they are about.

Layout:

- `src/` — the verified library.
- `tests/` — ordinary tests of the library on concrete values.
- `app/` — what reads the machine: its name, mounted drives, the clock and
  time zone, files in the home folder, and copying settings folders; and
  what is computed in floating point (sizes shown in decimal units,
  progress fractions).
