# Gamevim

Gamevim is a terminal game for learning Vim habits through short, replayable lessons.

The default experience opens a full terminal UI with Continue, Lessons, Help, Practice
and Settings screens. In menus you can use arrow keys or `h/j/k/l`; inside levels, only
Vim commands taught so far are accepted.

Useful quick commands:

```sh
gamevim --list-levels
gamevim --lesson 1-2
gamevim --lesson 1-2 --seed 42
gamevim --reset-progress
```

## Layout

- `src/` is the library: the rules of the game, verified with Verus. What every function
  does is stated in its contract, and what holds of the game as a whole in public proof
  functions beside them.
- `tests/` runs the library on concrete levels and keys.
- `app/` is the program around it: arguments, key reading, drawing and the progress file.

The rules are stated over an elapsed time that is handed in. A function whose name ends in
`_at` takes it as an argument; the one without the ending reads the clock and does the
same. Times with a decimal are written out by the program, as floating point stays outside
the library.
