# rubiks_cube_simulator

A Rubik's cube model with blindfold-solving analysis, verified with Verus.

- `src/cube`: cube states, face/slice/wide moves, the named face-move table.
  Proved: a move (or a whole sequence) followed by its reverse gives back the
  state, also through a written scramble; the table's face moves agree with
  the notation moves; composing states is associative with the solved cube
  as identity; four quarter turns of a face give back the state.
- `src/parser`: move notation (the 18 face-turn tokens are read; writing and
  reading face turns round-trips) and the 3-style sheet format.
- `src/inspection`: corner and edge solvers, swapping through corner slot 0
  and edge slot 8 (the operations they return solve the pieces) and the conversion of operations into face turns through tables
  read from JSON.
- `src/explorer`: neighbourhood searches that replace one or two steps of a
  solution, modifiers, and the wrong-operation detector.
- `src/workflow`: the combined corner/edge workflow and the searches built on it.
- `src/display`, `src/cli_state_input.rs`: what the terminal front end shows and
  the key handling of the state editor.
- `app/`: the terminal front end (ratatui), file reading and the command line.
