# chip8

A CHIP-8 virtual machine as a verified library, with a small SDL front end.

- `src/` holds the machine, verified with Verus: the keypad (`keys`), the
  registers (`cpu`), the 4 KiB memory with the built-in font and program
  loading (`memory`), the screen buffer with sprite drawing and coordinate
  wrapping (`gfx`), the call stack (`stack`), the instruction decoder
  (`instr`) and the interpreter with the clock and timers (`machine`).
  Every instruction is specified by `machine::spec_execute`; the laws of the
  machine (a second drawing erases the first, a return comes back after the
  call, stored registers load back, ...) are proof functions named `law_*`.
- `app/` reads the program file, opens the window, turns keyboard events into
  keypad presses, paints the screen and paces the 1 ms clock.
- `tests/` runs the library on small programs.
