# minikernel

A small round-robin kernel for the STM32F407 Discovery board, together with
the programs around it, written in Verus.

- `src/` is the verified library: every decision the programs make (which
  LED to light, which task runs next and where its registers are saved,
  when a delay is over, which system call a task made, where a task's entry
  lies in an embedded object file, whether a number is prime) is a function
  with a contract, and the properties that span several calls (round robin,
  launch order, disjoint frames and stacks, the prime count splitting
  across workers) are proof functions.
- `tests/` runs the library on concrete values.
- `app/` holds what cannot be verified: the host program that counts primes
  with one thread per CPU, and the firmware images (interrupt handlers,
  peripheral set-up, and the machine code that switches tasks), which hand
  plain values to the library and act on what it returns.
