# secure_tsc

Checks, made inside an SEV-SNP guest, that its time stamp counter is programmed by the AMD Secure
Processor and not by the hypervisor.

- `src/` is the library, verified with Verus: decoding of the `GUEST_TSC_FREQ` register, the
  frequency checks, the selection of the least disturbed measurement round, the rate it gives, the
  course of a measurement with all its failures, and the byte layout of the TSC information
  response. It trusts no outside code and performs no input or output.
- `app/` reads the register, samples the counter and the clock, and sleeps, as the library asks.
- `tests/` runs the library on concrete values.
