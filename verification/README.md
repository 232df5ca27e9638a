# sis_kernel

Verified core of the SIS kernel's AI subsystems, written in Verus.

- `src/arch/aarch64`: SMMU stream tables and IOVA allocation, the atomic
  bitmap, TrustZone world state, PMU programming, SMP bring-up decisions,
  M1 hardware validation, UART flag decoding and NEON capability checks.
- `src/arch/x86_64`: DMAR parsing, host memory regions, predictive power
  management, CPU topology and the CI bring-up rules.
- `src/kernel`: capabilities, the AI runtime, its memory-safety layer,
  schedulers, memory pools, fault injection, the simulator, migration,
  Byzantine consensus rules, authentication, boot recovery, the cognitive
  runtime, the AI system calls and the AI self-test.

Register reads, MMIO, timers and other hardware effects happen in the
platform layer (`app/`), which hands their results to the verified
functions; `app/` also holds the global instances and the floating-point
kernels.
