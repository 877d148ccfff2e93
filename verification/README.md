# ariel_os

Verified core logic of an embedded operating system, written in Verus.

- `src/runqueue.rs`, `src/scheduler.rs`, `src/sync.rs`: the fixed-priority preemptive
  scheduler (run queues, thread control blocks, wait lists, thread flags, timeouts) and the
  synchronization primitives built on it (semaphore, recursive lock, wait queue). Contracts are
  stated over abstract run queues and thread states; laws such as "the thread chosen to run is
  the highest-priority ready one" are proved as lemmas.
- `src/coapcore/`: the CoAP security layer: AIF scopes, ACE tokens (COSE_Encrypt0 and
  COSE_Sign1 over CWT claims, checked with AES-CCM and ES256), EDHOC credentials and their
  identifiers, the server security configuration, and the recognition and dispatch of requests.
  CBOR is read and written through minicbor, cryptography through ccm, aes and p256, and EDHOC
  credential parsing through lakers; each such call sits behind a small trusted wrapper whose
  contract names what the outside function returns.
- `src/sensors/`: sensor drivers' conversions and the GNSS driver's state machine.
- `src/stm32.rs`: UART settings and bootloader partition layout.

`app/` holds what cannot be verified: the global scheduler instance behind a critical section,
the Cortex-M stack frame set-up, timer plumbing, and floating-point GNSS conversions.
`tests/` exercises the library with concrete values.
