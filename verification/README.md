# Sterngate

Verified core of an automotive diagnostic, tuning and flashing toolkit for Mercedes-Benz
vehicles (W211 era), written in Verus.

- `src/` is the library, every function proved against its contract: CAN frames, the
  Tactrix OpenPort wire protocol (encoder and stream decoder), ISO-TP/UDS ECU simulation,
  GF(2^8) arithmetic and Reed-Solomon parity, Bosch ROM checksum blocks and map scans,
  firmware signature extraction, DTC decoding and localization, VIN decoding, community
  mod integrity and ASCII armor, the ECU catalog, vehicle profile identifiers, command
  envelopes and the cascade-failure report.
- `tests/` exercises the compiled library.
- `app/` is the runtime around it: serde forms of the library types, async vehicle
  adapters (virtual bus, DoIP, J2534, SocketCAN, OpenPort over USB), file and Git I/O,
  and the floating-point analytics (suspension, compressor guard, drive benchmarks,
  cascade watchdog, calibration curves).
