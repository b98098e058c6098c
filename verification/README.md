# asol_naki

Core of a second-hand laptop diagnostic that checks whether a machine is what
the seller says it is.

- `src/` is the verified library (Verus): parsers for battery reports, EDID
  blocks and smartctl JSON documents, the hardware summary built from OS and
  WMI readings, the known-models CPU database, and the fraud/consistency
  checks. Every public function states its result in its `ensures`.
- `app/` is the desktop side: the scanners that read the machine (sysinfo,
  WMI, the registry, smartctl), serde copies of the library's types, and the
  floating-point scoring engine.
- `tests/` exercises the library on concrete inputs.
