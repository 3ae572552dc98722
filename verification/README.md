# macinmeter-dr-tool

A dynamic-range (DR) meter in the style of the foobar2000 DR Meter, built as a
Verus-verified library with a thin command-line program around it.

- `src/` — the verified library: batch statistics, report text and the
  restoring of file order after parallel work, command-line
  value checks, channel de-interleaving and the per-channel coordinator, the
  edge-silence trimmer, the analysis window buffer, memory tiers and
  strategies, the safety checks, and the front-end job registry, with contracts
  proved by Verus.
- `tests/` — tests of the library on concrete values.
- `app/` — the program: argument parsing, decoding with symphonia, the
  floating-point measurement (window RMS, peaks, DR values, decibels), file
  and console output, threads and system queries.
