# CPU Tweaks

A Linux tool for CPU frequency and power management: it reads the driver,
governors, energy performance preferences, frequency limits, turbo and
Intel P-State settings from sysfs, shows them, and applies changes with a
`pkexec bash -c '...'` script.

Layout:

- `src/` is the library, verified with Verus:
  - `text.rs`: trimming and splitting on Unicode whitespace, integer parsing
    as `str::parse` does it, decimal printing, substring search and string
    order, each stated over `Seq<char>`;
  - `order.rs`: facts behind the stable sorts;
  - `cpu/sysfs.rs`: the CPU model built from the contents of the sysfs files
    and `/proc/cpuinfo`;
  - `cpu/apply.rs`: the commands of a change request, the script, the
    outcome message, and that what a command writes reads back unchanged;
  - `cpu/sensors.rs`: temperature, fan, PWM and battery readings, with the
    temperatures sorted CPU devices first;
  - `gui/`: what the window decides: drifts between the selections and the
    system, the request that applies the selections, the status line.
- `app/` is the program: it reads the files, runs `pkexec`, and draws the
  window with egui.
- `tests/` runs the library on concrete inputs.
