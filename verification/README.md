# imbik

An engine that searches for analog circuits: it seeds populations of
topologies, mutates them, simulates them with ngspice and keeps the novel or
well-scoring ones in an archive.

`src/` is the verified library (Verus): the circuit model and its validation
rules, netlist writers, the mutation operators and the mutation driver with
its telemetry, population seeding, feasibility-filter counters, preset model
resolution and diagnostics, vendor SPICE file reading, and the small parsers
and decisions behind the command line and the simulator runs.

`app/` is the program around it: the command line, simulator processes and
output files, floating-point scoring and signal analysis, the part catalog,
checkpoints and reports.
