# fleet_autopilot

A GPU fleet autopilot whose decision core is verified with Verus.

- `src/` — the verified library: fleet layout (`simulator`), chaos scenarios (`chaos`),
  health status bands (`health`), the gang scheduler with warm spares (`scheduler`),
  remediation of failed GPUs (`remediation`), the incident agent and its rule engine
  (`agent`), the fleet engine and its control API (`fleet`), the GPU listing (`listing`),
  status counts and the Prometheus exposition (`telemetry`), tree walks of the failure model (`ml`), configuration
  defaults and checks (`config`), and fixed-width identifiers (`text`). Public proof
  functions named `law_*` state the properties that hold across operations.
- `app/` — the HTTP server around it: configuration loading, the floating-point physics
  (thermal ODE, power and sensor noise), health scores, the failure model's float
  arithmetic, the formatting of float metrics and the REST routes.
- `tests/` — behaviour on concrete values.

Floating-point readings never enter the library: it receives the outcome of each
comparison the rules make on them (for instance "temperature at least 92 °C"), and returns
what a tick does to them as integer effects.
