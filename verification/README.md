# kata_fc

The decisions of a container agent that runs as the first process of a Firecracker guest,
and of the runtime that configures it, written in Verus. Functions state what they return
and what they change, and Verus proves it. Where a clock or another outside call decides,
they state what holds whatever it answers, and a function that takes the answer as an
argument states the rest.

- `src/` is the library. It does no input or output: what has to be done is handed out as
  a plan or as the next step of a run, and what came of it is handed back in.
  - Containers: `container`, `init_child`, `process_setup`, `start`, `sync`, `create`,
    `sandbox`, `shared_mounts`, `signal`.
  - Control groups: `cgroups`.
  - Requests of the host: `rpc`, `copy_file`, `device`, `device_policy`, `storage`.
  - Configuration: `agent_config`, `annotations`, `hypervisor`, `cpu`, `k8s`, `volume`.
  - Mounts, streams and traces: `mount`, `guest_io`, `trace`.
  - Data: `oci`, `path`, `strmap`, `text`, `shim`; `codegen` rewrites generated sources.
- Proof functions whose names start with `law_` state what holds across functions.
- `app/` performs the steps: files, processes, pipes, sockets and kernel calls.
- `tests/` runs the library on concrete values.

Functions marked `external_body` call other crates or the standard library. What is
believed of each stands in its contract and in the comment above it.
