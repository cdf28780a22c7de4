# meshtorus

A verified core for distributed training on mesh-torus hybrid topologies: GPUs inside a
node form an NVLink full mesh, and nodes form a 2-D or 3-D torus.

`src/` is the library, written in Verus; every function in it carries a contract that Verus
proves, and the laws of the library are stated as proof functions beside the code:

- `topology`: torus coordinates and their row-major ranks, wrap-around neighbours,
  intra-node meshes, device discovery without hardware, and the hybrid of both.
- `comm`: the `Communicator` trait, an in-process communicator with word-wise
  reductions, topology-aware exchanges and collectives, and the TCP handshake and framing.
- `pipeline`: GPipe and 1F1B schedules with their execution orders, stage placement and
  hop distances, checkpoint decisions, and the wire formats of stage data and FP8 payloads.
- `precision`: mixed-precision configuration, loss-scale transitions, the amax ring buffer
  of delayed scaling, per-block quantization layout and tensor shapes.
- `training`: configuration validation, the plan of a training step, and the assembly of
  the distributed runtime.
- `model_split`, `codec`: splitting layers over stages, little-endian encodings.

Floating-point values cross the library as IEEE-754 bit patterns.

`app/` is the plain Rust around it: quantization with `float8`, Burn tensors, the TCP and
shared-memory transports, NVML discovery, serialisable configuration and the training loop.
