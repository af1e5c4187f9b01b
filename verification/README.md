# ksearch

A compiler for Metal kernels, and what it takes to run Gemma-class language models with the kernels
it writes. The library is verified with Verus; `app/` is the program around it.

```
graph of primitives -> schedule -> kernel IR -> Metal source -> launches
```

## The library

| Module | Contents |
|--------|----------|
| `text`, `decimal` | Numerals, texts of floating-point numbers, searching, trimming and joining of texts |
| `ir` | Element types, shapes, graphs with their builders, kernel IR, tilings |
| `codegen` | Scheduling, lowering, rendering, the search for tilings and the files that keep them |
| `codegen::laws` | What kernel bodies mean, and that they compute what their graphs say |
| `kernels` | Kernels by name, the calls of the engine, launch grids, command buffers |
| `gemma` | Dimensions, slots for sequences, uploads, and the plans of prefill, decode and generation |
| `gguf` | Model files: the head and the places of tensors, half precision, the tokenizer |
| `server` | Chat template, tool calls, channels, requests, responses and the scheduler |
| `cli` | What the command line decides by itself |

Graphs are sequences of nodes; a builder states the graph it leaves behind and the node it returns.
Kernel bodies are trees of statements, and lowering states the tree. `codegen::laws::machine` gives
such trees a meaning over any arithmetic: threads take the statements of the outermost block
together, and each takes what is inside by itself. On top of it stand the laws: an elementwise
kernel computes its chain of operations, a matrix-vector kernel computes the product under every
tiling that loses no element, by itself or fused with what comes before and behind it, attention is
a weighted mean, and a fused normalisation computes what its primitives compute.

A model is planned, not run: a decode step is a list of steps, each a call of the engine, a write
or a wait. The program carries them out.

Floating-point constants are bit patterns or exact counts in the library; the program writes them
as literals. Sampling and rotation tables are floating point and stand in the program.

## The program

`app/` reads model files, talks to the device, keeps tilings on disk and serves HTTP:

```
ksearch elem-add --n 1048576
ksearch matvec --rows 4096 --cols 4096 --beam
ksearch generate --gguf model.gguf --prompt "Hi" --n-predict 32 --max-seq 64
ksearch bench
ksearch serve --gguf model.gguf --port 8080
```

Metal needs macOS; elsewhere every command that needs the device says that there is none.

| Variable | Effect |
|----------|--------|
| `KSEARCH_CHIP` | Chip name under which tilings are kept (default: the device's name) |
| `KSEARCH_BEAM_FORCE` | Search again although a tiling is kept |
| `KSEARCH_BEAM_CACHE` | Directory for tilings (default `~/.cache/ksearch/beam`) |
| `KSEARCH_SKIP_BEAM` | Load without searching |
| `KSEARCH_PROFILE` | Time every kind of step of a plan, one after the other |
