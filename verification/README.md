# genie

Gemma Genie, a private offline assistant around a local Gemma model, with its
decisions written in Verus and proved against their contracts.

- `src/` — the verified library: configuration from the environment, model
  selection, the litert-lm command lines and CPU fallback, output filtering,
  chunking, entity extraction and the correlation-graph statements, the
  doctor report, uninstall guarding, document routing, the in-process
  engine's message and reply, and the installer's environment probe,
  component plan, digest check and placement.
- `tests/` — tests of the library on concrete values.
- `app/` — the program around it: command-line parsing (clap), reading the
  environment and files, running litert-lm, hf-hub downloads, the LadybugDB
  graph, the optional in-process engine (C API), and the installer's
  downloads. Started as `genie-bootstrap`, the binary runs the installer.
