# wasvm

A WebAssembly decoder, validator and interpreter whose behaviour is stated as
Verus contracts and proved.

- `src/` is the verified library: LEB128 and section decoding (`decodable`,
  `byte`, `sec_*`, `section`, `instruction`), validation (`context`),
  instantiation and linking of imports to registered modules (`instance`,
  `link`, `module`, `table`, `spectest`, `embedder`), values (`value`), memory
  (`memory`), the operand stack (`stack`) and the machine that runs function
  bodies one step at a time (`vm_spec` states what a step does, `vm` does it).
- `app/` is the command-line program: it reads `<name>.wasm`, runs its
  `_subject` function with `i32` arguments and prints the result. It also
  computes the float instructions and runs the host functions, which the
  machine hands over.
- `tests/` holds the tests.

Imports are linked by module name and name to the modules registered in an
`ExternalModules`. An imported function is copied, body included, and runs in
the importing instance, against its globals, memory, table and function
indices; an imported host function is handed to the embedder, with its
arguments on the stack. An imported
global, memory or table is copied into the importing instance (a table with
as many empty slots as the imported one, filled by the importer's element
segments); the exporting module does not see later changes.
