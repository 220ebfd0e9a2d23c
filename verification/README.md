# move_to_ts

Prints a Move module as a TypeScript file: its constants, its structs as classes, its
functions with the payloads of the entry functions, a JSON description of the functions and
the registration of the parsers.

`ast_to_ts::translate_module` takes a module whose names, types and expressions have been
rendered (`ast`) and a `Context` (`shared`), and returns the name and the text of the file or
a diagnostic.

Contracts name the steps that a printer takes, as a sequence (`script`). `script::run` says
what steps do to a writer and a context and where they end. A step that is not defined for
an input ends a run as `Stuck`, and a printer requires that its run does not end so;
`definedness` says which modules are safe. `laws`, `directives`, `stops` and `exports` hold
what is true of the library as a whole.

| module | contents |
| --- | --- |
| `ast`, `shared`, `printer` | the tree, the context, what can be printed |
| `text`, `string_set`, `tsgen_writer` | strings, ordered sets of strings, the text under construction |
| `commands`, `statements`, `constants`, `types`, `functions`, `structs`, `struct_directives`, `shows`, `module`, `declared_vars` | the printers of each construct and what they ask |
| `ast_to_ts` | files |
| `script`, `shape`, `indentation`, `definedness`, `directives`, `stops`, `exports`, `laws` | steps and what is proved of them |
