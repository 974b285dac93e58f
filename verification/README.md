# jpeek

Peek at JSON structure: for every place in a document, the types seen there,
an example of each, and the range of values, drawn as a tree.

```
$ echo '[{"a": 1}, {"a": 2, "b": "x"}]' | jpeek
[root]: arr len = 2
└── [values]: obj
    ├── a: int = 1  (1 - 2)
    └── b: str | undefined
        ├── [option]: str = "x"
        └── [option]: undefined cnt = 1  (0 - 1)
```

## Layout

- `src/` is the library, with its contracts and their proofs:
  - `stats.rs`: the statistics (`TypeStats`, `CollectionStats`) and their model;
  - `merge.rs`: merging statistics seen at the same place;
  - `values.rs`: the statistics of single values, and fields of objects;
  - `counts.rs`: how far counts can grow, and checks that rule out overflow;
  - `render.rs`: the tree as lines of styled pieces;
  - `text.rs`: string order, decimal numerals, truncation, tree branches;
  - `number.rs`: order keys that stand for numbers;
  - `laws.rs`: the invariant of the statistics and what merging preserves.
- `app/main.rs` is the command-line program: it parses JSON with `serde_json`,
  feeds the values to the library, and prints the lines in colour with
  `colored`. Numbers themselves (their digits, and whether two are too close
  to show a range) are handled there, as floating-point values.
- `tests/` runs the library on documents and on single values.
