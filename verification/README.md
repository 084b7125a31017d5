# wasm_oxi_time

Finds the time-interval relations (overlaps, contains, meets, lies in)
between the events of an RDF graph, and turns CSV event tables into such
graphs.

- `src/text.rs`: text operations on character sequences, with `replace_all`
  proved against a specification of left-to-right, non-overlapping
  replacement.
- `src/csv_to_rdf.rs`: CSV table to Turtle: column roles, the Turtle text of
  each row and of the whole document, the CSV reader and the UUID source.
- `src/oxi_db.rs`: the SPARQL queries, decoding of query solutions into
  events, and the run of the queries on an in-memory oxigraph store.
- `app/lib.rs`: the browser bindings (`wasm-bindgen`), which read the page's
  input and hand the result back.
