# Backpack

The core of Backpack, a screenshot and file host, as a library verified
with Verus, and the server program around it.

- `src/sonyflake.rs`: the distributed ID generator (time, sequence and
  worker bits); its ids strictly increase and never repeat.
- `src/multipart.rs`: how the fields of a `multipart/form-data` request
  become a form (values, files, and `name[]` lists).
- `src/config.rs`: the server configuration read from environment variables.
- `src/internal.rs`: length validation, random strings, which files get
  thumbnails and where they are kept, bearer
  tokens.
- `src/models.rs`, `src/entity.rs`: the data the API exchanges, the answers
  of the routes, and authorization by role.
- `src/sqlite.rs`: SQL for rebuilding SQLite tables in migrations.
- `src/database.rs`: paging, the version query, and the file a request path
  names.
- `src/text.rs`: decimal numbers, integer parsing, substring replacement.

`app/` holds the program: the HTTP server (actix-web), reading the
environment, the multipart extractor, the shared ID generator, and
thumbnail regeneration (decoding images stays
there: the decoders may panic on malformed bytes).
