# artchiver

Artchiver gathers artworks from museum and podcast sources through plugins, keeps their
metadata in a SQLite database and their files in a content-addressed data directory, and
lets the user browse them by tag.

- `src/` is the verified library (Verus): tag selection and refresh, the tag and work
  galleries and their navigation, plugin task queues and logs, the calling throttle, data
  paths, the query cache, the database writer's decisions, and the sources' rules for
  tags and works (The Met, the National Gallery of Art, podcasts, the demonstration).
- `tests/` exercises the library on concrete values.
- `app/` is the command line around it: directories, SQLite, HTTP, JSON, the museums' CSV
  tables (`csv`) and podcast feeds (`rss`).

The sources' functions take their tables and feeds as plain values (`MetObjectRow`,
`NgaObject`, `NgaTerm`, `PodcastChannel`, ...); `app/` reads the downloaded documents into
them and stores what the library computes:

    artchiver [-p PREFIX] nga-tags | nga-works TAG
    artchiver [-p PREFIX] met-tags | met-works TAG | met-object ID
    artchiver [-p PREFIX] podcast-tags URL... | podcast-works TAG URL...
    artchiver [-p PREFIX] tags | fetch URL | download URL

Sizes and measurements of works, which are floating-point quantities, are not modelled.
