# geoworker

The logic of the GeoWorker API, verified with Verus: user registration and
login (SHA-256 password hashes, JWT access tokens, random refresh tokens),
teams (creation, invitations, membership, leaving and hand-over of the
administrator role), the request payloads (bounded bodies read as JSON) and
the route table.

The `users` and `teams` collections are held by `store::Database`, whose
view is the sequence of documents of each collection; every operation
states the store it leaves in terms of the update operators it applies.

- `src/` — the library; `src/laws.rs` holds the properties that span
  several operations (login after registration, membership after an
  invitation, leaving, creation, the store invariant and the membership
  invariant that team lists and member lists agree).
- `tests/` — tests on concrete values.
- `app/` — the Rocket server around the library; each request loads the
  two collections from MongoDB, lets the library answer it and writes back
  the documents that changed.
