# Recorder server

A self-hosted server for long voice messages. The browser records in small chunks and uploads each
one as it is made; the server stores the chunks, puts them together when the recording is
finalized, plays the result under a secret link, and deletes it on request. A chunk that was
answered is not lost, and one that was not can be sent again. A deletion that was answered has
removed the chunks, every finalized file and the rows; one that was not can be repeated.

The logic is a library that is verified with Verus; `app/` is the process around it.

## Layout

- `src/` is the library. A request is a machine: it asks for one effect on the database or the disk
  at a time and goes on with the reply, until it ends with an outcome.
  - `upload`, `finalize`, `download`, `delete`, `session`: the requests. `server` goes on with any
    of them.
  - `effect`, `flow`, `messages`, `lookup`: what requests ask for, where they stand, and what they
    are answered.
  - `path`, `layout`, `identity`, `codec`, `text`: paths, the places of files, ids and tokens,
    base64 and digests.
  - `config`, `startup`, `routes`: the configuration, bringing the server up, the addresses.
  - `outside`: the calls into other crates, with what is claimed of each.
  - `world` and `laws`: a model of the database and the disk, and what holds of whole requests and
    of any number of them run against it.
- `tests/` runs the library against a database and a disk in memory.
- `app/` reads the environment, speaks HTTP and carries out the effects with SQLite and on disk.

## Configuration

| Variable              | Default         |
|-----------------------|-----------------|
| `APP_DATA_DIR`        | `./data`        |
| `APP_DB_PATH`         | `./data/app.db` |
| `APP_MAX_CHUNK_BYTES` | `10485760`      |
| `APP_WEB_DIR`         | `./web`         |

## Addresses

- `POST /api/sessions` opens a session and gives its links
- `POST /api/r/{token}/chunks` uploads one chunk
- `POST /api/r/{token}/finalize` puts the recording together
- `GET /r/{token}/file` plays it
- `DELETE /api/r/{token}` deletes it
- `GET /r/{token}/` is the page to record with

The same is offered by session id under `/api/sessions/{id}`.
