# mediafire_downloader

Resolves MediaFire file and folder links into a prioritized queue of download
jobs, and downloads them with resuming and hash verification.

The library (`src/`) is verified with Verus:

- `text` — substring search, splitting, replacing, trimming and decimal
  rendering over characters, each with its specification.
- `utils` — the scrapers for MediaFire's download pages (normal and
  malware-warning) and for the `ukey` cookie.
- `types` — errors and their messages, progress values, download jobs with
  their paths and order, and the priority queue of jobs.
- `walk` — the traversal of files and folders (depth first, chunked folder
  contents) as a state machine that collects jobs.
- `download` — the download of one job as a state machine: resume, link
  resolution through HTML and malware-warning pages, streaming, verification.
- `hashing` — MD5 / SHA-256 verification of a file's bytes.
- `downloader` — the downloader: clients, proxies, job order.
- `outside` — the declarations of outside types and the trusted wrappers
  around `md_api`, `reqwest`, `md5`, `ring`, `hex` and `std::path`.

`app/` drives the two state machines asynchronously with `tokio`, `reqwest`
and `md_api`: API calls, HTTP requests and file I/O.
