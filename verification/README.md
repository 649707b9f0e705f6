# manga_sources

The logic of two manga sources for the Aidoku reader, MangaDex and Webtoons,
written in Verus and proved against its contracts.

- `src/text.rs`: decimal rendering, form-style percent encoding, integer
  parsing, trimming, splitting and searching text.
- `src/json.rs`: a plain JSON tree and the member access the readers use.
- `src/common.rs`, `src/record.rs`, `src/entry.rs`: statuses, ratings, links,
  filters, and the records and entries the sources produce.
- `src/mangadex/`: search filters to query parameters, tag identifiers,
  incoming links, request addresses, and the readers of API responses,
  including the paged chapter feed.
- `src/webtoons/`: site paths, incoming links, search and listing addresses,
  and the readers of the values shown on listing, series, episode and viewer
  pages.
- `app/`: the host side: requests, HTML selection, and conversion between the
  host's types and the library's plain values.
- `tests/`: the library's tests.
