# StreamInfa

A media server for live and on-demand video: RTMP ingest, transcoding, HLS packaging with
fragmented MP4, object storage and HTTP delivery.

The library under `src/` holds everything the server decides and computes, and every function in
it is proved against its contract with Verus:

| Module | Holds |
| --- | --- |
| `common` | identifiers and frames, errors, configuration, limits, redaction, authentication |
| `ingest` | RTMP messages and commands, FLV demuxing, the course of live streams and of uploads, validation |
| `transcode` | the rendition ladder, cutting packets into segments, the steps of a transcode |
| `package` | MP4 boxes, playlists, segment windows, the packager of a stream |
| `storage` | the store in memory, the object cache, retries, cleanup |
| `control` | stream states, pipeline events, draining |
| `delivery` | answers to players and administrators, readiness, request identifiers |
| `observability` | metrics, sensitive log fields |

`text`, `buffer`, `uuids` and `clock` wrap the few outside functions that the rest builds on; the
contracts of these wrappers, and of those beside the key hashes, the stream table and the cache, are
taken on trust. `binary64` computes quotients as double-precision arithmetic rounds them, for the
durations and frame rates that playlists and encoders are given.

`app/` is the program around the library: sockets, files, tasks and HTTP. The feature `s3` stores
objects on S3 instead of in memory, and the feature `ffmpeg` transcodes with FFmpeg instead of
passing frames through. Media durations are counted in ticks of 1/90000 s, and points in time in
nanoseconds.
