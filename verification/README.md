# m3u8_downloader

The core of an HLS (M3U8) stream downloader, written in Verus. The
functions in `src/` carry contracts that the verifier proves, except the
few small wrappers around outside crates (url, hex, aes/cbc, uuid, zstd)
and std calls (the clock, UTF-8 decoding, collecting characters): their
contracts are trusted, and each one's doc comment says what it claims.

- `src/` is the verified library: playlist parsing (master and media
  playlists, attribute lists, numbers), the job list and its state changes,
  the download queue, retry and merge decisions, ffmpeg arguments, the
  MPEG-TS junk stripper, AES-128 segment decryption, path and file-name
  rules, and the media check. `src/laws.rs` states properties that span
  several operations (pause then resume, retry waits, queue order, deleting
  finished jobs, ...).
- `app/` is the program around it: the command line, HTTP, files, the
  worker tasks, ffmpeg and logging. Apart from the floating-point speed and
  progress figures, it performs what the library decides.
- `tests/` exercises the library on concrete playlists, jobs and files.

Paths are `/`-separated texts. Floating-point values of a job (progress,
smoothed speed) are kept in the library as their IEEE-754 bits; the
program computes them.
