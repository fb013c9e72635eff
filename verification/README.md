# ytdownloader

The backend of 拾流下载器, a desktop media downloader built on yt-dlp, as a
verified library.

- `src/` is the library. Every function in it is checked by Verus against its
  `requires` / `ensures`, except six small wrappers marked
  `#[verifier::external_body]`, each of which makes one call into std
  (`String::push`, `str::to_lowercase`, `str::to_uppercase`,
  `String::from_utf8_lossy`, `String::from_utf8`, `Path::file_stem`) and whose
  contract is trusted, not proved:
  - `text`: trimming, searching, case folding and line splitting over `Seq<char>`;
  - `settings`: sanitizing the saved settings and the output directory;
  - `args`: the yt-dlp command lines for inspecting and downloading a link;
  - `retry`: which errors call for another attempt, and the messages shown;
  - `download`: a task from its request to its final state, attempt by attempt;
  - `output`: reading yt-dlp's progress and destination lines;
  - `registry`: the tables beside the task list, the task order, the history;
  - `environment`, `install`: the check of the helper programs and their
    installation with Homebrew;
  - `json`, `preview`, `format_order`: reading a JSON description into a preview;
  - `parse`: the steps of inspecting a link, as a state machine.
- `app/` is the Tauri shell: commands, processes, threads, files, and the
  serde copies of the library's types.
- `tests/` runs the library on concrete values.
