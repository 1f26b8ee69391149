# open-wake

`open-wake` lets a Codex turn stop while local work continues. A session arms a condition, or runs a
command under a detached supervisor, and ends its turn. The Codex `Stop` hook then checks the
condition until it is met, fails, reaches its deadline or is due for a checkpoint, and asks Codex to
continue.

The rules of all this are a library that Verus verifies, in `src/`. It holds no files, processes or
clocks: every function takes what was observed and says what is to be done. `app/` is the command
around it. It observes, asks the library, and carries out the answer. `tests/` runs the library.

| Modules | What they hold |
| --- | --- |
| `condition`, `lease`, `session` | the records of a session, arming, cancelling, inspecting |
| `hook`, `delivery`, `check`, `hook_laws` | the Stop hook, step by step, and what it guarantees |
| `message` | what a continuation says |
| `job`, `job_list`, `supervisor`, `launch` | supervised jobs, and how one is launched |
| `hooks_file`, `config`, `setup`, `uninstall`, `setup_laws` | installing the hook and the skill |
| `update`, `download`, `install` | releases, the checks on a download, and the steps of an installation |
| `doctor` | the judgement of an installation |
| `commands` | what the commands decide and print |
| `names`, `places`, `ids`, `span`, `number`, `text`, `stored` | paths, directories, identifiers, durations, numbers and texts |
| `json`, `toml` | the two file formats, through `serde_json` and `toml_edit` |

The outside crates are called in `json`, `toml`, `span` and `update`, and parts of std that vstd does
not specify in `text` and `message`. Each such call stands in an item of its own whose comment says
what is taken for granted of it.
