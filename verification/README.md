# depctl

`depctl` synchronises the dependencies that a project's `DEPS` file names:
git repositories checked out at pinned commits (shallow where the server
allows it), downloaded files and archives, links and copies made once the
whole dependency tree is in place, and custom actions. Entries can be made
specific to a platform, use `${VAR}` substitution, and be redirected to
mirrors.

## Layout

- `src/` is the verified library. Its functions carry contracts that Verus
  proves, except for a few small trusted items, each marked `Trusted:` in its
  doc comment, whose contracts about the standard library, `sha1`,
  `pathdiff`, `zip`, `bzip2` and `tar` are believed without proof:
  - `text.rs`: string operations (trim, split, search, replace) stated over
    character sequences;
  - `path.rs`: joining paths (by the Unix rules: `/` separates, a leading
    `/` makes a path absolute), and the path operations that the standard
    library and `pathdiff` compute;
  - `utils.rs`: version comparison and the SHA-1 based digest of URLs;
  - `config.rs`: variable substitution, mirrors, platform selection and the
    resolution of a DEPS file into the entries to synchronise;
  - `cli.rs`: what the command-line options resolve to;
  - `tasks/`: the decisions of each task: which tasks a synchronisation runs
    and in what order, the fetch strategy for a pinned commit as a state
    machine, how a downloaded zip or tar.bz2 archive is unpacked (read by the
    `zip`, `bzip2` and `tar` crates), what a link or copy does when its
    destination exists, what a clean removes.
- `app/` is the program around the library: argument parsing, reading and
  writing files, running git, downloading and unpacking. It performs the
  actions the library decides and hands it back what it observed.
- `tests/` runs the library on concrete inputs.
