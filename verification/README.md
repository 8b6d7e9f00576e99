# asciii_cli

The command line front end of the `asciii` project manager, as a verified
library.

`src/` holds the logic that the sub-commands run, each function with a
contract that Verus proves:

- `text`, `decimal`: comparing strings, reading a year as `str::parse::<i32>`
  does and writing integers as `Display` does (with the round trip proved);
- `ordering`: the stable order in which projects are listed by manager, date,
  name or index (sorted, a permutation, stable, and unique);
- `paths`: joining paths as `PathBuf::join` does on Unix, and the `path`
  command's choice;
- `listing`, `commands`, `clock`, `reports`: what each sub-command decides
  from its arguments and configuration, and the lines it prints;
- `errors`: the storage and action errors and their descriptions.

`app/` is the unverified rest: it reads the parsed arguments, talks to the
project storage, the repository, the terminal and the editor, and carries out
what the library decided.
