# photokeep_verifier

The verified core of the Photokeep verifier, a desktop tool that decrypts
files exported by Photokeep (single `.enc` files, zip archives of them, and
the block-wise encrypted `PKVIDEO1` video container) and previews them.

- `src/` is the library, verified with Verus:
  - `key`: parsing the key text (base64 in four flavours, hex, or 32 raw bytes);
  - `crypto`: AES-256-GCM decryption of data files and video blocks;
  - `video`: the video container's header and block layout;
  - `decoder`: decrypting a video block by block in planned order;
  - `kind`: content sniffing (HEIF, PNG, JPEG, GIF, MP4);
  - `names`: file names, sanitising, the `.enc` and `.zip` suffixes;
  - `registry`: results by random id; `items`: the entries shown and the
    items gathered from a zip archive;
  - `error`: failures and their messages; `text`: string helpers.
- `app/` is the Tauri application around it: commands, file and archive I/O,
  dialogs, the shared state.
- `tests/` exercises the library on concrete values.
