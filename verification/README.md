# metasort

Sorts the photos and videos of an export into folders and writes what is known
of them into their metadata.

* `src/` is the verified library: every decision, with its contract.
  * `dating`, `dating_laws`: the date of a file, and where it comes from
  * `naming`, `naming_laws`: a new name for a copied file
  * `sorting`, `source`, `media`: categories, folders, lists and counts
  * `embed`: the metadata that is written into a file
  * `exif`, `sidecar`: reading ExifTool's reports and the JSON files of an export
  * `number`, `text`: what the above is made of
  * `outside`: what is taken on trust of the standard library, `serde_json` and
    `chrono`
* `app/` walks directories, runs ExifTool, copies and renames files. The program
  that uses it implements `Host`.
* `tests/` runs the library.
