# dungeon_crawler

Verified core of a tile-based dungeon crawler, written in Verus.

`src/` is the library. Its functions carry contracts that Verus proves, with
the exception of the few trusted items that call outside code; their
contracts are believed, not proved:

- `config::duration_from_millis` (std's `Duration::from_millis`),
- `map::decor::random_index` (`rand`'s `gen_range`) and the declaration of
  `StdRng`,
- `engine::fresh_model_key` (`uuid`'s `Uuid::new_v4`, as text),
- `model::gltf_file::read_attribute_refs` (`gltf::Gltf::from_slice_without_validation`,
  reduced to the accessor indices of mesh attributes) and
  `model::gltf_file::import_outline` (`gltf::Gltf::from_slice`, reduced to
  the document's structure; it is called only once the verified code has
  ruled out the inputs on which `gltf` panics),
- `ui::utils::decode_rgba8` (`image::load_from_memory` and `to_rgba8`).

Where an outside result is a function of its input alone, the trusted item
only names it (`duration_of_millis`, `gltf_attribute_refs_of`,
`gltf_outline_of`, `rgba8_of`), and the
verified code around it is stated over that name.

- `map` — which catacomb room fits a cell's entrances and how it is turned
  (`layout`), the cell walk of the map and the tile plan built from the
  generator's grid (`grid`), decor file names, decor variants and decor
  lights (`decor`), the build/destroy life of a tile (`tile`), and the
  `--edit` command-line flag.
- `model` — the set-up of a model from its glTF structure: joint limits,
  default scene, transform order, lights, mesh roles and collision groups
  (`gltf_file`); the transform order itself (`graph`), mesh naming
  conventions (`names`), triangle outlines (`collision`), RGBA pixel padding
  (`material`), skins and vertex joints.
- `engine` — model instance keys and the lighting pass's light slots.
- `state`, `ui` — the decisions of the frame loop, keyboard shortcuts, menus
  and screen fades, and the decoding of interface images.
- `text` — string splitting, search and comparison used by the above.

`app/` is the program around it: settings, decor and grid files, the
floating-point vertex, geometry, collision and animation data read from glTF
files, and a game without a window that takes its events from standard input.
