# viewskater

An image viewer for exploring and comparing large sets of images, with its
navigation logic verified in Verus.

- `src/` is the verified library: which files are listed and in what
  order, the sliding window cache that preloads the neighbors of the
  current image, the LRU cache of textures visited with the slider, the
  navigation state of a pane and of several panes together, keyboard
  commands, settings, the texts shown in the footer and the overlays,
  animation frame pacing, the RGB to RGBA expansion of decoded
  pixels, and the slider preview benchmark's state
  machine. Decoding, uploading and drawing are done by the caller through
  closures and plain values.
- `tests/` exercises the library on concrete values.
- `app/` is the egui application around it: the window, menus, modals,
  decode threads, file dialogs, logging and settings files.
